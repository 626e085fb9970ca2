//! Sections of the application directory and their selection for packing and
//! unpacking.

use vstd::prelude::*;
use crate::text::{contains_name, decimal, decimal_of, str_eq, texts};

verus! {

/// Highest `profile.toml` schema version that this library understands.
pub const FORMAT_VERSION: u32 = 1;

/// A selectable slice of the application directory.
#[derive(Debug, Clone, Copy, PartialEq, Eq, Structural)]
pub enum PackSection {
    /// Configuration, manifest, scenarios and the payload packages.
    Core,
    /// The card store.
    Cards,
    /// The evaluation history.
    Evals,
    /// Checkpoints; large, hence opt-in.
    Nn,
    /// Orchestration and session state.
    State,
    /// Execution logs; carried only on request.
    Logs,
    /// Refetchable hub cache; carried only on request.
    HubCache,
    /// Generated type stubs; carried only on request.
    Types,
}

/// Why a section selection or a profile is refused.
#[derive(Debug)]
pub enum PackProfileError {
    /// A name that no section has.
    UnknownSection { name: String, known: String },
    /// `core` was to be left out.
    CoreExcluded,
    /// A profile that a newer version wrote.
    UnsupportedFormatVersion { path: String, found: u32, supported: u32 },
}

/// Every section, in the order in which sets of sections are listed.
pub open spec fn all_sections() -> Seq<PackSection> {
    seq![
        PackSection::Core,
        PackSection::Cards,
        PackSection::Evals,
        PackSection::Nn,
        PackSection::State,
        PackSection::Logs,
        PackSection::HubCache,
        PackSection::Types,
    ]
}

impl PackSection {
    /// The section's place in the listing order.
    pub open spec fn rank(self) -> int {
        match self {
            PackSection::Core => 0,
            PackSection::Cards => 1,
            PackSection::Evals => 2,
            PackSection::Nn => 3,
            PackSection::State => 4,
            PackSection::Logs => 5,
            PackSection::HubCache => 6,
            PackSection::Types => 7,
        }
    }

    /// The section's wire name.
    pub open spec fn name_view(self) -> Seq<char> {
        match self {
            PackSection::Core => "core"@,
            PackSection::Cards => "cards"@,
            PackSection::Evals => "evals"@,
            PackSection::Nn => "nn"@,
            PackSection::State => "state"@,
            PackSection::Logs => "logs"@,
            PackSection::HubCache => "hub_cache"@,
            PackSection::Types => "types"@,
        }
    }

    /// Selected when nothing is asked for.
    pub open spec fn by_default(self) -> bool {
        self == PackSection::Core || self == PackSection::Cards || self == PackSection::Evals
    }

    /// Selected by `all`.
    pub open spec fn by_all(self) -> bool {
        self != PackSection::Logs && self != PackSection::HubCache && self != PackSection::Types
    }

    /// The section's wire name.
    pub fn as_str(&self) -> (r: &'static str)
        ensures
            r@ == self.name_view(),
    {
        match self {
            PackSection::Core => "core",
            PackSection::Cards => "cards",
            PackSection::Evals => "evals",
            PackSection::Nn => "nn",
            PackSection::State => "state",
            PackSection::Logs => "logs",
            PackSection::HubCache => "hub_cache",
            PackSection::Types => "types",
        }
    }

    /// The section with the given wire name; the error lists the known names.
    pub fn parse(name: &str) -> (r: Result<PackSection, PackProfileError>)
        ensures
            match r {
                Ok(s) => s.name_view() == name@,
                Err(e) => is_unknown(name@) && e.is_unknown_section(name@),
            },
    {
        if str_eq(name, "core") {
            Ok(PackSection::Core)
        } else if str_eq(name, "cards") {
            Ok(PackSection::Cards)
        } else if str_eq(name, "evals") {
            Ok(PackSection::Evals)
        } else if str_eq(name, "nn") {
            Ok(PackSection::Nn)
        } else if str_eq(name, "state") {
            Ok(PackSection::State)
        } else if str_eq(name, "logs") {
            Ok(PackSection::Logs)
        } else if str_eq(name, "hub_cache") {
            Ok(PackSection::HubCache)
        } else if str_eq(name, "types") {
            Ok(PackSection::Types)
        } else {
            Err(
                PackProfileError::UnknownSection {
                    name: name.to_owned(),
                    known: "core, cards, evals, nn, state, logs, hub_cache, types".to_owned(),
                },
            )
        }
    }

    /// Whether the section is selected when nothing is asked for.
    pub fn on_by_default(&self) -> (r: bool)
        ensures
            r == self.by_default(),
    {
        match self {
            PackSection::Core | PackSection::Cards | PackSection::Evals => true,
            _ => false,
        }
    }

    /// Whether the section is selected by `all`.
    pub fn in_all(&self) -> (r: bool)
        ensures
            r == self.by_all(),
    {
        match self {
            PackSection::Logs | PackSection::HubCache | PackSection::Types => false,
            _ => true,
        }
    }

    /// The name of the section's directory below the application directory;
    /// `core` spans several and has none.
    pub fn dir_name(&self) -> (r: Option<&'static str>)
        ensures
            r is None <==> *self == PackSection::Core,
            r matches Some(d) ==> d@ == self.name_view(),
    {
        match self {
            PackSection::Core => None,
            _ => Some(self.as_str()),
        }
    }

    /// Every section, in the listing order.
    pub fn all() -> (r: [PackSection; 8])
        ensures
            r@ == all_sections(),
    {
        let r = [
            PackSection::Core,
            PackSection::Cards,
            PackSection::Evals,
            PackSection::Nn,
            PackSection::State,
            PackSection::Logs,
            PackSection::HubCache,
            PackSection::Types,
        ];
        assert(r@ =~= all_sections());
        r
    }

    /// The section's place in the listing order.
    fn index(&self) -> (r: usize)
        ensures
            r == self.rank(),
    {
        match self {
            PackSection::Core => 0,
            PackSection::Cards => 1,
            PackSection::Evals => 2,
            PackSection::Nn => 3,
            PackSection::State => 4,
            PackSection::Logs => 5,
            PackSection::HubCache => 6,
            PackSection::Types => 7,
        }
    }
}

impl PackProfileError {
    /// The refusal of the unknown name `name`, with the list of known names.
    pub open spec fn is_unknown_section(self, name: Seq<char>) -> bool {
        match self {
            PackProfileError::UnknownSection { name: n, known } => n@ == name && known@
                == "core, cards, evals, nn, state, logs, hub_cache, types"@,
            _ => false,
        }
    }

    /// The text that `message` spells.
    pub open spec fn message_view(self) -> Seq<char> {
        match self {
            PackProfileError::UnknownSection { name, known } => "unknown section '"@ + name@
                + "' (known sections: "@ + known@ + ")"@,
            PackProfileError::CoreExcluded =>
                "section 'core' cannot be excluded: a pack without it has no profile to unpack from"@,
            PackProfileError::UnsupportedFormatVersion { path, found, supported } =>
                "pack profile at "@ + path@ + " declares format_version "@ + decimal(found as nat)
                + ", but this build supports up to "@ + decimal(supported as nat)
                + ": upgrade algocline to unpack it"@,
        }
    }

    /// The text shown to the caller.
    pub fn message(&self) -> (r: String)
        ensures
            r@ == self.message_view(),
    {
        match self {
            PackProfileError::UnknownSection { name, known } => {
                let mut out = "unknown section '".to_owned();
                out.append(name.as_str());
                out.append("' (known sections: ");
                out.append(known.as_str());
                out.append(")");
                out
            },
            PackProfileError::CoreExcluded =>
                "section 'core' cannot be excluded: a pack without it has no profile to unpack from".to_owned(),
            PackProfileError::UnsupportedFormatVersion { path, found, supported } => {
                let mut out = "pack profile at ".to_owned();
                out.append(path.as_str());
                out.append(" declares format_version ");
                out.append(decimal_of(*found as u64).as_str());
                out.append(", but this build supports up to ");
                out.append(decimal_of(*supported as u64).as_str());
                out.append(": upgrade algocline to unpack it");
                out
            },
        }
    }
}

/// No section has the name `name`.
pub open spec fn is_unknown(name: Seq<char>) -> bool {
    forall|s: PackSection| #[trigger] s.name_view() != name
}

/// Two sections with the same name are the same section.
pub proof fn lemma_names_distinct(a: PackSection, b: PackSection)
    requires
        a.name_view() == b.name_view(),
    ensures
        a == b,
{
    reveal_strlit("core");
    reveal_strlit("cards");
    reveal_strlit("evals");
    reveal_strlit("nn");
    reveal_strlit("state");
    reveal_strlit("logs");
    reveal_strlit("hub_cache");
    reveal_strlit("types");
    let x = a.name_view();
    let y = b.name_view();
    assert(x.len() == y.len());
    assert(x[0] == y[0]);
    assert(x[1] == y[1]);
}

// ─── Sets of sections ───────────────────────────────────────────

/// A set of sections.
#[derive(Debug)]
pub struct SectionSet {
    has: [bool; 8],
}

impl View for SectionSet {
    type V = Set<PackSection>;

    closed spec fn view(&self) -> Set<PackSection> {
        Set::new(|s: PackSection| self.has@[s.rank()])
    }
}

impl SectionSet {
    /// The empty set.
    pub fn new() -> (r: SectionSet)
        ensures
            r@ == Set::<PackSection>::empty(),
    {
        let r = SectionSet { has: [false, false, false, false, false, false, false, false] };
        assert(r@ =~= Set::<PackSection>::empty());
        r
    }

    /// Puts `s` in.
    pub fn insert(&mut self, s: PackSection)
        ensures
            final(self)@ == old(self)@.insert(s),
    {
        let i: usize = s.index();
        self.has[i] = true;
        proof {
            lemma_rank_injective();
        }
        assert(self@ =~= old(self)@.insert(s));
    }

    /// Takes `s` out.
    pub fn remove(&mut self, s: PackSection)
        ensures
            final(self)@ == old(self)@.remove(s),
    {
        let i: usize = s.index();
        self.has[i] = false;
        proof {
            lemma_rank_injective();
        }
        assert(self@ =~= old(self)@.remove(s));
    }

    /// Whether `s` is in the set.
    pub fn contains(&self, s: &PackSection) -> (r: bool)
        ensures
            r == self@.contains(*s),
    {
        let i: usize = s.index();
        self.has[i]
    }

    /// The members, in the listing order.
    pub fn to_vec(&self) -> (r: Vec<PackSection>)
        ensures
            r@ == listed(self@),
    {
        let all = PackSection::all();
        let mut out: Vec<PackSection> = Vec::new();
        let mut i: usize = 0;
        let ghost p = member_of(self@);
        proof {
            reveal(Seq::filter);
            assert(all@.take(0).filter(p) =~= Seq::<PackSection>::empty());
        }
        while i < 8
            invariant
                i <= 8,
                all@ == all_sections(),
                p == member_of(self@),
                out@ == all@.take(i as int).filter(p),
            decreases 8 - i,
        {
            proof {
                reveal(Seq::filter);
                assert(all@.take(i + 1).drop_last() =~= all@.take(i as int));
                assert(all@.take(i + 1).last() == all@[i as int]);
            }
            if self.contains(&all[i]) {
                out.push(all[i]);
            }
            i = i + 1;
        }
        assert(all@.take(8) =~= all@);
        out
    }
}

/// Selects the members of `s`.
pub open spec fn member_of(s: Set<PackSection>) -> spec_fn(PackSection) -> bool {
    |x: PackSection| s.contains(x)
}

/// The members of `s`, in the listing order.
pub open spec fn listed(s: Set<PackSection>) -> Seq<PackSection> {
    all_sections().filter(member_of(s))
}

proof fn lemma_rank_injective()
    ensures
        forall|a: PackSection, b: PackSection| #[trigger] a.rank() == #[trigger] b.rank() ==> a == b,
{
}

// ─── Selection ──────────────────────────────────────────────────

/// `s` is named in `names`.
pub open spec fn named_in(names: Seq<Seq<char>>, s: PackSection) -> bool {
    names.contains(s.name_view())
}

/// `i` is the first place of `names` whose name is unknown.
pub open spec fn first_unknown(names: Seq<Seq<char>>, i: int) -> bool {
    &&& 0 <= i < names.len()
    &&& is_unknown(names[i])
    &&& forall|j: int| 0 <= j < i ==> !is_unknown(#[trigger] names[j])
}

/// Every name of `names` names a section.
pub open spec fn all_known(names: Seq<Seq<char>>) -> bool {
    forall|j: int| 0 <= j < names.len() ==> !is_unknown(#[trigger] names[j])
}

/// A name that cannot be excluded from a pack: unknown, or `core`.
pub open spec fn not_excludable(name: Seq<char>) -> bool {
    is_unknown(name) || name == PackSection::Core.name_view()
}

/// `i` is the first place of `names` whose name cannot be excluded.
pub open spec fn first_not_excludable(names: Seq<Seq<char>>, i: int) -> bool {
    &&& 0 <= i < names.len()
    &&& not_excludable(names[i])
    &&& forall|j: int| 0 <= j < i ==> !not_excludable(#[trigger] names[j])
}

/// The sections of a pack: those of `all` or the defaults and the included
/// ones, without the excluded ones; `core` always.
pub open spec fn packed_sections(
    all: bool,
    include_names: Seq<Seq<char>>,
    exclude_names: Seq<Seq<char>>,
) -> Set<PackSection> {
    Set::new(
        |s: PackSection|
            s == PackSection::Core || ((if all {
                s.by_all()
            } else {
                s.by_default()
            }) || named_in(include_names, s)) && !named_in(exclude_names, s),
    )
}

/// Every included name is known, and every excluded one can be excluded.
pub open spec fn packing_accepted(inc: Seq<Seq<char>>, exc: Seq<Seq<char>>) -> bool {
    all_known(inc) && forall|j: int| 0 <= j < exc.len() ==> !not_excludable(#[trigger] exc[j])
}

/// `e` refuses the first included name that is unknown or, where there is
/// none, the first excluded name that cannot be excluded.
pub open spec fn packing_refused(
    inc: Seq<Seq<char>>,
    exc: Seq<Seq<char>>,
    e: PackProfileError,
) -> bool {
    ||| exists|i: int| #[trigger] first_unknown(inc, i) && e.is_unknown_section(inc[i])
    ||| all_known(inc) && exists|i: int| #[trigger]
        first_not_excludable(exc, i) && (if is_unknown(exc[i]) {
            e.is_unknown_section(exc[i])
        } else {
            e is CoreExcluded
        })
}

/// The sections to pack, from the caller's three knobs.
pub fn resolve_sections(
    all: bool,
    include_names: &[String],
    exclude_names: &[String],
) -> (r: Result<SectionSet, PackProfileError>)
    ensures
        ({
            let inc = texts(include_names@);
            let exc = texts(exclude_names@);
            match r {
                Ok(s) => packing_accepted(inc, exc) && s@ == packed_sections(all, inc, exc),
                Err(e) => packing_refused(inc, exc, e),
            }
        }),
{
    let ghost inc = texts(include_names@);
    let ghost exc = texts(exclude_names@);
    let secs = PackSection::all();
    let mut selected = SectionSet::new();
    let mut i: usize = 0;
    while i < 8
        invariant
            i <= 8,
            secs@ == all_sections(),
            forall|s: PackSection|
                #[trigger] selected@.contains(s) <==> s.rank() < i && (if all {
                    s.by_all()
                } else {
                    s.by_default()
                }),
        decreases 8 - i,
    {
        let s = secs[i];
        assert(s.rank() == i);
        let take = if all {
            s.in_all()
        } else {
            s.on_by_default()
        };
        if take {
            selected.insert(s);
        }
        i = i + 1;
    }
    let mut k: usize = 0;
    while k < include_names.len()
        invariant
            k <= include_names@.len(),
            inc == texts(include_names@),
            forall|j: int| 0 <= j < k ==> !is_unknown(#[trigger] inc[j]),
            forall|s: PackSection|
                #[trigger] selected@.contains(s) <==> (if all {
                    s.by_all()
                } else {
                    s.by_default()
                }) || named_in(inc.take(k as int), s),
        decreases include_names@.len() - k,
    {
        match PackSection::parse(include_names[k].as_str()) {
            Ok(s) => {
                proof {
                    assert(inc[k as int] == s.name_view());
                    lemma_named_in_step(inc, k as int, s);
                }
                selected.insert(s);
            },
            Err(e) => {
                assert(inc[k as int] == include_names@[k as int]@);
                assert(first_unknown(inc, k as int));
                return Err(e);
            },
        }
        k = k + 1;
    }
    assert(inc.take(k as int) =~= inc);
    assert(exc.take(0) =~= Seq::<Seq<char>>::empty());
    k = 0;
    while k < exclude_names.len()
        invariant
            k <= exclude_names@.len(),
            inc == texts(include_names@),
            exc == texts(exclude_names@),
            all_known(inc),
            forall|j: int| 0 <= j < k ==> !not_excludable(#[trigger] exc[j]),
            forall|s: PackSection|
                #[trigger] selected@.contains(s) <==> ((if all {
                    s.by_all()
                } else {
                    s.by_default()
                }) || named_in(inc, s)) && !named_in(exc.take(k as int), s),
        decreases exclude_names@.len() - k,
    {
        match PackSection::parse(exclude_names[k].as_str()) {
            Ok(s) => {
                assert(exc[k as int] == s.name_view());
                if s == PackSection::Core {
                    assert(first_not_excludable(exc, k as int));
                    return Err(PackProfileError::CoreExcluded);
                }
                proof {
                    if s.name_view() == PackSection::Core.name_view() {
                        lemma_names_distinct(s, PackSection::Core);
                    }
                    lemma_named_in_step(exc, k as int, s);
                }
                selected.remove(s);
            },
            Err(e) => {
                assert(exc[k as int] == exclude_names@[k as int]@);
                assert(first_not_excludable(exc, k as int));
                return Err(e);
            },
        }
        k = k + 1;
    }
    assert(exc.take(k as int) =~= exc);
    selected.insert(PackSection::Core);
    assert(selected@ =~= packed_sections(all, inc, exc));
    Ok(selected)
}

/// Reading one more name adds exactly the section that it names.
proof fn lemma_named_in_step(names: Seq<Seq<char>>, k: int, s: PackSection)
    requires
        0 <= k < names.len(),
        names[k] == s.name_view(),
    ensures
        forall|t: PackSection|
            #![trigger named_in(names.take(k + 1), t)]
            #![trigger named_in(names.take(k), t)]
            named_in(names.take(k + 1), t) <==> named_in(names.take(k), t) || t == s,
{
    let a = names.take(k);
    let b = names.take(k + 1);
    assert(b =~= a.push(names[k]));
    assert forall|t: PackSection|
        #![trigger named_in(b, t)]
        #![trigger named_in(a, t)]
        named_in(b, t) <==> named_in(a, t) || t == s by {
        if named_in(b, t) {
            let i = choose|i: int| 0 <= i < b.len() && b[i] == t.name_view();
            if i < k {
                assert(a[i] == t.name_view());
            } else {
                lemma_names_distinct(t, s);
            }
        }
        if named_in(a, t) {
            let i = choose|i: int| 0 <= i < a.len() && a[i] == t.name_view();
            assert(b[i] == t.name_view());
        }
        if t == s {
            assert(b[k] == t.name_view());
        }
    }
}

/// The sections to unpack: those that the pack carries and, where any are
/// included, the included ones of them, without the excluded ones; `core`
/// always.
pub open spec fn unpacked_sections(
    carried: Seq<PackSection>,
    include_names: Seq<Seq<char>>,
    exclude_names: Seq<Seq<char>>,
) -> Set<PackSection> {
    Set::new(
        |s: PackSection|
            s == PackSection::Core || carried.contains(s) && (include_names.len() == 0 || named_in(
                include_names,
                s,
            )) && !named_in(exclude_names, s),
    )
}

/// `e` refuses the first unknown name, of the included ones before the
/// excluded ones.
pub open spec fn unpacking_refused(
    inc: Seq<Seq<char>>,
    exc: Seq<Seq<char>>,
    e: PackProfileError,
) -> bool {
    ||| exists|i: int| #[trigger] first_unknown(inc, i) && e.is_unknown_section(inc[i])
    ||| all_known(inc) && exists|i: int| #[trigger]
        first_unknown(exc, i) && e.is_unknown_section(exc[i])
}

/// The sections to unpack, out of those that the pack carries.
pub fn select_sections(
    carried: &[PackSection],
    include_names: &[String],
    exclude_names: &[String],
) -> (r: Result<SectionSet, PackProfileError>)
    ensures
        ({
            let inc = texts(include_names@);
            let exc = texts(exclude_names@);
            match r {
                Ok(s) => all_known(inc) && all_known(exc) && s@ == unpacked_sections(
                    carried@,
                    inc,
                    exc,
                ),
                Err(e) => unpacking_refused(inc, exc, e),
            }
        }),
{
    let ghost inc = texts(include_names@);
    let ghost exc = texts(exclude_names@);
    let mut held = SectionSet::new();
    let mut i: usize = 0;
    while i < carried.len()
        invariant
            i <= carried@.len(),
            forall|s: PackSection| held@.contains(s) <==> carried@.take(i as int).contains(s),
        decreases carried@.len() - i,
    {
        proof {
            let a = carried@.take(i as int);
            let b = carried@.take(i + 1);
            assert(b =~= a.push(carried@[i as int]));
            assert forall|s: PackSection| b.contains(s) <==> a.contains(s) || s
                == carried@[i as int] by {
                if a.contains(s) {
                    let j = choose|j: int| 0 <= j < a.len() && a[j] == s;
                    assert(b[j] == s);
                }
                if s == carried@[i as int] {
                    assert(b[i as int] == s);
                }
            }
        }
        held.insert(carried[i]);
        i = i + 1;
    }
    assert(carried@.take(i as int) =~= carried@);
    let mut selected = SectionSet::new();
    let mut k: usize = 0;
    if include_names.len() == 0 {
        selected = held;
        assert(all_known(inc));
    } else {
        while k < include_names.len()
            invariant
                k <= include_names@.len(),
                inc == texts(include_names@),
                forall|s: PackSection| held@.contains(s) <==> carried@.contains(s),
                forall|j: int| 0 <= j < k ==> !is_unknown(#[trigger] inc[j]),
                forall|s: PackSection|
                    #[trigger] selected@.contains(s) <==> carried@.contains(s) && named_in(
                        inc.take(k as int),
                        s,
                    ),
            decreases include_names@.len() - k,
        {
            match PackSection::parse(include_names[k].as_str()) {
                Ok(s) => {
                    proof {
                        assert(inc[k as int] == s.name_view());
                        lemma_named_in_step(inc, k as int, s);
                    }
                    if held.contains(&s) {
                        selected.insert(s);
                    }
                },
                Err(e) => {
                    assert(inc[k as int] == include_names@[k as int]@);
                    assert(first_unknown(inc, k as int));
                    return Err(e);
                },
            }
            k = k + 1;
        }
        assert(inc.take(k as int) =~= inc);
    }
    assert(forall|s: PackSection|
        selected@.contains(s) <==> carried@.contains(s) && (inc.len() == 0 || named_in(inc, s)));
    assert(exc.take(0) =~= Seq::<Seq<char>>::empty());
    k = 0;
    while k < exclude_names.len()
        invariant
            k <= exclude_names@.len(),
            inc == texts(include_names@),
            exc == texts(exclude_names@),
            all_known(inc),
            forall|j: int| 0 <= j < k ==> !is_unknown(#[trigger] exc[j]),
            forall|s: PackSection|
                #[trigger] selected@.contains(s) <==> carried@.contains(s) && (inc.len() == 0 || named_in(
                    inc,
                    s,
                )) && !named_in(exc.take(k as int), s),
        decreases exclude_names@.len() - k,
    {
        match PackSection::parse(exclude_names[k].as_str()) {
            Ok(s) => {
                proof {
                    assert(exc[k as int] == s.name_view());
                    lemma_named_in_step(exc, k as int, s);
                }
                selected.remove(s);
            },
            Err(e) => {
                assert(exc[k as int] == exclude_names@[k as int]@);
                assert(first_unknown(exc, k as int));
                return Err(e);
            },
        }
        k = k + 1;
    }
    assert(exc.take(k as int) =~= exc);
    selected.insert(PackSection::Core);
    assert(selected@ =~= unpacked_sections(carried@, inc, exc));
    Ok(selected)
}

/// Selects the sections other than `core` that are included and not excluded,
/// and that the pack does not carry.
pub open spec fn missing_from(
    carried: Seq<PackSection>,
    include_names: Seq<Seq<char>>,
    exclude_names: Seq<Seq<char>>,
) -> spec_fn(PackSection) -> bool {
    |s: PackSection|
        s != PackSection::Core && named_in(include_names, s) && !named_in(exclude_names, s)
            && !carried.contains(s)
}

/// Whether `s` is one of `sections`.
fn carries(sections: &[PackSection], s: PackSection) -> (r: bool)
    ensures
        r == sections@.contains(s),
{
    let mut i: usize = 0;
    while i < sections.len()
        invariant
            i <= sections@.len(),
            forall|j: int| 0 <= j < i ==> sections@[j] != s,
        decreases sections@.len() - i,
    {
        if sections[i] == s {
            return true;
        }
        i = i + 1;
    }
    false
}

/// The sections that are asked for by name and that the pack does not carry,
/// in the listing order.
pub fn missing_sections(
    carried: &[PackSection],
    include_names: &Vec<String>,
    exclude_names: &Vec<String>,
) -> (r: Vec<PackSection>)
    ensures
        r@ == all_sections().filter(
            missing_from(carried@, texts(include_names@), texts(exclude_names@)),
        ),
{
    let all = PackSection::all();
    let ghost p = missing_from(carried@, texts(include_names@), texts(exclude_names@));
    let mut out: Vec<PackSection> = Vec::new();
    let mut i: usize = 0;
    proof {
        reveal(Seq::filter);
        assert(all@.take(0).filter(p) =~= Seq::<PackSection>::empty());
    }
    while i < 8
        invariant
            i <= 8,
            all@ == all_sections(),
            p == missing_from(carried@, texts(include_names@), texts(exclude_names@)),
            out@ == all@.take(i as int).filter(p),
        decreases 8 - i,
    {
        proof {
            reveal(Seq::filter);
            assert(all@.take(i + 1).drop_last() =~= all@.take(i as int));
            assert(all@.take(i + 1).last() == all@[i as int]);
        }
        let s = all[i];
        if s != PackSection::Core && contains_name(include_names, s.as_str()) && !contains_name(
            exclude_names,
            s.as_str(),
        ) && !carries(carried, s) {
            out.push(s);
        }
        i = i + 1;
    }
    assert(all@.take(8) =~= all@);
    out
}

// ─── Laws ───────────────────────────────────────────────────────

/// A section that is asked for by name is unpacked, excluded, or missing from
/// the pack, and never two of these; `core` is always unpacked.
pub proof fn law_asked_is_unpacked_or_missing(
    carried: Seq<PackSection>,
    include_names: Seq<Seq<char>>,
    exclude_names: Seq<Seq<char>>,
    s: PackSection,
)
    requires
        s != PackSection::Core,
        named_in(include_names, s),
    ensures
        ({
            let unpacked = unpacked_sections(carried, include_names, exclude_names).contains(s);
            let missing = missing_from(carried, include_names, exclude_names)(s);
            let excluded = named_in(exclude_names, s);
            &&& unpacked || missing || excluded
            &&& !(unpacked && missing)
            &&& !(unpacked && excluded)
            &&& !(missing && excluded)
        }),
{
}

/// Whatever is asked for, a pack carries `core` and an unpack expands it.
pub proof fn law_core_always_selected(
    all: bool,
    carried: Seq<PackSection>,
    include_names: Seq<Seq<char>>,
    exclude_names: Seq<Seq<char>>,
)
    ensures
        packed_sections(all, include_names, exclude_names).contains(PackSection::Core),
        unpacked_sections(carried, include_names, exclude_names).contains(PackSection::Core),
{
}

/// An excluded section other than `core` is never selected, whatever else
/// asks for it.
pub proof fn law_exclude_wins(
    all: bool,
    carried: Seq<PackSection>,
    include_names: Seq<Seq<char>>,
    exclude_names: Seq<Seq<char>>,
    s: PackSection,
)
    requires
        s != PackSection::Core,
        named_in(exclude_names, s),
    ensures
        !packed_sections(all, include_names, exclude_names).contains(s),
        !unpacked_sections(carried, include_names, exclude_names).contains(s),
{
}

/// Logs, the hub cache and the type stubs are packed only where they are
/// included by name, also under `all`.
pub proof fn law_withheld_sections_need_include(
    all: bool,
    include_names: Seq<Seq<char>>,
    exclude_names: Seq<Seq<char>>,
    s: PackSection,
)
    requires
        s == PackSection::Logs || s == PackSection::HubCache || s == PackSection::Types,
        packed_sections(all, include_names, exclude_names).contains(s),
    ensures
        named_in(include_names, s),
{
}

/// `all` and the included names compose as a union: with nothing excluded,
/// `all` together with the three withheld names selects every section.
pub proof fn law_all_and_include_compose(include_names: Seq<Seq<char>>, s: PackSection)
    ensures
        packed_sections(true, include_names, Seq::empty()).contains(s) <==> s.by_all() || named_in(
            include_names,
            s,
        ),
{
}

/// What is unpacked, apart from `core`, is carried by the pack.
pub proof fn law_unpacked_is_carried(
    carried: Seq<PackSection>,
    include_names: Seq<Seq<char>>,
    exclude_names: Seq<Seq<char>>,
    s: PackSection,
)
    requires
        unpacked_sections(carried, include_names, exclude_names).contains(s),
    ensures
        s == PackSection::Core || carried.contains(s),
{
}

/// Where nothing is included or excluded by name, everything that the pack
/// carries is unpacked.
pub proof fn law_carried_is_unpacked(carried: Seq<PackSection>, s: PackSection)
    requires
        carried.contains(s),
    ensures
        unpacked_sections(carried, Seq::empty(), Seq::empty()).contains(s),
{
}

} // verus!
