//! Which sections are packed and unpacked.

use vstd::prelude::*;
use crate::sections::{
    all_known, all_sections, first_not_excludable, first_unknown, is_unknown, listed, member_of,
    missing_from, not_excludable, packed_sections, packing_accepted, packing_refused,
    unpacked_sections, unpacking_refused, PackProfileError, PackSection, FORMAT_VERSION,
};

verus! {

/// The names of the sections, in the order in which they are listed.
pub open spec fn section_names() -> Seq<Seq<char>> {
    seq![
        "core"@,
        "cards"@,
        "evals"@,
        "nn"@,
        "state"@,
        "logs"@,
        "hub_cache"@,
        "types"@,
    ]
}

/// The listing holds every section once, each at its rank and under its name.
pub proof fn law_every_section_is_listed_once(s: PackSection)
    ensures
        all_sections().len() == 8,
        0 <= s.rank() < 8,
        all_sections()[s.rank()] == s,
        section_names()[s.rank()] == s.name_view(),
        forall|i: int| 0 <= i < 8 ==> (#[trigger] all_sections()[i]).rank() == i,
        all_sections()[0] == PackSection::Core && all_sections()[1] == PackSection::Cards
            && all_sections()[2] == PackSection::Evals && all_sections()[3] == PackSection::Nn
            && all_sections()[4] == PackSection::State && all_sections()[5] == PackSection::Logs
            && all_sections()[6] == PackSection::HubCache && all_sections()[7]
            == PackSection::Types,
{
}

/// A name is unknown exactly where it is none of the listed ones.
pub proof fn law_known_names(name: Seq<char>)
    ensures
        is_unknown(name) <==> !section_names().contains(name),
{
    if section_names().contains(name) {
        let i = choose|i: int| 0 <= i < 8 && section_names()[i] == name;
        law_every_section_is_listed_once(all_sections()[i]);
        assert(all_sections()[i].name_view() == name);
    }
    if !is_unknown(name) {
        let s = choose|s: PackSection| #[trigger] s.name_view() == name;
        law_every_section_is_listed_once(s);
        assert(section_names()[s.rank()] == name);
    }
}

/// Which sections are packed: `core` always, and of the others those that are
/// asked for in any way and not excluded by name. Without `all` the cards and the
/// evaluations are asked for, with it the checkpoints and the state too.
pub proof fn law_packed_sections(
    all: bool,
    inc: Seq<Seq<char>>,
    exc: Seq<Seq<char>>,
    s: PackSection,
)
    ensures
        packed_sections(all, inc, exc).contains(s) <==> s == PackSection::Core || (!exc.contains(
            s.name_view(),
        ) && (inc.contains(s.name_view()) || s == PackSection::Cards || s == PackSection::Evals || (
        all && (s == PackSection::Nn || s == PackSection::State)))),
{
}

/// Which sections are unpacked: `core` always, and of the others those that the
/// pack carries and that are not excluded, all of them or the included ones.
pub proof fn law_unpacked_sections(
    carried: Seq<PackSection>,
    inc: Seq<Seq<char>>,
    exc: Seq<Seq<char>>,
    s: PackSection,
)
    ensures
        unpacked_sections(carried, inc, exc).contains(s) <==> s == PackSection::Core || (
        carried.contains(s) && !exc.contains(s.name_view()) && (inc.len() == 0 || inc.contains(
            s.name_view(),
        ))),
        missing_from(carried, inc, exc)(s) <==> s != PackSection::Core && inc.contains(s.name_view())
            && !exc.contains(s.name_view()) && !carried.contains(s),
{
}

/// A selection for packing is accepted exactly where every included name is known
/// and every excluded one is known and not `core`; else it is refused.
pub proof fn law_packing_is_accepted_or_refused(
    inc: Seq<Seq<char>>,
    exc: Seq<Seq<char>>,
    e: PackProfileError,
)
    ensures
        packing_accepted(inc, exc) <==> (forall|i: int|
            0 <= i < inc.len() ==> section_names().contains(#[trigger] inc[i])) && (forall|i: int|
            0 <= i < exc.len() ==> section_names().contains(#[trigger] exc[i]) && exc[i]
                != "core"@),
        packing_refused(inc, exc, e) ==> !packing_accepted(inc, exc),
        packing_refused(inc, exc, e) ==> (e is CoreExcluded ==> exc.contains("core"@)),
        packing_refused(inc, exc, e) ==> (e matches PackProfileError::UnknownSection { name, known }
            ==> !section_names().contains(name@) && (inc.contains(name@) || exc.contains(name@))),
        packing_refused(inc, exc, e) ==> e is CoreExcluded || e is UnknownSection,
{
    assert forall|n: Seq<char>| #[trigger] is_unknown(n) <==> !section_names().contains(n) by {
        law_known_names(n);
    }
    assert(all_known(inc) <==> forall|i: int|
        0 <= i < inc.len() ==> section_names().contains(#[trigger] inc[i])) by {
        if all_known(inc) {
            assert forall|i: int| 0 <= i < inc.len() implies section_names().contains(
                #[trigger] inc[i],
            ) by {
                assert(!is_unknown(inc[i]));
            }
        }
    }
    if packing_accepted(inc, exc) {
        assert forall|i: int| 0 <= i < exc.len() implies section_names().contains(#[trigger] exc[i])
            && exc[i] != "core"@ by {
            assert(!not_excludable(exc[i]));
        }
    } else if all_known(inc) {
        let j = choose|j: int| 0 <= j < exc.len() && not_excludable(#[trigger] exc[j]);
        assert(!(section_names().contains(exc[j]) && exc[j] != "core"@));
    }
}

/// A selection for unpacking is refused only for a name that no section has.
pub proof fn law_unpacking_is_refused_for_unknown_names(
    inc: Seq<Seq<char>>,
    exc: Seq<Seq<char>>,
    e: PackProfileError,
)
    requires
        unpacking_refused(inc, exc, e),
    ensures
        e matches PackProfileError::UnknownSection { name, known } && !section_names().contains(
            name@,
        ) && (inc.contains(name@) || exc.contains(name@)) && known@
            == "core, cards, evals, nn, state, logs, hub_cache, types"@,
{
    assert forall|n: Seq<char>| #[trigger] is_unknown(n) <==> !section_names().contains(n) by {
        law_known_names(n);
    }
}

/// The name can be excluded from a pack.
pub open spec fn may_be_excluded(name: Seq<char>) -> bool {
    section_names().contains(name) && name != "core"@
}

/// A refusal is about the first name that is at fault: of the included ones first,
/// and of the excluded ones where none of those is.
pub proof fn law_the_first_fault_is_told(
    inc: Seq<Seq<char>>,
    exc: Seq<Seq<char>>,
    e: PackProfileError,
)
    requires
        packing_refused(inc, exc, e),
    ensures
        e is CoreExcluded ==> all_listed(inc) && exists|i: int|
            0 <= i < exc.len() && #[trigger] exc[i] == "core"@ && forall|j: int|
                0 <= j < i ==> may_be_excluded(#[trigger] exc[j]),
        e matches PackProfileError::UnknownSection { name, known } ==> known@
            == "core, cards, evals, nn, state, logs, hub_cache, types"@ && ((exists|i: int|
            0 <= i < inc.len() && #[trigger] inc[i] == name@ && forall|j: int|
                0 <= j < i ==> section_names().contains(#[trigger] inc[j])) || (all_listed(inc)
            && exists|i: int|
            0 <= i < exc.len() && #[trigger] exc[i] == name@ && forall|j: int|
                0 <= j < i ==> may_be_excluded(#[trigger] exc[j]))),
{
    assert forall|n: Seq<char>| #[trigger] is_unknown(n) <==> !section_names().contains(n) by {
        law_known_names(n);
    }
    if exists|i: int| #[trigger] first_unknown(inc, i) && e.is_unknown_section(inc[i]) {
        let i = choose|i: int| #[trigger] first_unknown(inc, i) && e.is_unknown_section(inc[i]);
        assert forall|j: int| 0 <= j < i implies section_names().contains(#[trigger] inc[j]) by {
            assert(!is_unknown(inc[j]));
        }
        assert(inc[i] == e->UnknownSection_name@);
    } else {
        assert(all_listed(inc)) by {
            assert forall|j: int| 0 <= j < inc.len() implies section_names().contains(
                #[trigger] inc[j],
            ) by {
                assert(!is_unknown(inc[j]));
            }
        }
        let i = choose|i: int| #[trigger]
            first_not_excludable(exc, i) && (if is_unknown(exc[i]) {
                e.is_unknown_section(exc[i])
            } else {
                e is CoreExcluded
            });
        assert forall|j: int| 0 <= j < i implies may_be_excluded(#[trigger] exc[j]) by {
            assert(!not_excludable(exc[j]));
        }
        if is_unknown(exc[i]) {
            assert(exc[i] == e->UnknownSection_name@);
        } else {
            assert(exc[i] == "core"@);
        }
    }
}

/// Every name is that of a section.
pub open spec fn all_listed(names: Seq<Seq<char>>) -> bool {
    forall|j: int| 0 <= j < names.len() ==> section_names().contains(#[trigger] names[j])
}

/// The schema version that is written and understood.
pub proof fn law_the_schema_version()
    ensures
        FORMAT_VERSION == 1,
{
}

/// A set of sections lists exactly its members, in the order of their ranks.
pub proof fn law_sets_list_their_members(set: Set<PackSection>, s: PackSection)
    ensures
        listed(set).contains(s) <==> set.contains(s),
        forall|i: int, j: int|
            0 <= i < j < listed(set).len() ==> (#[trigger] listed(set)[i]).rank() < (
            #[trigger] listed(set)[j]).rank(),
{
    let p = member_of(set);
    let all = all_sections();
    if listed(set).contains(s) {
        let i = choose|i: int| 0 <= i < listed(set).len() && listed(set)[i] == s;
        all.lemma_filter_pred(p, i);
    }
    if set.contains(s) {
        law_every_section_is_listed_once(s);
        all.lemma_filter_contains(p, s.rank());
    }
    lemma_filter_keeps_ranks(all, p);
}

proof fn lemma_filter_keeps_ranks(all: Seq<PackSection>, p: spec_fn(PackSection) -> bool)
    requires
        forall|i: int, j: int|
            0 <= i < j < all.len() ==> (#[trigger] all[i]).rank() < (#[trigger] all[j]).rank(),
    ensures
        forall|i: int, j: int|
            0 <= i < j < all.filter(p).len() ==> (#[trigger] all.filter(p)[i]).rank() < (
            #[trigger] all.filter(p)[j]).rank(),
        forall|i: int|
            0 <= i < all.filter(p).len() ==> all.contains(#[trigger] all.filter(p)[i]),
    decreases all.len(),
{
    reveal(Seq::filter);
    if all.len() > 0 {
        let rest = all.drop_last();
        lemma_filter_keeps_ranks(rest, p);
        let before = rest.filter(p);
        assert forall|i: int| 0 <= i < before.len() implies (#[trigger] before[i]).rank()
            < all.last().rank() && all.contains(before[i]) by {
            assert(rest.contains(before[i]));
            let k = choose|k: int| 0 <= k < rest.len() && rest[k] == before[i];
            assert(all[k] == before[i]);
        }
        assert(all.contains(all.last()));
        let r = all.filter(p);
        assert forall|i: int| 0 <= i < r.len() implies all.contains(#[trigger] r[i]) by {
            if i < before.len() {
                assert(r[i] == before[i]);
            }
        }
        assert forall|i: int, j: int| 0 <= i < j < r.len() implies (#[trigger] r[i]).rank() < (
        #[trigger] r[j]).rank() by {
            assert(r[i] == before[i]);
            if j < before.len() {
                assert(r[j] == before[j]);
            }
        }
    }
}

} // verus!
