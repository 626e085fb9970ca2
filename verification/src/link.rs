//! Linking directories as packages, and taking links away again.

use vstd::prelude::*;
use crate::install::{list_doc, names_to_declare, undeclared};
use crate::json::{member_views, Json, JsonView};
use crate::logs::outcome_view;
use crate::order::{is_stable_sort_of, sort_by_key, Keyed};
use crate::paths::{file_name, file_name_of, join, joined_path};
use crate::text::{opt_str, opt_text, str_eq, texts};

verus! {

/// Where a link is recorded.
#[derive(Debug, Clone, Copy, PartialEq, Eq, Structural)]
pub enum LinkScope {
    /// As a link in the packages directory.
    Global,
    /// As an entry of `alc.local.toml`.
    Variant,
}

/// The scope that is asked for; global where none is.
pub fn parse_scope(scope: Option<&str>) -> (r: Result<LinkScope, String>)
    ensures
        match r {
            Ok(LinkScope::Global) => scope is None || opt_str(scope) == Some("global"@),
            Ok(LinkScope::Variant) => opt_str(scope) == Some("variant"@),
            Err(m) => match scope {
                Some(s) => s@ != "global"@ && s@ != "variant"@ && m@ == "invalid scope: '"@ + s@
                    + "' (expected 'global' or 'variant')"@,
                None => false,
            },
        },
{
    match scope {
        None => Ok(LinkScope::Global),
        Some(s) => if str_eq(s, "global") {
            Ok(LinkScope::Global)
        } else if str_eq(s, "variant") {
            Ok(LinkScope::Variant)
        } else {
            let mut m = "invalid scope: '".to_owned();
            m.append(s);
            m.append("' (expected 'global' or 'variant')");
            Err(m)
        },
    }
}

/// The directory to link: `path`, taken from the working directory.
pub fn link_source(path: &str, cwd: &str) -> (r: String)
    ensures
        r@ == joined_path(cwd@, path@),
{
    join(cwd, path)
}

/// What a directory holds.
#[derive(Debug, Clone, Copy, PartialEq, Eq, Structural)]
pub enum PackageMode {
    /// One package at its root.
    Single,
    /// A package in some of its subdirectories.
    Collection,
}

impl PackageMode {
    pub open spec fn name_view(self) -> Seq<char> {
        match self {
            PackageMode::Single => "single"@,
            PackageMode::Collection => "collection"@,
        }
    }

    pub fn as_str(self) -> (r: &'static str)
        ensures
            r@ == self.name_view(),
    {
        match self {
            PackageMode::Single => "single",
            PackageMode::Collection => "collection",
        }
    }
}

/// An entry of the directory to link.
#[derive(Debug)]
pub struct LinkEntry {
    pub name: String,
    pub is_dir: bool,
    pub has_init: bool,
    /// Why the name cannot name a package, if it cannot.
    pub refused: Option<String>,
}

/// The entry holds a package.
pub open spec fn holds_package(e: LinkEntry) -> bool {
    e.is_dir && e.has_init
}

/// Some entry holds a package.
pub open spec fn some_package(entries: Seq<LinkEntry>) -> bool {
    exists|i: int| 0 <= i < entries.len() && holds_package(#[trigger] entries[i])
}

/// What the directory `path` holds.
pub fn detect_mode(path: &str, root_init: bool, entries: &Vec<LinkEntry>) -> (r: Result<
    PackageMode,
    String,
>)
    ensures
        match r {
            Ok(PackageMode::Single) => root_init,
            Ok(PackageMode::Collection) => !root_init && some_package(entries@),
            Err(m) => !root_init && !some_package(entries@) && m@ == "No init.lua found in "@ + path@
                + " or any of its subdirectories"@,
        },
{
    if root_init {
        return Ok(PackageMode::Single);
    }
    let mut i: usize = 0;
    while i < entries.len()
        invariant
            i <= entries@.len(),
            !root_init,
            forall|k: int| 0 <= k < i ==> !holds_package(#[trigger] entries@[k]),
        decreases entries@.len() - i,
    {
        if entries[i].is_dir && entries[i].has_init {
            assert(holds_package(entries@[i as int]));
            return Ok(PackageMode::Collection);
        }
        i = i + 1;
    }
    let mut m = "No init.lua found in ".to_owned();
    m.append(path);
    m.append(" or any of its subdirectories");
    Err(m)
}

/// The name under which the directory `source` is linked.
pub fn single_name(source: &str, name: Option<&str>) -> (r: Result<String, String>)
    ensures
        outcome_view(r) == match name {
            Some(n) => Ok::<Seq<char>, Seq<char>>(n@),
            None => match file_name_of(source@) {
                Some(n) => Ok(n),
                None => Err("Cannot determine package name from: "@ + source@),
            },
        },
{
    match name {
        Some(n) => Ok(n.to_owned()),
        None => match file_name(source) {
            Some(n) => Ok(n),
            None => {
                let mut m = "Cannot determine package name from: ".to_owned();
                m.append(source);
                Err(m)
            },
        },
    }
}

/// A package to link, with its directory.
#[derive(Debug)]
pub struct LinkTarget {
    pub name: String,
    pub path: String,
}

impl Keyed for LinkTarget {
    open spec fn key_view(&self) -> Seq<char> {
        self.name@
    }

    fn key(&self) -> (r: &str) {
        self.name.as_str()
    }
}

/// Names with directories.
pub open spec fn target_views(v: Seq<LinkTarget>) -> Seq<(Seq<char>, Seq<char>)> {
    v.map_values(|t: LinkTarget| (t.name@, t.path@))
}

/// The package of the entry `e` of `source`, if it holds one.
pub open spec fn target_of(source: Seq<char>, e: LinkEntry) -> Option<(Seq<char>, Seq<char>)> {
    if holds_package(e) {
        Some((e.name@, joined_path(source, e.name@)))
    } else {
        None
    }
}

/// The entry at `i` is the first package whose name is refused.
pub open spec fn first_refused(entries: Seq<LinkEntry>, i: int) -> bool {
    &&& 0 <= i < entries.len()
    &&& holds_package(entries[i]) && entries[i].refused is Some
    &&& forall|j: int|
        0 <= j < i ==> !(holds_package(#[trigger] entries[j]) && entries[j].refused is Some)
}

/// How far the entries can be linked: up to the first refused package.
pub open spec fn linkable(entries: Seq<LinkEntry>) -> Seq<LinkEntry> {
    if exists|i: int| first_refused(entries, i) {
        entries.take(choose|i: int| first_refused(entries, i))
    } else {
        entries
    }
}

/// Why no more can be linked, if a package is refused.
pub open spec fn refusal(entries: Seq<LinkEntry>) -> Option<Seq<char>> {
    if exists|i: int| first_refused(entries, i) {
        opt_text(entries[choose|i: int| first_refused(entries, i)].refused)
    } else {
        None
    }
}

/// The packages of a collection in the order of its entries, up to the first
/// whose name is refused, and why it is. An error where there is no package.
pub fn collect_targets(source: &str, entries: &Vec<LinkEntry>) -> (r: (
    Vec<LinkTarget>,
    Option<String>,
))
    ensures
        target_views(r.0@) == linkable(entries@).filter_map(
            |e: LinkEntry| target_of(source@, e),
        ),
        match r.1 {
            Some(m) => refusal(entries@) == Some(m@) || (refusal(entries@) is None
                && r.0@.len() == 0 && m@ == "No init.lua found in any subdirectory of: "@ + source@),
            None => refusal(entries@) is None && r.0@.len() > 0,
        },
{
    let ghost f = |e: LinkEntry| target_of(source@, e);
    let mut out: Vec<LinkTarget> = Vec::new();
    let mut i: usize = 0;
    proof {
        reveal(Seq::filter_map);
        assert(entries@.take(0).filter_map(f) =~= target_views(out@));
    }
    while i < entries.len()
        invariant
            i <= entries@.len(),
            f == (|e: LinkEntry| target_of(source@, e)),
            target_views(out@) == entries@.take(i as int).filter_map(f),
            forall|j: int|
                0 <= j < i ==> !(holds_package(#[trigger] entries@[j]) && entries@[j].refused
                    is Some),
        decreases entries@.len() - i,
    {
        proof {
            entries@.lemma_filter_map_take_succ(f, i as int);
        }
        let ghost before = out@;
        let e = &entries[i];
        if e.is_dir && e.has_init {
            if let Some(m) = &e.refused {
                proof {
                    assert(first_refused(entries@, i as int));
                    let c = choose|c: int| first_refused(entries@, c);
                    assert(c == i);
                }
                return (out, Some(m.clone()));
            }
            let t = LinkTarget { name: e.name.clone(), path: join(source, e.name.as_str()) };
            let ghost tv = (t.name@, t.path@);
            out.push(t);
            assert(target_views(out@) =~= target_views(before).push(tv));
        }
        assert(target_views(out@) =~= entries@.take(i + 1).filter_map(f));
        i = i + 1;
    }
    proof {
        assert(entries@.take(entries@.len() as int) =~= entries@);
        assert(!exists|c: int| first_refused(entries@, c));
    }
    if out.len() == 0 {
        let mut m = "No init.lua found in any subdirectory of: ".to_owned();
        m.append(source);
        return (out, Some(m));
    }
    (out, None)
}

/// The packages in the order of their names.
pub fn sort_targets(v: Vec<LinkTarget>) -> (r: Vec<LinkTarget>)
    ensures
        is_stable_sort_of(r@, v@),
{
    sort_by_key(v)
}

// ─── The place of a link ────────────────────────────────────────

/// What stands at a place, without following a link.
#[derive(Debug, Clone, Copy, PartialEq, Eq, Structural)]
pub enum DestFact {
    Absent,
    Symlink,
    Directory,
    Other,
}

/// What is taken away before the link is made.
#[derive(Debug, Clone, Copy, PartialEq, Eq, Structural)]
pub enum Clearing {
    Nothing,
    /// A link or a file.
    File,
    /// A directory with all that is in it.
    Tree,
}

/// What is taken away from `dest` before a link is made there. A link is always
/// replaced, a directory only where `force` is set.
pub fn clear_for_link(dest: &str, fact: DestFact, force: bool) -> (r: Result<Clearing, String>)
    ensures
        match r {
            Ok(Clearing::Nothing) => fact == DestFact::Absent,
            Ok(Clearing::File) => fact == DestFact::Symlink || fact == DestFact::Other,
            Ok(Clearing::Tree) => fact == DestFact::Directory && force,
            Err(m) => fact == DestFact::Directory && !force && m@ == "Destination '"@ + dest@
                + "' is a real directory. Use force=true to overwrite."@,
        },
{
    match fact {
        DestFact::Absent => Ok(Clearing::Nothing),
        DestFact::Symlink | DestFact::Other => Ok(Clearing::File),
        DestFact::Directory => if force {
            Ok(Clearing::Tree)
        } else {
            let mut m = "Destination '".to_owned();
            m.append(dest);
            m.append("' is a real directory. Use force=true to overwrite.");
            Err(m)
        },
    }
}

/// Whether the package `name` can be unlinked: only a link can, dangling or not.
pub fn check_unlink(name: &str, fact: DestFact) -> (r: Result<(), String>)
    ensures
        match r {
            Ok(_) => fact == DestFact::Symlink,
            Err(m) => fact != DestFact::Symlink && m@ == (if fact == DestFact::Absent {
                "Package '"@ + name@ + "' is not installed"@
            } else {
                "Package '"@ + name@
                    + "' is not a symlink. Use pkg_remove to remove installed packages."@
            }),
        },
{
    let mut m = "Package '".to_owned();
    m.append(name);
    match fact {
        DestFact::Symlink => {
            return Ok(());
        },
        DestFact::Absent => {
            m.append("' is not installed");
        },
        _ => {
            m.append("' is not a symlink. Use pkg_remove to remove installed packages.");
        },
    }
    Err(m)
}

// ─── Answers ────────────────────────────────────────────────────

/// The packages with their directories as a document.
pub open spec fn targets_view(v: Seq<(Seq<char>, Seq<char>)>) -> JsonView {
    JsonView::Object(
        v.map_values(|t: (Seq<char>, Seq<char>)| (t.0, JsonView::Text(t.1))),
    )
}

/// The answer after packages were linked.
pub open spec fn link_view(
    linked: Seq<Seq<char>>,
    mode: PackageMode,
    targets: Seq<(Seq<char>, Seq<char>)>,
    local_toml: Option<Seq<char>>,
) -> Seq<(Seq<char>, JsonView)> {
    let common = seq![
        ("linked"@, list_doc(linked)),
        ("mode"@, JsonView::Text(mode.name_view())),
        ("targets"@, targets_view(targets)),
    ];
    match local_toml {
        None => common + seq![("scope"@, JsonView::Text("global"@))],
        Some(p) => common + seq![
            ("scope"@, JsonView::Text("variant"@)),
            ("alc_local_toml"@, JsonView::Text(p)),
        ],
    }
}

fn targets_json(targets: &Vec<LinkTarget>) -> (r: Json)
    ensures
        r@ == targets_view(target_views(targets@)),
{
    let mut rows: Vec<(String, Json)> = Vec::new();
    let mut i: usize = 0;
    while i < targets.len()
        invariant
            i <= targets@.len(),
            rows@.len() == i,
            forall|k: int|
                0 <= k < i ==> (#[trigger] rows@[k]).0@ == targets@[k].name@ && rows@[k].1@
                    == JsonView::Text(targets@[k].path@),
        decreases targets@.len() - i,
    {
        rows.push((targets[i].name.clone(), Json::text(targets[i].path.as_str())));
        i = i + 1;
    }
    let ghost rv = rows@;
    let r = Json::object_of(rows);
    assert(member_views(rv) =~= targets_view(target_views(targets@)).members());
    r
}

/// The answer after packages were linked: globally, or in the `alc.local.toml`
/// at the given path.
pub fn link_answer(
    linked: &Vec<String>,
    mode: PackageMode,
    targets: &Vec<LinkTarget>,
    local_toml: Option<&str>,
) -> (r: Json)
    ensures
        r@ == JsonView::Object(
            link_view(texts(linked@), mode, target_views(targets@), opt_str(local_toml)),
        ),
{
    let r = Json::object().with("linked", Json::texts(linked)).with(
        "mode",
        Json::text(mode.as_str()),
    ).with("targets", targets_json(targets));
    let r = match local_toml {
        None => r.with("scope", Json::text("global")),
        Some(p) => r.with("scope", Json::text("variant")).with("alc_local_toml", Json::text(p)),
    };
    assert(r@.members() =~= link_view(
        texts(linked@),
        mode,
        target_views(targets@),
        opt_str(local_toml),
    ));
    r
}

/// The names of packages to link.
pub fn target_names(v: &Vec<LinkTarget>) -> (r: Vec<String>)
    ensures
        texts(r@) == v@.map_values(|t: LinkTarget| t.name@),
{
    let mut out: Vec<String> = Vec::new();
    let mut i: usize = 0;
    while i < v.len()
        invariant
            i <= v@.len(),
            out@.len() == i,
            forall|k: int| 0 <= k < i ==> (#[trigger] out@[k])@ == v@[k].name@,
        decreases v@.len() - i,
    {
        out.push(v[i].name.clone());
        i = i + 1;
    }
    assert(texts(out@) =~= v@.map_values(|t: LinkTarget| t.name@));
    out
}

/// The packages that `alc.local.toml` does not name yet: those that linking
/// adds to it.
pub fn variants_to_add(declared: &Vec<String>, targets: &Vec<LinkTarget>) -> (r: Vec<String>)
    ensures
        texts(r@) == undeclared(
            texts(declared@),
            targets@.map_values(|t: LinkTarget| t.name@),
        ),
{
    let names = target_names(targets);
    names_to_declare(declared, &names)
}

/// Linking a second time adds nothing.
pub proof fn law_linking_twice_adds_nothing(declared: Seq<Seq<char>>, names: Seq<Seq<char>>)
    ensures
        undeclared(declared + undeclared(declared, names), names) == Seq::<Seq<char>>::empty(),
{
    let added = undeclared(declared, names);
    lemma_all_declared(declared, names);
    lemma_nothing_undeclared(declared + added, names);
}

proof fn lemma_all_declared(declared: Seq<Seq<char>>, names: Seq<Seq<char>>)
    ensures
        forall|i: int|
            0 <= i < names.len() ==> (declared + undeclared(declared, names)).contains(
                #[trigger] names[i],
            ),
    decreases names.len(),
{
    if names.len() > 0 {
        let d = names.drop_last();
        lemma_all_declared(declared, d);
        let before = undeclared(declared, d);
        let all = declared + undeclared(declared, names);
        assert forall|i: int| 0 <= i < names.len() implies all.contains(#[trigger] names[i]) by {
            if i < d.len() {
                assert(d[i] == names[i]);
                assert((declared + before).contains(d[i]));
                let k = choose|k: int| 0 <= k < (declared + before).len() && (declared + before)[k]
                    == names[i];
                assert(all[k] == names[i]);
            } else if declared.contains(names[i]) {
                let k = choose|k: int| 0 <= k < declared.len() && declared[k] == names[i];
                assert(all[k] == names[i]);
            } else if before.contains(names[i]) {
                let k = choose|k: int| 0 <= k < before.len() && before[k] == names[i];
                assert(all[declared.len() + k] == names[i]);
            } else {
                assert(all[(declared.len() + before.len()) as int] == names[i]);
            }
        }
    }
}

proof fn lemma_nothing_undeclared(declared: Seq<Seq<char>>, names: Seq<Seq<char>>)
    requires
        forall|i: int| 0 <= i < names.len() ==> declared.contains(#[trigger] names[i]),
    ensures
        undeclared(declared, names) == Seq::<Seq<char>>::empty(),
    decreases names.len(),
{
    if names.len() > 0 {
        let d = names.drop_last();
        assert forall|i: int| 0 <= i < d.len() implies declared.contains(#[trigger] d[i]) by {
            assert(d[i] == names[i]);
        }
        lemma_nothing_undeclared(declared, d);
        assert(declared.contains(names[names.len() - 1]));
    }
}

/// The answer after a package was unlinked.
pub fn unlink_answer(name: &str) -> (r: Json)
    ensures
        r@ == JsonView::Object(seq![("unlinked"@, JsonView::Text(name@))]),
{
    let r = Json::object().with("unlinked", Json::text(name));
    assert(r@.members() =~= seq![("unlinked"@, JsonView::Text(name@))]);
    r
}

} // verus!
