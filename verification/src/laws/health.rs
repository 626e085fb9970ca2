//! What is found wrong with packages.

use vstd::prelude::*;
use crate::health::{
    declared_check, finding_json, gone_finding, gone_findings, is_meant, is_stray, locked_paths,
    stray_advice, stray_places, unattached_finding, unregistered_view, unresolved_text, EntryKind,
    FindingView, PathCheck, PlaceEntry, ProjectPathSource, StrayEntry,
};
use crate::json::{text_views, JsonView};
use crate::laws::doctor::numbers;
use crate::laws::tools::says;
use crate::paths::joined_path;
use crate::source::{LockPackage, PackageDep, PackageSource};

verus! {

/// Where a package is asked for only that one is meant, and else every one.
pub proof fn law_only_what_is_asked_for_is_meant(t: Seq<char>, name: Seq<char>)
    ensures
        is_meant(None, name),
        is_meant(Some(t), name) <==> t == name,
{
}

/// A link is told as dangling exactly where it leads nowhere, no record names it
/// and it is meant; the finding names it and where it led.
pub proof fn law_unattached_links_are_found(
    e: PlaceEntry,
    target: Option<Seq<char>>,
    recorded: Seq<Seq<char>>,
)
    ensures
        unattached_finding(e, target, recorded) is Some <==> e.place.is_symlink && !e.place.alive
            && !recorded.contains(e.name@) && (target is None || target == Some(e.name@)),
        unattached_finding(e, target, recorded) matches Some(f) ==> f.name == e.name@ && f.kind
            == "symlink_dangling"@ && f.scope is None && f.reason == "symlink target missing: "@ + (
        match e.place.link_target {
            Some(t) => t@,
            None => "<unknown>"@,
        }),
{
}

/// A declared directory is looked up exactly where it is meant; the lock's path
/// counts before the declared one, and either is taken below the project.
pub proof fn law_declared_directories_are_checked(
    root: Seq<char>,
    target: Option<Seq<char>>,
    locked: Map<Seq<char>, Seq<char>>,
    d: (String, PackageDep),
)
    ensures
        declared_check(root, target, locked, d) is Some <==> d.1 is Path && (target is None || target
            == Some(d.0@)),
        declared_check(root, target, locked, d) matches Some(c) ==> c.0 == d.0@,
        declared_check(root, target, locked, d) matches Some(c) ==> locked.dom().contains(d.0@)
            ==> c.1 == joined_path(root, locked[d.0@]),
        declared_check(root, target, locked, d) matches Some(c) ==> !locked.dom().contains(d.0@)
            ==> (d.1 matches PackageDep::Path { path, version } ==> c.1 == joined_path(
            root,
            path@,
        )),
{
}

/// The lock knows the directory of a package by its last entry that has one;
/// entries of other origins change nothing.
pub proof fn law_the_last_locked_directory_counts(v: Seq<LockPackage>, p: LockPackage)
    ensures
        locked_paths(Seq::empty()) == Map::<Seq<char>, Seq<char>>::empty(),
        match p.source {
            PackageSource::Path { path } => locked_paths(v.push(p)) == locked_paths(v).insert(
                p.name@,
                path@,
            ),
            _ => locked_paths(v.push(p)) == locked_paths(v),
        },
{
    assert(v.push(p).drop_last() =~= v);
}

/// Every declared directory that is not there is found, in the order of the
/// declarations, and no other.
pub proof fn law_every_gone_directory_is_found(
    checks: Seq<PathCheck>,
    exists: Seq<bool>,
    source: ProjectPathSource,
)
    requires
        exists.len() == checks.len(),
    ensures
        gone_findings(checks, exists, source, checks.len() as int) == numbers(
            checks.len() as int,
        ).filter(|i: int| !exists[i]).map_values(
            |i: int| gone_finding(checks[i].name@, checks[i].path@, source),
        ),
{
    lemma_gone_is_filter(checks, exists, source, checks.len() as int);
}

proof fn lemma_gone_is_filter(
    checks: Seq<PathCheck>,
    exists: Seq<bool>,
    source: ProjectPathSource,
    n: int,
)
    requires
        0 <= n,
    ensures
        gone_findings(checks, exists, source, n) == numbers(n).filter(
            |i: int| !exists[i],
        ).map_values(|i: int| gone_finding(checks[i].name@, checks[i].path@, source)),
    decreases n,
{
    reveal(Seq::filter);
    let p = |i: int| !exists[i];
    let f = |i: int| gone_finding(checks[i].name@, checks[i].path@, source);
    if n > 0 {
        lemma_gone_is_filter(checks, exists, source, n - 1);
        assert(numbers(n).drop_last() =~= numbers(n - 1));
        let before = numbers(n - 1).filter(p);
        assert(before.push(n - 1).map_values(f) =~= before.map_values(f).push(f(n - 1)));
    }
    assert(gone_findings(checks, exists, source, n) =~= numbers(n).filter(p).map_values(f));
}

/// A missing directory is told by its package and its path, as one of the project
/// or of the worktree by the file that declares it.
pub proof fn law_a_gone_directory_is_told_whole(
    name: Seq<char>,
    path: Seq<char>,
    source: ProjectPathSource,
)
    ensures
        ({
            let f = gone_finding(name, path, source);
            &&& f.name == name && f.kind == "path_missing"@
            &&& f.reason == "declared path does not exist: "@ + path
            &&& source == ProjectPathSource::Toml ==> f.scope == Some("project"@) && f.suggestion
                == "update or remove [packages."@ + name + "] in alc.toml"@
            &&& source == ProjectPathSource::Local ==> f.scope == Some("variant"@)
        }),
{
}

/// A finding is told with its name, its kind, its reason and what to do, and with
/// its scope exactly where it has one.
pub proof fn law_a_finding_is_told_whole(f: FindingView)
    ensures
        says(finding_json(f), "name"@, JsonView::Text(f.name)),
        says(finding_json(f), "kind"@, JsonView::Text(f.kind)),
        says(finding_json(f), "reason"@, JsonView::Text(f.reason)),
        says(finding_json(f), "suggestion"@, JsonView::Text(f.suggestion)),
        f.scope matches Some(s) ==> says(finding_json(f), "scope"@, JsonView::Text(s)),
        finding_json(f).members().len() == if f.scope is Some {
            5int
        } else {
            4
        },
{
    let ms = finding_json(f).members();
    assert(ms[0] == ("name"@, JsonView::Text(f.name)));
    assert(ms[1] == ("kind"@, JsonView::Text(f.kind)));
    if let Some(s) = f.scope {
        assert(ms[2] == ("scope"@, JsonView::Text(s)));
        assert(ms[3] == ("reason"@, JsonView::Text(f.reason)));
        assert(ms[4] == ("suggestion"@, JsonView::Text(f.suggestion)));
    } else {
        assert(ms[2] == ("reason"@, JsonView::Text(f.reason)));
        assert(ms[3] == ("suggestion"@, JsonView::Text(f.suggestion)));
    }
}

/// The entry is a package of the given kind that is meant, that no registration
/// names and whose place no declaration names.
pub open spec fn is_unaccounted(
    e: StrayEntry,
    kind: EntryKind,
    registered: Seq<Seq<char>>,
    declared: Seq<Seq<char>>,
    target: Option<Seq<char>>,
) -> bool {
    &&& e.kind == kind
    &&& e.has_init
    &&& target is None || target == Some(e.name@)
    &&& !registered.contains(e.name@)
    &&& !(e.canonical matches Ok(p) && declared.contains(p@))
}

/// Every package that nothing accounts for is found, in the order of the entries,
/// and no other.
pub proof fn law_every_stray_is_found(
    entries: Seq<StrayEntry>,
    kind: EntryKind,
    registered: Seq<Seq<char>>,
    declared: Seq<Seq<char>>,
    target: Option<Seq<char>>,
)
    ensures
        stray_places(entries, kind, registered, declared, target, entries.len() as int) == numbers(
            entries.len() as int,
        ).filter(|i: int| is_unaccounted(entries[i], kind, registered, declared, target)),
{
    lemma_strays_are_filter(entries, kind, registered, declared, target, entries.len() as int);
}

proof fn lemma_strays_are_filter(
    entries: Seq<StrayEntry>,
    kind: EntryKind,
    registered: Seq<Seq<char>>,
    declared: Seq<Seq<char>>,
    target: Option<Seq<char>>,
    n: int,
)
    requires
        0 <= n,
    ensures
        stray_places(entries, kind, registered, declared, target, n) == numbers(n).filter(
            |i: int| is_unaccounted(entries[i], kind, registered, declared, target),
        ),
    decreases n,
{
    reveal(Seq::filter);
    let p = |i: int| is_unaccounted(entries[i], kind, registered, declared, target);
    if n > 0 {
        lemma_strays_are_filter(entries, kind, registered, declared, target, n - 1);
        assert(numbers(n).drop_last() =~= numbers(n - 1));
    }
    assert(stray_places(entries, kind, registered, declared, target, n) =~= numbers(n).filter(p));
}

/// An entry matters exactly where it is a package of the kind that is looked for,
/// is meant and is not registered; only then can it fail to resolve.
pub proof fn law_what_may_be_stray(
    e: StrayEntry,
    kind: EntryKind,
    registered: Seq<Seq<char>>,
    target: Option<Seq<char>>,
)
    ensures
        is_stray(e, kind, registered, target) <==> e.kind == kind && e.has_init && (target is None
            || target == Some(e.name@)) && !registered.contains(e.name@),
        e.canonical matches Err(c) ==> unresolved_text(e) == "pkg: failed to canonicalize "@ + (
        if e.kind == EntryKind::LiveLink {
            "symlink target "@
        } else {
            "existing dir "@
        }) + e.path@ + ": "@ + c@,
{
}

/// A package that nothing records is told by its name and its path, with the four
/// ways to deal with it, three of which name the path.
pub proof fn law_a_stray_is_told_whole(name: Seq<char>, path: Seq<char>)
    ensures
        says(unregistered_view(name, path), "name"@, JsonView::Text(name)),
        says(unregistered_view(name, path), "kind"@, JsonView::Text("unregistered_pkg"@)),
        says(unregistered_view(name, path), "source"@, JsonView::Text("unknown"@)),
        says(
            unregistered_view(name, path),
            "suggestion"@,
            JsonView::Array(text_views(stray_advice(path))),
        ),
        stray_advice(path).len() == 4,
        forall|i: int|
            0 <= i < 3 ==> exists|a: Seq<char>, b: Seq<char>| #[trigger] stray_advice(path)[i] == a + path + b,
{
    let ms = unregistered_view(name, path).members();
    assert(ms[0] == ("name"@, JsonView::Text(name)));
    assert(ms[1] == ("kind"@, JsonView::Text("unregistered_pkg"@)));
    assert(ms[2] == ("source"@, JsonView::Text("unknown"@)));
    assert(ms[4] == ("suggestion"@, JsonView::Array(text_views(stray_advice(path)))));
    let v = stray_advice(path);
    assert(v[0]
        == "If this pkg was scaffolded outside `alc_pkg_scaffold` and you want it installed: `alc_pkg_install --force "@
        + path + "` (re-copy + register in installed.json)"@);
    assert(v[1] == "If you are actively iterating on this pkg in-tree: `alc_pkg_link "@ + path
        + "` (symlink-based, no copy)"@);
    assert(v[2] == "If this dir is stale/abandoned: `rm -rf "@ + path + "` to clean it up"@);
}

} // verus!
