//! What can be wrong with packages: links that lead nowhere, declared
//! directories that are gone, and directories that nothing records.

use vstd::prelude::*;
use crate::json::{views, Json, JsonView};
use crate::list::some_text;
use crate::logs::text_of;
use crate::names::{is_safe_name, is_safe_pkg_name};
use crate::paths::{join, joined_path};
use crate::source::{LockPackage, PackageDep, PackageSource};
use crate::text::{contains_name, opt_str, opt_text, quote, quoted, str_eq, texts};

verus! {

/// What stands at the place of a package.
#[derive(Debug)]
pub struct PlaceFact {
    pub is_symlink: bool,
    /// What stands there, or what it leads to, is there.
    pub alive: bool,
    /// Where the link leads, if it can be read.
    pub link_target: Option<String>,
}

/// A fault and what to do about it.
#[derive(Debug)]
pub struct Finding {
    pub name: String,
    pub kind: &'static str,
    pub scope: Option<&'static str>,
    pub reason: String,
    pub suggestion: String,
}

/// The content of a `Finding`.
#[verifier::ext_equal]
pub struct FindingView {
    pub name: Seq<char>,
    pub kind: Seq<char>,
    pub scope: Option<Seq<char>>,
    pub reason: Seq<char>,
    pub suggestion: Seq<char>,
}

impl View for Finding {
    type V = FindingView;

    open spec fn view(&self) -> FindingView {
        FindingView {
            name: self.name@,
            kind: self.kind@,
            scope: opt_str(self.scope),
            reason: self.reason@,
            suggestion: self.suggestion@,
        }
    }
}

/// The contents of findings.
pub open spec fn finding_views(v: Seq<Finding>) -> Seq<FindingView> {
    v.map_values(|f: Finding| f@)
}

/// A finding as a document.
pub open spec fn finding_json(f: FindingView) -> JsonView {
    JsonView::Object(
        seq![("name"@, JsonView::Text(f.name)), ("kind"@, JsonView::Text(f.kind))] + some_text(
            "scope"@,
            f.scope,
        ) + seq![
            ("reason"@, JsonView::Text(f.reason)),
            ("suggestion"@, JsonView::Text(f.suggestion)),
        ],
    )
}

impl Finding {
    /// The finding as a document.
    pub fn to_json(&self) -> (r: Json)
        ensures
            r@ == finding_json(self@),
    {
        let doc = Json::object().with("name", Json::text(self.name.as_str())).with(
            "kind",
            Json::text(self.kind),
        );
        let doc = match self.scope {
            Some(s) => doc.with("scope", Json::text(s)),
            None => doc,
        };
        let doc = doc.with("reason", Json::text(self.reason.as_str())).with(
            "suggestion",
            Json::text(self.suggestion.as_str()),
        );
        assert(doc@.members() =~= finding_json(self@).members());
        doc
    }
}

/// The findings as documents, added to `out`.
pub fn add_findings(out: &mut Vec<Json>, findings: &Vec<Finding>)
    ensures
        views(final(out)@) == views(old(out)@) + finding_views(findings@).map_values(
            |f: FindingView| finding_json(f),
        ),
{
    let ghost before = views(out@);
    let ghost n = out@.len();
    let mut i: usize = 0;
    while i < findings.len()
        invariant
            i <= findings@.len(),
            out@.len() == n + i,
            before.len() == n,
            forall|k: int| 0 <= k < n ==> (#[trigger] out@[k])@ == before[k],
            forall|k: int| n <= k < out@.len() ==> (#[trigger] out@[k])@ == finding_json(
                findings@[k - n]@,
            ),
        decreases findings@.len() - i,
    {
        out.push(findings[i].to_json());
        i = i + 1;
    }
    assert(views(out@) =~= before + finding_views(findings@).map_values(
        |f: FindingView| finding_json(f),
    ));
}

/// The package `name` is meant: it is the one that is asked for, or none is.
pub open spec fn is_meant(target: Option<Seq<char>>, name: Seq<char>) -> bool {
    target is None || target == Some(name)
}

/// The package `name` is meant.
pub fn meant(target: Option<&str>, name: &str) -> (r: bool)
    ensures
        r == is_meant(opt_str(target), name@),
{
    match target {
        None => true,
        Some(t) => str_eq(t, name),
    }
}

// ─── Links that lead nowhere ────────────────────────────────────

/// What is told of a link that leads to `target`, which is not there.
pub open spec fn dangling_reason(target: Option<Seq<char>>) -> Seq<char> {
    "symlink target missing: "@ + match target {
        Some(t) => t,
        None => "<unknown>"@,
    }
}

/// What is told of a link whose target is not there.
pub fn reason_for_dangling(target: &Option<String>) -> (r: String)
    ensures
        r@ == dangling_reason(opt_text(*target)),
{
    let mut r = "symlink target missing: ".to_owned();
    match target {
        Some(t) => r.append(t.as_str()),
        None => r.append("<unknown>"),
    }
    r
}

/// What to do about the link of the package `name`.
pub open spec fn dangling_advice(name: Seq<char>) -> Seq<char> {
    "alc_pkg_unlink("@ + quoted(name) + ") then alc_pkg_link with the new path"@
}

/// What to do about the link of the package `name`.
pub fn symlink_dangling_suggestion(name: &str) -> (r: String)
    ensures
        r@ == dangling_advice(name@),
{
    let q = quote(name);
    let mut r = "alc_pkg_unlink(".to_owned();
    r.append(q.as_str());
    r.append(") then alc_pkg_link with the new path");
    r
}

/// An entry of the packages directory.
#[derive(Debug)]
pub struct PlaceEntry {
    pub name: String,
    pub place: PlaceFact,
}

/// The finding about a link that leads nowhere and that no record names.
pub open spec fn unattached_finding(
    e: PlaceEntry,
    target: Option<Seq<char>>,
    recorded: Seq<Seq<char>>,
) -> Option<FindingView> {
    if is_meant(target, e.name@) && !recorded.contains(e.name@) && e.place.is_symlink
        && !e.place.alive {
        Some(
            FindingView {
                name: e.name@,
                kind: "symlink_dangling"@,
                scope: None,
                reason: dangling_reason(opt_text(e.place.link_target)),
                suggestion: dangling_advice(e.name@),
            },
        )
    } else {
        None
    }
}

/// The links of the packages directory that lead nowhere and that no record
/// names.
pub fn collect_unattached_dangling_symlinks(
    entries: &Vec<PlaceEntry>,
    target: Option<&str>,
    recorded: &Vec<String>,
) -> (r: Vec<Finding>)
    ensures
        finding_views(r@) == entries@.filter_map(
            |e: PlaceEntry| unattached_finding(e, opt_str(target), texts(recorded@)),
        ),
{
    let ghost f = |e: PlaceEntry| unattached_finding(e, opt_str(target), texts(recorded@));
    let mut out: Vec<Finding> = Vec::new();
    let mut i: usize = 0;
    proof {
        reveal(Seq::filter_map);
        assert(entries@.take(0).filter_map(f) =~= finding_views(out@));
    }
    while i < entries.len()
        invariant
            i <= entries@.len(),
            f == (|e: PlaceEntry| unattached_finding(e, opt_str(target), texts(recorded@))),
            finding_views(out@) == entries@.take(i as int).filter_map(f),
        decreases entries@.len() - i,
    {
        proof {
            entries@.lemma_filter_map_take_succ(f, i as int);
        }
        let ghost before = out@;
        let e = &entries[i];
        if meant(target, e.name.as_str()) && !contains_name(recorded, e.name.as_str())
            && e.place.is_symlink && !e.place.alive {
            let x = Finding {
                name: e.name.clone(),
                kind: "symlink_dangling",
                scope: None,
                reason: reason_for_dangling(&e.place.link_target),
                suggestion: symlink_dangling_suggestion(e.name.as_str()),
            };
            let ghost xv = x@;
            out.push(x);
            assert(finding_views(out@) =~= finding_views(before).push(xv));
        }
        assert(finding_views(out@) =~= entries@.take(i + 1).filter_map(f));
        i = i + 1;
    }
    assert(entries@.take(entries@.len() as int) =~= entries@);
    out
}

// ─── Declared directories that are gone ─────────────────────────

/// Which file declares a directory.
#[derive(Debug, Clone, Copy, PartialEq, Eq, Structural)]
pub enum ProjectPathSource {
    /// `alc.toml`, for the project.
    Toml,
    /// `alc.local.toml`, for the worktree.
    Local,
}

/// A declared directory whose presence is to be looked up.
#[derive(Debug)]
pub struct PathCheck {
    pub name: String,
    pub path: String,
}

/// Names with directories.
pub open spec fn check_views(v: Seq<PathCheck>) -> Seq<(Seq<char>, Seq<char>)> {
    v.map_values(|c: PathCheck| (c.name@, c.path@))
}

/// The directory of the declared package `d` of the project at `root`, if it is
/// meant and names one: as the lock has it, and else as it is declared.
pub open spec fn declared_check(
    root: Seq<char>,
    target: Option<Seq<char>>,
    locked: Map<Seq<char>, Seq<char>>,
    d: (String, PackageDep),
) -> Option<(Seq<char>, Seq<char>)> {
    match d.1 {
        PackageDep::Path { path, version: _ } => if is_meant(target, d.0@) {
            Some(
                (
                    d.0@,
                    joined_path(
                        root,
                        if locked.dom().contains(d.0@) {
                            locked[d.0@]
                        } else {
                            path@
                        },
                    ),
                ),
            )
        } else {
            None
        },
        _ => None,
    }
}

/// The directories that the lock records, by name; of two with one name the
/// later counts.
pub open spec fn locked_paths(packages: Seq<LockPackage>) -> Map<Seq<char>, Seq<char>>
    decreases packages.len(),
{
    if packages.len() == 0 {
        Map::empty()
    } else {
        let before = locked_paths(packages.drop_last());
        match packages.last().source {
            PackageSource::Path { path } => before.insert(packages.last().name@, path@),
            _ => before,
        }
    }
}

/// The place, counted from the end, of the directory of `name` in the lock.
fn find_locked_path<'a>(packages: &'a Vec<LockPackage>, name: &str) -> (r: Option<&'a String>)
    ensures
        match r {
            Some(p) => locked_paths(packages@).dom().contains(name@) && locked_paths(
                packages@,
            )[name@] == p@,
            None => !locked_paths(packages@).dom().contains(name@),
        },
{
    let mut i: usize = 0;
    let mut found: Option<&'a String> = None;
    assert(packages@.take(0) =~= Seq::empty());
    while i < packages.len()
        invariant
            i <= packages@.len(),
            match found {
                Some(p) => locked_paths(packages@.take(i as int)).dom().contains(name@)
                    && locked_paths(packages@.take(i as int))[name@] == p@,
                None => !locked_paths(packages@.take(i as int)).dom().contains(name@),
            },
        decreases packages@.len() - i,
    {
        assert(packages@.take(i + 1).drop_last() =~= packages@.take(i as int));
        if let PackageSource::Path { path } = &packages[i].source {
            if str_eq(packages[i].name.as_str(), name) {
                found = Some(path);
            }
        }
        i = i + 1;
    }
    assert(packages@.take(packages@.len() as int) =~= packages@);
    found
}

/// The declared directories to look up. The lock, where it is given, knows a
/// directory better than the declaration.
pub fn paths_to_check(
    root: &str,
    target: Option<&str>,
    lock: &Vec<LockPackage>,
    deps: &Vec<(String, PackageDep)>,
) -> (r: Vec<PathCheck>)
    ensures
        check_views(r@) == deps@.filter_map(
            |d: (String, PackageDep)|
                declared_check(root@, opt_str(target), locked_paths(lock@), d),
        ),
{
    let ghost f = |d: (String, PackageDep)|
        declared_check(root@, opt_str(target), locked_paths(lock@), d);
    let mut out: Vec<PathCheck> = Vec::new();
    let mut i: usize = 0;
    proof {
        reveal(Seq::filter_map);
        assert(deps@.take(0).filter_map(f) =~= check_views(out@));
    }
    while i < deps.len()
        invariant
            i <= deps@.len(),
            f == (|d: (String, PackageDep)|
                declared_check(root@, opt_str(target), locked_paths(lock@), d)),
            check_views(out@) == deps@.take(i as int).filter_map(f),
        decreases deps@.len() - i,
    {
        proof {
            deps@.lemma_filter_map_take_succ(f, i as int);
        }
        let ghost before = out@;
        if let PackageDep::Path { path, version: _ } = &deps[i].1 {
            let name = deps[i].0.as_str();
            if meant(target, name) {
                let raw = match find_locked_path(lock, name) {
                    Some(p) => p.as_str(),
                    None => path.as_str(),
                };
                let c = PathCheck { name: deps[i].0.clone(), path: join(root, raw) };
                let ghost cv = (c.name@, c.path@);
                out.push(c);
                assert(check_views(out@) =~= check_views(before).push(cv));
            }
        }
        assert(check_views(out@) =~= deps@.take(i + 1).filter_map(f));
        i = i + 1;
    }
    assert(deps@.take(deps@.len() as int) =~= deps@);
    out
}

/// The finding about a declared directory that is not there.
pub open spec fn gone_finding(
    name: Seq<char>,
    path: Seq<char>,
    source: ProjectPathSource,
) -> FindingView {
    FindingView {
        name,
        kind: "path_missing"@,
        scope: Some(
            if source == ProjectPathSource::Toml {
                "project"@
            } else {
                "variant"@
            },
        ),
        reason: "declared path does not exist: "@ + path,
        suggestion: if source == ProjectPathSource::Toml {
            "update or remove [packages."@ + name + "] in alc.toml"@
        } else {
            "alc_pkg_unlink("@ + quoted(name) + ") or update [packages."@ + name
                + "] in alc.local.toml"@
        },
    }
}

/// The findings about the first `n` of the declared directories.
pub open spec fn gone_findings(
    checks: Seq<PathCheck>,
    exists: Seq<bool>,
    source: ProjectPathSource,
    n: int,
) -> Seq<FindingView>
    decreases n,
{
    if n <= 0 {
        Seq::empty()
    } else {
        let before = gone_findings(checks, exists, source, n - 1);
        if exists[n - 1] {
            before
        } else {
            before.push(gone_finding(checks[n - 1].name@, checks[n - 1].path@, source))
        }
    }
}

/// The declared directories that are not there.
pub fn collect_path_missing(
    checks: &Vec<PathCheck>,
    exists: &Vec<bool>,
    source: ProjectPathSource,
) -> (r: Vec<Finding>)
    requires
        exists@.len() == checks@.len(),
    ensures
        finding_views(r@) == gone_findings(checks@, exists@, source, checks@.len() as int),
{
    let mut out: Vec<Finding> = Vec::new();
    let mut i: usize = 0;
    assert(finding_views(out@) =~= Seq::empty());
    while i < checks.len()
        invariant
            i <= checks@.len(),
            exists@.len() == checks@.len(),
            finding_views(out@) == gone_findings(checks@, exists@, source, i as int),
        decreases checks@.len() - i,
    {
        let ghost before = out@;
        if !exists[i] {
            let name = checks[i].name.as_str();
            let mut reason = "declared path does not exist: ".to_owned();
            reason.append(checks[i].path.as_str());
            let (scope, suggestion): (&'static str, String) = match source {
                ProjectPathSource::Toml => {
                    let mut s = "update or remove [packages.".to_owned();
                    s.append(name);
                    s.append("] in alc.toml");
                    ("project", s)
                },
                ProjectPathSource::Local => {
                    let q = quote(name);
                    let mut s = "alc_pkg_unlink(".to_owned();
                    s.append(q.as_str());
                    s.append(") or update [packages.");
                    s.append(name);
                    s.append("] in alc.local.toml");
                    ("variant", s)
                },
            };
            let x = Finding {
                name: checks[i].name.clone(),
                kind: "path_missing",
                scope: Some(scope),
                reason,
                suggestion,
            };
            let ghost xv = x@;
            assert(xv == gone_finding(checks@[i as int].name@, checks@[i as int].path@, source));
            out.push(x);
            assert(finding_views(out@) =~= finding_views(before).push(xv));
        }
        i = i + 1;
    }
    out
}

// ─── Directories that nothing records ───────────────────────────

/// What stands at an entry of the packages directory, without following a
/// link.
#[derive(Debug, Clone, Copy, PartialEq, Eq, Structural)]
pub enum EntryKind {
    Directory,
    /// A link whose target is there.
    LiveLink,
    /// Anything else, or what cannot be examined.
    Other,
}

/// An entry of the packages directory. The canonical path, or why there is
/// none, matters only of packages.
#[derive(Debug)]
pub struct StrayEntry {
    pub name: String,
    pub path: String,
    pub kind: EntryKind,
    pub has_init: bool,
    pub canonical: Result<String, String>,
}

/// The entry is a package of the kind `kind` that is meant and whose name no
/// registration holds.
pub open spec fn is_stray(
    e: StrayEntry,
    kind: EntryKind,
    registered: Seq<Seq<char>>,
    target: Option<Seq<char>>,
) -> bool {
    is_meant(target, e.name@) && !registered.contains(e.name@) && e.kind == kind && e.has_init
}

/// The canonical path of the entry is declared by the project.
pub open spec fn is_declared_place(e: StrayEntry, declared: Seq<Seq<char>>) -> bool {
    match e.canonical {
        Ok(p) => declared.contains(p@),
        Err(_) => false,
    }
}

/// The entry at `i` is the first that cannot be resolved.
pub open spec fn first_unresolved(
    entries: Seq<StrayEntry>,
    kind: EntryKind,
    registered: Seq<Seq<char>>,
    target: Option<Seq<char>>,
    i: int,
) -> bool {
    &&& 0 <= i < entries.len()
    &&& is_stray(entries[i], kind, registered, target) && entries[i].canonical is Err
    &&& forall|j: int|
        0 <= j < i ==> !(is_stray(#[trigger] entries[j], kind, registered, target)
            && entries[j].canonical is Err)
}

/// The entries of the kind `kind` that nothing records, or the error about the
/// first that cannot be resolved. Each is given by its place in `entries`.
pub open spec fn stray_places(
    entries: Seq<StrayEntry>,
    kind: EntryKind,
    registered: Seq<Seq<char>>,
    declared: Seq<Seq<char>>,
    target: Option<Seq<char>>,
    n: int,
) -> Seq<int>
    decreases n,
{
    if n <= 0 {
        Seq::empty()
    } else {
        let before = stray_places(entries, kind, registered, declared, target, n - 1);
        if is_stray(entries[n - 1], kind, registered, target) && !is_declared_place(
            entries[n - 1],
            declared,
        ) {
            before.push(n - 1)
        } else {
            before
        }
    }
}

/// The error about an entry that cannot be resolved.
pub open spec fn unresolved_text(e: StrayEntry) -> Seq<char> {
    "pkg: failed to canonicalize "@ + (if e.kind == EntryKind::LiveLink {
        "symlink target "@
    } else {
        "existing dir "@
    }) + e.path@ + ": "@ + match e.canonical {
        Ok(_) => Seq::empty(),
        Err(c) => c@,
    }
}

/// Places as numbers.
pub open spec fn places(v: Seq<usize>) -> Seq<int> {
    v.map_values(|i: usize| i as int)
}

/// The places of the packages of the kind `kind` that no registration and no
/// declared directory accounts for.
pub fn collect_strays(
    entries: &Vec<StrayEntry>,
    kind: EntryKind,
    registered: &Vec<String>,
    declared: &Vec<String>,
    target: Option<&str>,
) -> (r: Result<Vec<usize>, String>)
    ensures
        match r {
            Ok(v) => places(v@) == stray_places(
                entries@,
                kind,
                texts(registered@),
                texts(declared@),
                opt_str(target),
                entries@.len() as int,
            ) && forall|i: int|
                !(#[trigger] first_unresolved(
                    entries@,
                    kind,
                    texts(registered@),
                    opt_str(target),
                    i,
                )),
            Err(m) => exists|i: int| #[trigger]
                first_unresolved(entries@, kind, texts(registered@), opt_str(target), i) && m@
                    == unresolved_text(entries@[i]),
        },
{
    let mut out: Vec<usize> = Vec::new();
    let mut i: usize = 0;
    assert(places(out@) =~= Seq::empty());
    while i < entries.len()
        invariant
            i <= entries@.len(),
            places(out@) == stray_places(
                entries@,
                kind,
                texts(registered@),
                texts(declared@),
                opt_str(target),
                i as int,
            ),
            forall|j: int|
                0 <= j < i ==> !(is_stray(
                    #[trigger] entries@[j],
                    kind,
                    texts(registered@),
                    opt_str(target),
                ) && entries@[j].canonical is Err),
        decreases entries@.len() - i,
    {
        let e = &entries[i];
        let ghost before = out@;
        if meant(target, e.name.as_str()) && !contains_name(registered, e.name.as_str()) && e.kind
            == kind && e.has_init {
            match &e.canonical {
                Ok(p) => {
                    if !contains_name(declared, p.as_str()) {
                        out.push(i);
                        assert(places(out@) =~= places(before).push(i as int));
                    }
                },
                Err(c) => {
                    let mut m = "pkg: failed to canonicalize ".to_owned();
                    match e.kind {
                        EntryKind::LiveLink => m.append("symlink target "),
                        _ => m.append("existing dir "),
                    }
                    m.append(e.path.as_str());
                    m.append(": ");
                    m.append(c.as_str());
                    assert(first_unresolved(
                        entries@,
                        kind,
                        texts(registered@),
                        opt_str(target),
                        i as int,
                    ));
                    return Err(m);
                },
            }
        }
        i = i + 1;
    }
    Ok(out)
}

/// The four ways to deal with a directory that nothing records.
pub open spec fn stray_advice(path: Seq<char>) -> Seq<Seq<char>> {
    seq![
        "If this pkg was scaffolded outside `alc_pkg_scaffold` and you want it installed: `alc_pkg_install --force "@
            + path + "` (re-copy + register in installed.json)"@,
        "If you are actively iterating on this pkg in-tree: `alc_pkg_link "@ + path
            + "` (symlink-based, no copy)"@,
        "If this dir is stale/abandoned: `rm -rf "@ + path + "` to clean it up"@,
        "Note: source is unknown — git URL cannot be inferred from the bare directory. Re-record via one of the above."@,
    ]
}

/// The document about a directory that nothing records.
pub open spec fn unregistered_view(name: Seq<char>, path: Seq<char>) -> JsonView {
    JsonView::Object(
        seq![
            ("name"@, JsonView::Text(name)),
            ("kind"@, JsonView::Text("unregistered_pkg"@)),
            ("source"@, JsonView::Text("unknown"@)),
            (
                "reason"@,
                JsonView::Text(
                    "physical dir with init.lua exists but is not registered in installed.json, alc.toml, or alc.local.toml: "@
                        + path,
                ),
            ),
            ("suggestion"@, JsonView::Array(crate::json::text_views(stray_advice(path)))),
        ],
    )
}

/// The document about a directory that nothing records.
pub fn unregistered_json(name: &str, path: &str) -> (r: Json)
    ensures
        r@ == unregistered_view(name@, path@),
{
    let mut install =
        "If this pkg was scaffolded outside `alc_pkg_scaffold` and you want it installed: `alc_pkg_install --force ".to_owned();
    install.append(path);
    install.append("` (re-copy + register in installed.json)");
    let mut link = "If you are actively iterating on this pkg in-tree: `alc_pkg_link ".to_owned();
    link.append(path);
    link.append("` (symlink-based, no copy)");
    let mut clean = "If this dir is stale/abandoned: `rm -rf ".to_owned();
    clean.append(path);
    clean.append("` to clean it up");
    let mut advice: Vec<String> = Vec::new();
    advice.push(install);
    advice.push(link);
    advice.push(clean);
    advice.push(
        "Note: source is unknown — git URL cannot be inferred from the bare directory. Re-record via one of the above.".to_owned(),
    );
    assert(texts(advice@) =~= stray_advice(path@));
    let mut reason =
        "physical dir with init.lua exists but is not registered in installed.json, alc.toml, or alc.local.toml: ".to_owned();
    reason.append(path);
    let r = Json::object().with("name", Json::text(name)).with(
        "kind",
        Json::text("unregistered_pkg"),
    ).with("source", Json::text("unknown")).with("reason", Json::Text(reason)).with(
        "suggestion",
        Json::texts(&advice),
    );
    assert(r@.members() =~= unregistered_view(name@, path@).members());
    r
}

/// How a linked package that nothing records is reported.
#[derive(Debug, Clone, Copy, PartialEq, Eq, Structural)]
pub enum AliveBucket {
    /// It looks like a library but does not say so.
    UnmarkedLibrary,
    Unregistered,
}

/// The Lua code that asks a linked package what it is; none for a name that
/// cannot stand in code. `detect` is the code that fills in what the package
/// does not say.
pub fn make_kind_code(name: &str, detect: &str) -> (r: Option<String>)
    ensures
        match r {
            Some(code) => is_safe_name(name@) && code@ == "package.loaded[\""@ + name@
                + "\"] = nil\nlocal pkg = require(\""@ + name@
                + "\")\nlocal meta = pkg.meta or { name = \""@ + name@ + "\" }\n"@ + detect@
                + "\nreturn meta"@,
            None => !is_safe_name(name@),
        },
{
    if !is_safe_pkg_name(name) {
        return None;
    }
    let mut r = "package.loaded[\"".to_owned();
    r.append(name);
    r.append("\"] = nil\nlocal pkg = require(\"");
    r.append(name);
    r.append("\")\nlocal meta = pkg.meta or { name = \"");
    r.append(name);
    r.append("\" }\n");
    r.append(detect);
    r.append("\nreturn meta");
    Some(r)
}

/// How a linked package that nothing records is reported, from what it says of
/// itself; of a package with an unsafe name, or that did not answer, nothing
/// is known.
pub fn alive_bucket(meta: Option<&Json>) -> (r: AliveBucket)
    ensures
        r == (match meta {
            Some(m) => if text_of(m@, "type_source"@) == Some("auto_detected_library"@) {
                AliveBucket::UnmarkedLibrary
            } else {
                AliveBucket::Unregistered
            },
            None => AliveBucket::Unregistered,
        }),
{
    match meta {
        Some(m) => match m.get("type_source") {
            Some(Json::Text(t)) => if str_eq(t.as_str(), "auto_detected_library") {
                AliveBucket::UnmarkedLibrary
            } else {
                AliveBucket::Unregistered
            },
            _ => AliveBucket::Unregistered,
        },
        None => AliveBucket::Unregistered,
    }
}

/// The error where a package that is asked for turns up nowhere.
pub open spec fn not_found_text(target: Seq<char>) -> Seq<char> {
    "Package '"@ + target
        + "' not found in installed.json, ~/.algocline/packages/, alc.toml, or alc.local.toml"@
}

/// The error where a package that is asked for turns up nowhere.
pub fn not_found(target: &str) -> (r: String)
    ensures
        r@ == not_found_text(target@),
{
    let mut r = "Package '".to_owned();
    r.append(target);
    r.append("' not found in installed.json, ~/.algocline/packages/, alc.toml, or alc.local.toml");
    r
}

} // verus!
