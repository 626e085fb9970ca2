//! Removing packages from the project's files and from the record of installed
//! packages.

use vstd::prelude::*;
use crate::install::lock_views;
use crate::json::{Json, JsonView};
use crate::manifest::Manifest;
use crate::source::{LockPackage, LockView};
use crate::text::{opt_str, opt_text, str_eq};

verus! {

/// Where a package is removed from.
#[derive(Debug, Clone, Copy, PartialEq, Eq, Structural)]
pub enum RemoveScope {
    Project,
    Global,
    All,
}

/// The scope that is asked for; the project where none is.
pub fn parse_remove_scope(scope: Option<&str>) -> (r: Result<RemoveScope, String>)
    ensures
        match r {
            Ok(RemoveScope::Project) => scope is None || opt_str(scope) == Some("project"@),
            Ok(RemoveScope::Global) => opt_str(scope) == Some("global"@),
            Ok(RemoveScope::All) => opt_str(scope) == Some("all"@),
            Err(m) => match scope {
                Some(s) => s@ != "project"@ && s@ != "global"@ && s@ != "all"@ && m@
                    == "invalid scope '"@ + s@ + "': expected one of project, global, all"@,
                None => false,
            },
        },
{
    match scope {
        None => Ok(RemoveScope::Project),
        Some(s) => if str_eq(s, "project") {
            Ok(RemoveScope::Project)
        } else if str_eq(s, "global") {
            Ok(RemoveScope::Global)
        } else if str_eq(s, "all") {
            Ok(RemoveScope::All)
        } else {
            let mut m = "invalid scope '".to_owned();
            m.append(s);
            m.append("': expected one of project, global, all");
            Err(m)
        },
    }
}

/// The error where there is no project to remove the package from.
pub fn no_project(name: &str) -> (r: String)
    ensures
        r@ == "alc.toml not found: cannot remove '"@ + name@
            + "' without a project root. Provide project_root or run from a project directory."@,
{
    let mut r = "alc.toml not found: cannot remove '".to_owned();
    r.append(name);
    r.append("' without a project root. Provide project_root or run from a project directory.");
    r
}

/// The entry stays: it has another name, or another version than the one that
/// is asked for.
pub open spec fn stays(p: LockView, name: Seq<char>, version: Option<Seq<char>>) -> bool {
    p.name != name || (version is Some && p.version != version)
}

/// The lock entries that stay.
pub open spec fn remaining(v: Seq<LockView>, name: Seq<char>, version: Option<Seq<char>>) -> Seq<
    LockView,
> {
    v.filter(|p: LockView| stays(p, name, version))
}

/// The error where the lock at `path` does not hold the package.
pub open spec fn not_locked_text(name: Seq<char>, path: Seq<char>) -> Seq<char> {
    "Package '"@ + name + "' not found in alc.lock at "@ + path
}

/// Takes the package out of the lock, of all versions or of the given one. An
/// error where it is not there, or there is no lock.
pub fn remove_from_lock(
    lock: Option<Vec<LockPackage>>,
    name: &str,
    version: Option<&str>,
    lock_path: &str,
) -> (r: Result<Vec<LockPackage>, String>)
    ensures
        match (lock, r) {
            (Some(l), Ok(v)) => lock_views(v@) == remaining(
                lock_views(l@),
                name@,
                opt_str(version),
            ) && v@.len() != l@.len(),
            (Some(l), Err(m)) => remaining(lock_views(l@), name@, opt_str(version)).len()
                == l@.len() && m@ == not_locked_text(name@, lock_path@),
            (None, Ok(_)) => false,
            (None, Err(m)) => m@ == not_locked_text(name@, lock_path@),
        },
{
    let packages = match lock {
        Some(l) => l,
        None => {
            return Err(not_locked(name, lock_path));
        },
    };
    let ghost all = lock_views(packages@);
    let ghost ver = opt_str(version);
    let ghost p = |x: LockView| stays(x, name@, ver);
    let before: usize = packages.len();
    let mut out: Vec<LockPackage> = Vec::new();
    proof {
        reveal(Seq::filter);
        assert(all.take(0).filter(p) =~= lock_views(out@));
    }
    let ghost ps = packages@;
    for x in it: packages
        invariant
            it.seq() == ps,
            all == lock_views(ps),
            ver == opt_str(version),
            p == (|x: LockView| stays(x, name@, ver)),
            lock_views(out@) == all.take(it.index() as int).filter(p),
    {
        let ghost i = it.index() as int;
        let ghost o = out@;
        proof {
            reveal(Seq::filter);
            assert(all.take(i + 1).drop_last() =~= all.take(i));
            assert(all.take(i + 1).last() == all[i]);
            assert(all[i] == x@);
        }
        let keep = !str_eq(x.name.as_str(), name) || match version {
            None => false,
            Some(v) => match &x.version {
                Some(w) => !str_eq(w.as_str(), v),
                None => true,
            },
        };
        if keep {
            let ghost xv = x@;
            out.push(x);
            assert(lock_views(out@) =~= lock_views(o).push(xv));
        }
    }
    assert(all.take(all.len() as int) =~= all);
    assert(lock_views(out@).len() == out@.len());
    if out.len() == before {
        return Err(not_locked(name, lock_path));
    }
    Ok(out)
}

fn not_locked(name: &str, lock_path: &str) -> (r: String)
    ensures
        r@ == not_locked_text(name@, lock_path@),
{
    let mut m = "Package '".to_owned();
    m.append(name);
    m.append("' not found in alc.lock at ");
    m.append(lock_path);
    m
}

/// Takes the package out of the record of installed packages; an error where it
/// is not there.
pub fn remove_from_manifest(manifest: &mut Manifest, name: &str) -> (r: Result<(), String>)
    ensures
        match r {
            Ok(_) => old(manifest)@.dom().contains(name@) && final(manifest)@
                == old(manifest)@.remove(name@),
            Err(m) => !old(manifest)@.dom().contains(name@) && final(manifest)@
                == old(manifest)@ && m@ == "Package '"@ + name@
                + "' not found in global manifest (~/.algocline/installed.json)"@,
        },
{
    if !manifest.packages.contains(name) {
        let mut m = "Package '".to_owned();
        m.append(name);
        m.append("' not found in global manifest (~/.algocline/installed.json)");
        return Err(m);
    }
    manifest.record_remove(name);
    Ok(())
}

// ─── Answers ────────────────────────────────────────────────────

/// The answer after the package left the project's files.
pub fn project_answer(name: &str, alc_toml: &str, alc_lock: &str) -> (r: Json)
    ensures
        r@ == JsonView::Object(
            seq![
                ("removed"@, JsonView::Text(name@)),
                ("scope"@, JsonView::Text("project"@)),
                ("alc_toml"@, JsonView::Text(alc_toml@)),
                ("alc_lock"@, JsonView::Text(alc_lock@)),
            ],
        ),
{
    let r = Json::object().with("removed", Json::text(name)).with("scope", Json::text("project")).with(
        "alc_toml",
        Json::text(alc_toml),
    ).with("alc_lock", Json::text(alc_lock));
    assert(r@.members() =~= seq![
        ("removed"@, JsonView::Text(name@)),
        ("scope"@, JsonView::Text("project"@)),
        ("alc_toml"@, JsonView::Text(alc_toml@)),
        ("alc_lock"@, JsonView::Text(alc_lock@)),
    ]);
    r
}

/// The answer after the package left the record of installed packages.
pub fn global_answer(name: &str, installed_json: &str) -> (r: Json)
    ensures
        r@ == JsonView::Object(
            seq![
                ("removed"@, JsonView::Text(name@)),
                ("scope"@, JsonView::Text("global"@)),
                ("installed_json"@, JsonView::Text(installed_json@)),
            ],
        ),
{
    let r = Json::object().with("removed", Json::text(name)).with("scope", Json::text("global")).with(
        "installed_json",
        Json::text(installed_json),
    );
    assert(r@.members() =~= seq![
        ("removed"@, JsonView::Text(name@)),
        ("scope"@, JsonView::Text("global"@)),
        ("installed_json"@, JsonView::Text(installed_json@)),
    ]);
    r
}

/// A text, or null where there is none.
pub open spec fn note_view(o: Option<Seq<char>>) -> JsonView {
    match o {
        Some(t) => JsonView::Text(t),
        None => JsonView::Null,
    }
}

/// The answer of removing from both, each given with its error if it failed.
pub open spec fn both_view(
    name: Seq<char>,
    project_error: Option<Seq<char>>,
    global_error: Option<Seq<char>>,
) -> JsonView {
    JsonView::Object(
        seq![
            ("removed"@, JsonView::Text(name)),
            ("scope"@, JsonView::Text("all"@)),
            ("project_removed"@, JsonView::Bool(project_error is None)),
            ("global_removed"@, JsonView::Bool(global_error is None)),
            ("project_note"@, note_view(project_error)),
            ("global_note"@, note_view(global_error)),
        ],
    )
}

/// The answer of removing from both, each given with its error if it failed: a
/// failure only where both failed.
pub fn both_answer(
    name: &str,
    project_error: Option<String>,
    global_error: Option<String>,
) -> (r: Result<Json, String>)
    ensures
        match r {
            Ok(doc) => (project_error is None || global_error is None) && doc@ == both_view(
                name@,
                opt_text(project_error),
                opt_text(global_error),
            ),
            Err(m) => match (project_error, global_error) {
                (Some(p), Some(g)) => m@ == "Package '"@ + name@
                    + "' not found in any scope:\n  project: "@ + p@ + "\n  global: "@ + g@,
                _ => false,
            },
        },
{
    if let Some(p) = &project_error {
        if let Some(g) = &global_error {
            let mut m = "Package '".to_owned();
            m.append(name);
            m.append("' not found in any scope:\n  project: ");
            m.append(p.as_str());
            m.append("\n  global: ");
            m.append(g.as_str());
            return Err(m);
        }
    }
    let r = Json::object().with("removed", Json::text(name)).with("scope", Json::text("all")).with(
        "project_removed",
        Json::Bool(project_error.is_none()),
    ).with("global_removed", Json::Bool(global_error.is_none())).with(
        "project_note",
        Json::opt_text(&project_error),
    ).with("global_note", Json::opt_text(&global_error));
    assert(r@.members() =~= both_view(
        name@,
        opt_text(project_error),
        opt_text(global_error),
    ).members());
    Ok(r)
}

// ─── Laws ───────────────────────────────────────────────────────

/// Removing a package leaves the entries of all others, in their order.
pub proof fn law_others_stay_locked(
    v: Seq<LockView>,
    name: Seq<char>,
    version: Option<Seq<char>>,
    other: Seq<char>,
)
    requires
        other != name,
    ensures
        remaining(v, name, version).filter(|p: LockView| p.name == other) == v.filter(
            |p: LockView| p.name == other,
        ),
    decreases v.len(),
{
    let f = |p: LockView| stays(p, name, version);
    let g = |p: LockView| p.name == other;
    reveal(Seq::filter);
    if v.len() > 0 {
        let d = v.drop_last();
        law_others_stay_locked(d, name, version, other);
        let x = v.last();
        let r = d.filter(f);
        if f(x) {
            assert(r.push(x).drop_last() =~= r);
        }
    }
}

/// Where no version is asked for no entry of the package stays.
pub proof fn law_package_is_gone(v: Seq<LockView>, name: Seq<char>, i: int)
    requires
        0 <= i < remaining(v, name, None).len(),
    ensures
        remaining(v, name, None)[i].name != name,
{
    let f = |p: LockView| stays(p, name, None);
    v.lemma_filter_pred(f, i);
}

// ─── Removing without a scope ───────────────────────────────────

/// Where a package is removed from where the caller need not say.
#[derive(Debug)]
pub enum EffectiveScope {
    /// From the project at this root.
    Project(String),
    Global,
}

/// Where a package is removed from: globally where that is asked for or there
/// is no project; from the project where its root or the scope is given; and
/// else from the project if its lock holds the package.
pub fn determine_remove_scope(
    root_given: bool,
    scope: Option<&str>,
    root: Option<&str>,
    in_lock: bool,
) -> (r: EffectiveScope)
    ensures
        match r {
            EffectiveScope::Project(p) => opt_str(root) == Some(p@) && opt_str(scope) != Some(
                "global"@,
            ) && (root_given || opt_str(scope) == Some("project"@) || in_lock),
            EffectiveScope::Global => root is None || opt_str(scope) == Some("global"@) || (
            !root_given && opt_str(scope) != Some("project"@) && !in_lock),
        },
{
    let global = match scope {
        Some(s) => str_eq(s, "global"),
        None => false,
    };
    let project = match scope {
        Some(s) => str_eq(s, "project"),
        None => false,
    };
    match root {
        Some(p) => if !global && (root_given || project || in_lock) {
            EffectiveScope::Project(p.to_owned())
        } else {
            EffectiveScope::Global
        },
        None => EffectiveScope::Global,
    }
}

} // verus!
