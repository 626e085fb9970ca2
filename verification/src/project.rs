//! The root of a project, and how its files agree with each other.

use vstd::prelude::*;
use crate::name_map::{strictly_ascending, NameMap};
use crate::paths::{ancestors, list_ancestors};
use crate::text::{clone_names, contains_name, opt_text, texts};

verus! {

/// A path with whether it is a directory.
#[derive(Debug)]
pub struct Probe {
    pub path: String,
    pub is_dir: bool,
}

/// The path, if it is a directory.
pub open spec fn directory(p: Option<Probe>) -> Option<Seq<char>> {
    match p {
        Some(x) => if x.is_dir {
            Some(x.path@)
        } else {
            None
        },
        None => None,
    }
}

/// The path, if it is a directory and not empty.
pub open spec fn named_directory(p: Option<Probe>) -> Option<Seq<char>> {
    match directory(p) {
        Some(t) => if t.len() > 0 {
            Some(t)
        } else {
            None
        },
        None => None,
    }
}

/// The first of the paths, by priority: what the call names, what the session
/// is pinned to, what the environment names, and what was found above the
/// working directory. What is not a directory is passed over.
pub open spec fn chosen(
    explicit: Option<Probe>,
    pin: Option<Probe>,
    env: Option<Probe>,
    walked: Option<Seq<char>>,
) -> Option<Seq<char>> {
    match (directory(explicit), directory(pin), named_directory(env)) {
        (Some(p), _, _) => Some(p),
        (None, Some(p), _) => Some(p),
        (None, None, Some(p)) => Some(p),
        _ => walked,
    }
}

fn take_directory(p: &Option<Probe>) -> (r: Option<String>)
    ensures
        opt_text(r) == directory(*p),
{
    match p {
        Some(x) => if x.is_dir {
            Some(x.path.clone())
        } else {
            None
        },
        None => None,
    }
}

/// The root of the project, with a session that may be pinned to one. `walked`
/// is what was found above the working directory.
pub fn resolve_project_root_with_session(
    explicit: &Option<Probe>,
    pin: &Option<Probe>,
    env: &Option<Probe>,
    walked: Option<String>,
) -> (r: Option<String>)
    ensures
        opt_text(r) == chosen(*explicit, *pin, *env, opt_text(walked)),
{
    if let Some(p) = take_directory(explicit) {
        return Some(p);
    }
    if let Some(p) = take_directory(pin) {
        return Some(p);
    }
    if let Some(p) = take_directory(env) {
        if !p.as_str().is_empty() {
            return Some(p);
        }
    }
    walked
}

/// The root of the project where no session is pinned.
pub fn resolve_project_root(explicit: &Option<Probe>, env: &Option<Probe>, walked: Option<String>) -> (r:
    Option<String>)
    ensures
        opt_text(r) == chosen(*explicit, None, *env, opt_text(walked)),
{
    let none: Option<Probe> = None;
    resolve_project_root_with_session(explicit, &none, env, walked)
}

/// The first of `dirs` that holds an `alc.toml`.
pub open spec fn first_with_toml(dirs: Seq<Seq<char>>, has_toml: Seq<bool>, i: int) -> Option<
    Seq<char>,
>
    decreases dirs.len() - i,
{
    if i < 0 || i >= dirs.len() || i >= has_toml.len() {
        None
    } else if has_toml[i] {
        Some(dirs[i])
    } else {
        first_with_toml(dirs, has_toml, i + 1)
    }
}

/// The directories to look into for an `alc.toml`: `start` and those above it.
pub fn dirs_to_walk(start: &str) -> (r: Vec<String>)
    ensures
        texts(r@) == ancestors(start@),
{
    list_ancestors(start)
}

/// The innermost of `dirs`, which go from the inside out, that holds an
/// `alc.toml`.
pub fn walk_up_for_alc_toml(dirs: &Vec<String>, has_toml: &Vec<bool>) -> (r: Option<String>)
    ensures
        opt_text(r) == first_with_toml(texts(dirs@), has_toml@, 0),
{
    let mut i: usize = 0;
    while i < dirs.len() && i < has_toml.len()
        invariant
            i <= dirs@.len(),
            i <= has_toml@.len(),
            first_with_toml(texts(dirs@), has_toml@, 0) == first_with_toml(
                texts(dirs@),
                has_toml@,
                i as int,
            ),
        decreases dirs@.len() - i,
    {
        if has_toml[i] {
            assert(texts(dirs@)[i as int] == dirs@[i as int]@);
            return Some(dirs[i].clone());
        }
        i = i + 1;
    }
    None
}

/// What the call names stands over the session's pin, the pin over the
/// environment, the environment over the walk; what is no directory counts for
/// nothing.
pub proof fn law_priority(
    explicit: Option<Probe>,
    pin: Option<Probe>,
    env: Option<Probe>,
    walked: Option<Seq<char>>,
)
    ensures
        directory(explicit) is Some ==> chosen(explicit, pin, env, walked) == directory(explicit),
        directory(explicit) is None && directory(pin) is Some ==> chosen(
            explicit,
            pin,
            env,
            walked,
        ) == directory(pin),
        directory(explicit) is None && directory(pin) is None && named_directory(env) is Some
            ==> chosen(explicit, pin, env, walked) == named_directory(env),
        directory(explicit) is None && directory(pin) is None && named_directory(env) is None
            ==> chosen(explicit, pin, env, walked) == walked,
{
}

/// Where a directory holds an `alc.toml`, the walk finds one no further out.
pub proof fn law_walk_finds_the_innermost(dirs: Seq<Seq<char>>, has_toml: Seq<bool>, i: int, k: int)
    requires
        0 <= i <= k < dirs.len(),
        k < has_toml.len(),
        has_toml[k],
        forall|j: int| i <= j < k ==> !has_toml[j],
    ensures
        first_with_toml(dirs, has_toml, i) == Some(dirs[k]),
    decreases k - i,
{
    if i < k {
        law_walk_finds_the_innermost(dirs, has_toml, i + 1, k);
    }
}

// ─── Search paths ───────────────────────────────────────────────

/// The extra search paths of a run: those of the worktree over those of the
/// project.
pub fn merge_lib_paths(local: &Vec<String>, locked: &Vec<String>) -> (r: Vec<String>)
    ensures
        texts(r@) == texts(local@) + texts(locked@),
{
    let mut out = clone_names(local);
    let mut rest = clone_names(locked);
    let ghost a = out@;
    let ghost b = rest@;
    out.append(&mut rest);
    assert(texts(out@) =~= texts(a) + texts(b));
    out
}

// ─── Declared and locked packages ───────────────────────────────

/// The names of `a` that are not in `b`, each once, in ascending order.
pub fn names_only_in(a: &Vec<String>, b: &Vec<String>) -> (r: Vec<String>)
    ensures
        strictly_ascending(texts(r@)),
        forall|t: Seq<char>| #[trigger]
            texts(r@).contains(t) <==> texts(a@).contains(t) && !texts(b@).contains(t),
{
    let ghost ta = texts(a@);
    let mut found: NameMap<bool> = NameMap::new();
    let mut i: usize = 0;
    while i < a.len()
        invariant
            i <= a@.len(),
            ta == texts(a@),
            forall|t: Seq<char>| #[trigger]
                found@.dom().contains(t) <==> ta.take(i as int).contains(t) && !texts(b@).contains(
                    t,
                ),
        decreases a@.len() - i,
    {
        let ghost dom0 = found@.dom();
        let ghost x = ta[i as int];
        assert(x == a@[i as int]@);
        if !contains_name(b, a[i].as_str()) {
            found.insert(a[i].clone(), true);
        }
        proof {
            assert forall|t: Seq<char>| #[trigger] found@.dom().contains(t) <==> ta.take(
                i + 1,
            ).contains(t) && !texts(b@).contains(t) by {
                let p = ta.take(i as int);
                let q = ta.take(i + 1);
                assert(q =~= p.push(x));
                assert(dom0.contains(t) <==> p.contains(t) && !texts(b@).contains(t));
                if p.contains(t) {
                    let j = choose|j: int| 0 <= j < p.len() && p[j] == t;
                    assert(q[j] == t);
                }
                if t == x {
                    assert(q[i as int] == t);
                }
            }
        }
        i = i + 1;
    }
    assert(ta.take(a@.len() as int) =~= ta);
    let n: usize = found.len();
    let ghost keys = found.keys();
    let mut out: Vec<String> = Vec::new();
    let mut k: usize = 0;
    while k < n
        invariant
            k <= n,
            n == keys.len(),
            keys == found.keys(),
            out@.len() == k,
            forall|j: int| 0 <= j < k ==> (#[trigger] out@[j])@ == keys[j],
        decreases n - k,
    {
        let (name, _) = found.at(k);
        out.push(name.clone());
        k = k + 1;
    }
    assert(texts(out@) =~= keys);
    assert forall|t: Seq<char>| #[trigger] texts(out@).contains(t) <==> texts(a@).contains(t)
        && !texts(b@).contains(t) by {
        assert(found@.dom().contains(t) <==> keys.contains(t));
    }
    out
}

/// The warning about a package that is declared but not locked.
pub fn unlocked_declaration_warning(name: &str) -> (r: String)
    ensures
        r@ == "warning: '"@ + name@
            + "' is declared in alc.toml but missing from alc.lock. Run `alc_update` to sync."@,
{
    let mut r = "warning: '".to_owned();
    r.append(name);
    r.append("' is declared in alc.toml but missing from alc.lock. Run `alc_update` to sync.");
    r
}

/// The warning about a package that is locked but not declared.
pub fn undeclared_lock_warning(name: &str) -> (r: String)
    ensures
        r@ == "warning: '"@ + name@ + "' is in alc.lock but not declared in alc.toml."@,
{
    let mut r = "warning: '".to_owned();
    r.append(name);
    r.append("' is in alc.lock but not declared in alc.toml.");
    r
}

} // verus!
