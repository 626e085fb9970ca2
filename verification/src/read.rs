//! Reading a package's code and finding its narrative.

use vstd::prelude::*;
use crate::json::{json_debug_text, Json, JsonView};
use crate::list::VariantFact;
use crate::names::{is_plain_pkg_name, is_plain_word};
use crate::paths::{join, joined_path};
use crate::text::{contains_text, occurs_in, opt_text, starts_with, str_eq};

verus! {

// ─── Code ───────────────────────────────────────────────────────

/// The variant at `i` is the first with the given name.
pub open spec fn first_variant(variants: Seq<VariantFact>, name: Seq<char>, i: int) -> bool {
    &&& 0 <= i < variants.len()
    &&& variants[i].name@ == name
    &&& forall|j: int| 0 <= j < i ==> (#[trigger] variants[j]).name@ != name
}

/// The `init.lua` of the variant with the given name, if there is one.
pub open spec fn variant_init(variants: Seq<VariantFact>, name: Seq<char>) -> Option<Seq<char>> {
    if exists|i: int| first_variant(variants, name, i) {
        Some(
            joined_path(
                variants[choose|i: int| first_variant(variants, name, i)].pkg_dir@,
                "init.lua"@,
            ),
        )
    } else {
        None
    }
}

/// Where the code of a package is read from.
#[derive(Debug)]
pub enum InitPath {
    /// From the worktree's variant.
    Variant(String),
    /// From the packages directory.
    Global(String),
}

/// Where the code of the package `name` is read from: a variant of the
/// worktree stands over the packages directory.
pub fn init_path(variants: &Vec<VariantFact>, packages_dir: &str, name: &str) -> (r: InitPath)
    ensures
        match r {
            InitPath::Variant(p) => variant_init(variants@, name@) == Some(p@),
            InitPath::Global(p) => variant_init(variants@, name@) is None && p@ == joined_path(
                joined_path(packages_dir@, name@),
                "init.lua"@,
            ),
        },
{
    let mut i: usize = 0;
    while i < variants.len()
        invariant
            i <= variants@.len(),
            forall|j: int| 0 <= j < i ==> (#[trigger] variants@[j]).name@ != name@,
        decreases variants@.len() - i,
    {
        if str_eq(variants[i].name.as_str(), name) {
            proof {
                assert(first_variant(variants@, name@, i as int));
                let c = choose|c: int| first_variant(variants@, name@, c);
                assert(c == i);
            }
            return InitPath::Variant(join(variants[i].pkg_dir.as_str(), "init.lua"));
        }
        i = i + 1;
    }
    assert(!exists|c: int| first_variant(variants@, name@, c));
    let dir = join(packages_dir, name);
    InitPath::Global(join(dir.as_str(), "init.lua"))
}

/// A variant stands over the packages directory, whatever is there.
pub proof fn law_variant_is_read_first(variants: Seq<VariantFact>, name: Seq<char>, i: int)
    requires
        first_variant(variants, name, i),
    ensures
        variant_init(variants, name) == Some(joined_path(variants[i].pkg_dir@, "init.lua"@)),
{
    let c = choose|c: int| first_variant(variants, name, c);
    if c < i {
        assert(variants[c].name@ != name);
    } else if i < c {
        assert(variants[i].name@ != name);
    }
}

// ─── Narratives ─────────────────────────────────────────────────

/// The Lua code that asks the package `name` for its narrative; an error for a
/// name that cannot stand in code.
pub fn make_narrative_code(name: &str) -> (r: Result<String, String>)
    ensures
        match r {
            Ok(code) => is_plain_word(name@) && code@ == "package.loaded[\""@ + name@
                + "\"] = nil\nlocal pkg = require(\""@ + name@
                + "\")\nif type(pkg.docs) == \"table\" and type(pkg.docs.narrative) == \"string\" then\n    return pkg.docs.narrative\nelse\n    return nil\nend"@,
            Err(m) => !is_plain_word(name@) && m@
                == "pkg_resolve_narrative_path: invalid package name '"@ + name@ + "'"@,
        },
{
    if !is_plain_pkg_name(name) {
        let mut m = "pkg_resolve_narrative_path: invalid package name '".to_owned();
        m.append(name);
        m.append("'");
        return Err(m);
    }
    let mut r = "package.loaded[\"".to_owned();
    r.append(name);
    r.append("\"] = nil\nlocal pkg = require(\"");
    r.append(name);
    r.append(
        "\")\nif type(pkg.docs) == \"table\" and type(pkg.docs.narrative) == \"string\" then\n    return pkg.docs.narrative\nelse\n    return nil\nend",
    );
    Ok(r)
}

/// The path leads upward or begins at the root.
pub open spec fn leads_out(path: Seq<char>) -> bool {
    occurs_in(path, ".."@) || "/"@.is_prefix_of(path)
}

/// The narrative that the package `name` answered: a path below its directory,
/// or nothing where it names none.
pub open spec fn narrative(name: Seq<char>, answer: JsonView) -> Result<
    Option<Seq<char>>,
    Seq<char>,
> {
    match answer {
        JsonView::Null => Ok(None),
        JsonView::Text(s) => if leads_out(s) {
            Err(
                "pkg_resolve_narrative_path: pkg '"@ + name
                    + "' M.docs.narrative must be a pkg-dir-relative path without '..' or leading '/' (got '"@
                    + s + "')"@,
            )
        } else if s.len() == 0 {
            Ok(None)
        } else {
            Ok(Some(s))
        },
        other => Err(
            "pkg_resolve_narrative_path: pkg '"@ + name
                + "' M.docs.narrative must be a string (got "@ + json_debug_text(other) + ")"@,
        ),
    }
}

/// The narrative that the package `name` answered.
pub fn narrative_path(name: &str, answer: &Json) -> (r: Result<Option<String>, String>)
    ensures
        match r {
            Ok(p) => narrative(name@, answer@) == Ok::<Option<Seq<char>>, Seq<char>>(opt_text(p)),
            Err(m) => narrative(name@, answer@) == Err::<Option<Seq<char>>, Seq<char>>(m@),
        },
{
    match answer {
        Json::Null => Ok(None),
        Json::Text(s) => {
            if contains_text(s.as_str(), "..") || starts_with(s.as_str(), "/") {
                let mut m = "pkg_resolve_narrative_path: pkg '".to_owned();
                m.append(name);
                m.append(
                    "' M.docs.narrative must be a pkg-dir-relative path without '..' or leading '/' (got '",
                );
                m.append(s.as_str());
                m.append("')");
                return Err(m);
            }
            if s.as_str().is_empty() {
                return Ok(None);
            }
            Ok(Some(s.clone()))
        },
        other => {
            let shown = other.render_debug();
            let mut m = "pkg_resolve_narrative_path: pkg '".to_owned();
            m.append(name);
            m.append("' M.docs.narrative must be a string (got ");
            m.append(shown.as_str());
            m.append(")");
            Err(m)
        },
    }
}

/// A narrative that is accepted stays below the package's directory: it begins
/// nowhere else and never leads upward.
pub proof fn law_narrative_stays_below(name: Seq<char>, answer: JsonView)
    ensures
        match narrative(name, answer) {
            Ok(Some(p)) => p.len() > 0 && !occurs_in(p, ".."@) && !"/"@.is_prefix_of(p),
            _ => true,
        },
{
}

} // verus!
