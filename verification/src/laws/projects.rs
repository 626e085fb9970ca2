//! Which directory is the project, and where its code is read.

use vstd::prelude::*;
use crate::json::{json_debug_text, JsonView};
use crate::list::VariantFact;
use crate::paths::joined_path;
use crate::project::{directory, first_with_toml, named_directory, Probe};
use crate::read::{first_variant, leads_out, narrative, variant_init};
use crate::text::occurs_in;

verus! {

/// Only a path that is a directory counts, and of the environment only one that is
/// not empty.
pub proof fn law_only_directories_count(p: Option<Probe>, t: Seq<char>)
    ensures
        directory(p) == Some(t) <==> p is Some && p->Some_0.is_dir && p->Some_0.path@ == t,
        named_directory(p) == Some(t) <==> directory(p) == Some(t) && t.len() > 0,
{
}

/// The walk finds nothing exactly where no directory from there on holds the file.
pub proof fn law_when_the_walk_finds_nothing(dirs: Seq<Seq<char>>, has_toml: Seq<bool>, i: int)
    requires
        0 <= i,
        has_toml.len() == dirs.len(),
    ensures
        first_with_toml(dirs, has_toml, i) is None <==> forall|k: int|
            i <= k < dirs.len() ==> !#[trigger] has_toml[k],
    decreases dirs.len() - i,
{
    if i < dirs.len() {
        law_when_the_walk_finds_nothing(dirs, has_toml, i + 1);
    }
}

/// A variant is read where the first of its name stands, and none is where no
/// variant has the name.
pub proof fn law_when_a_variant_is_read(variants: Seq<VariantFact>, name: Seq<char>)
    ensures
        variant_init(variants, name) is None <==> forall|i: int|
            0 <= i < variants.len() ==> (#[trigger] variants[i]).name@ != name,
        variant_init(variants, name) matches Some(p) ==> exists|i: int|
            0 <= i < variants.len() && (#[trigger] variants[i]).name@ == name && p == joined_path(
                variants[i].pkg_dir@,
                "init.lua"@,
            ),
{
    if exists|i: int| first_variant(variants, name, i) {
        let i = choose|i: int| first_variant(variants, name, i);
        assert(variants[i].name@ == name);
    } else if exists|i: int| 0 <= i < variants.len() && (#[trigger] variants[i]).name@ == name {
        let i = choose|i: int| 0 <= i < variants.len() && (#[trigger] variants[i]).name@ == name;
        lemma_first_variant_is_there(variants, name, i);
    }
}

proof fn lemma_first_variant_is_there(variants: Seq<VariantFact>, name: Seq<char>, i: int)
    requires
        0 <= i < variants.len(),
        variants[i].name@ == name,
    ensures
        exists|k: int| first_variant(variants, name, k),
    decreases i,
{
    if exists|j: int| 0 <= j < i && (#[trigger] variants[j]).name@ == name {
        let j = choose|j: int| 0 <= j < i && (#[trigger] variants[j]).name@ == name;
        lemma_first_variant_is_there(variants, name, j);
    } else {
        assert(first_variant(variants, name, i));
    }
}

/// A narrative is accepted exactly where it is a path that neither begins at the
/// root nor leads upward, and is none where the package names nothing.
pub proof fn law_which_narratives_are_accepted(name: Seq<char>, answer: JsonView)
    ensures
        answer is Null ==> narrative(name, answer) == Ok::<Option<Seq<char>>, Seq<char>>(None),
        answer matches JsonView::Text(s) ==> ({
            let out = occurs_in(s, ".."@) || "/"@.is_prefix_of(s);
            &&& leads_out(s) <==> out
            &&& !out && s.len() > 0 ==> narrative(name, answer) == Ok::<
                Option<Seq<char>>,
                Seq<char>,
            >(Some(s))
            &&& !out && s.len() == 0 ==> narrative(name, answer) == Ok::<
                Option<Seq<char>>,
                Seq<char>,
            >(None)
            &&& out ==> narrative(name, answer) == Err::<Option<Seq<char>>, Seq<char>>(
                "pkg_resolve_narrative_path: pkg '"@ + name
                    + "' M.docs.narrative must be a pkg-dir-relative path without '..' or leading '/' (got '"@
                    + s + "')"@,
            )
        }),
        !(answer is Null) && !(answer is Text) ==> narrative(name, answer) == Err::<
            Option<Seq<char>>,
            Seq<char>,
        >(
            "pkg_resolve_narrative_path: pkg '"@ + name
                + "' M.docs.narrative must be a string (got "@ + json_debug_text(answer) + ")"@,
        ),
{
}

} // verus!
