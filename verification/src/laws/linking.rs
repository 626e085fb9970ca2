//! What is linked, and what is told of it.

use vstd::prelude::*;
use crate::json::JsonView;
use crate::laws::tools::{is_silent, says};
use crate::link::{
    first_refused, holds_package, link_view, linkable, refusal, some_package, target_of,
    target_views, LinkEntry, LinkTarget, PackageMode,
};
use crate::paths::joined_path;
use crate::text::opt_text;

verus! {

/// An entry is linked exactly where it is a directory with a package in it, under
/// its own name and with its path below the collection.
pub proof fn law_packages_are_linked(source: Seq<char>, e: LinkEntry)
    ensures
        target_of(source, e) is Some <==> e.is_dir && e.has_init,
        target_of(source, e) matches Some(t) ==> t.0 == e.name@ && t.1 == joined_path(source, e.name@),
        holds_package(e) <==> e.is_dir && e.has_init,
{
}

/// The entry is a package whose name is refused.
pub open spec fn is_refused(e: LinkEntry) -> bool {
    e.is_dir && e.has_init && e.refused is Some
}

/// Entries are linked up to the first package whose name is refused: none before
/// it is, and where there is none all entries are linked.
pub proof fn law_linking_stops_at_the_first_refusal(entries: Seq<LinkEntry>)
    ensures
        ({
            let n = linkable(entries).len();
            &&& n <= entries.len()
            &&& linkable(entries) == entries.take(n as int)
            &&& forall|j: int| 0 <= j < n ==> !is_refused(#[trigger] entries[j])
            &&& n < entries.len() ==> is_refused(entries[n as int]) && refusal(entries) == opt_text(
                entries[n as int].refused,
            )
            &&& n == entries.len() ==> refusal(entries) is None
        }),
        some_package(entries) <==> exists|i: int|
            0 <= i < entries.len() && (#[trigger] entries[i]).is_dir && entries[i].has_init,
{
    if exists|i: int| first_refused(entries, i) {
        let i = choose|i: int| first_refused(entries, i);
        assert(linkable(entries) =~= entries.take(i));
        assert forall|j: int| 0 <= j < i implies !is_refused(#[trigger] entries[j]) by {
            assert(!(holds_package(entries[j]) && entries[j].refused is Some));
        }
    } else {
        assert(entries.take(entries.len() as int) =~= entries);
        assert forall|j: int| 0 <= j < entries.len() implies !is_refused(#[trigger] entries[j]) by {
            if is_refused(entries[j]) {
                lemma_first_refused(entries, j);
            }
        }
    }
    if some_package(entries) {
        let i = choose|i: int| 0 <= i < entries.len() && holds_package(#[trigger] entries[i]);
        assert(entries[i].is_dir);
    }
    if exists|i: int| 0 <= i < entries.len() && (#[trigger] entries[i]).is_dir && entries[i].has_init {
        let i = choose|i: int|
            0 <= i < entries.len() && (#[trigger] entries[i]).is_dir && entries[i].has_init;
        assert(holds_package(entries[i]));
    }
}

proof fn lemma_first_refused(entries: Seq<LinkEntry>, i: int)
    requires
        0 <= i < entries.len(),
        is_refused(entries[i]),
    ensures
        exists|k: int| first_refused(entries, k),
    decreases i,
{
    if exists|j: int| 0 <= j < i && is_refused(#[trigger] entries[j]) {
        let j = choose|j: int| 0 <= j < i && is_refused(#[trigger] entries[j]);
        lemma_first_refused(entries, j);
    } else {
        assert(holds_package(entries[i]));
        assert(first_refused(entries, i));
    }
}

/// The answer tells what was linked, how the directory was taken, and every
/// package with its directory; where an `alc.local.toml` records the links it is
/// named, and the scope says so.
pub proof fn law_the_link_answer_is_whole(
    linked: Seq<Seq<char>>,
    mode: PackageMode,
    targets: Seq<(Seq<char>, Seq<char>)>,
    local_toml: Option<Seq<char>>,
)
    ensures
        ({
            let doc = JsonView::Object(link_view(linked, mode, targets, local_toml));
            &&& says(
                doc,
                "linked"@,
                JsonView::Array(Seq::new(linked.len(), |i: int| JsonView::Text(linked[i]))),
            )
            &&& says(
                doc,
                "mode"@,
                JsonView::Text(
                    if mode == PackageMode::Single {
                        "single"@
                    } else {
                        "collection"@
                    },
                ),
            )
            &&& says(
                doc,
                "targets"@,
                JsonView::Object(
                    Seq::new(targets.len(), |i: int| (targets[i].0, JsonView::Text(targets[i].1))),
                ),
            )
            &&& match local_toml {
                None => says(doc, "scope"@, JsonView::Text("global"@)) && is_silent(
                    doc,
                    "alc_local_toml"@,
                ),
                Some(p) => says(doc, "scope"@, JsonView::Text("variant"@)) && says(
                    doc,
                    "alc_local_toml"@,
                    JsonView::Text(p),
                ),
            }
        }),
{
    reveal_strlit("linked");
    reveal_strlit("mode");
    reveal_strlit("targets");
    reveal_strlit("scope");
    reveal_strlit("alc_local_toml");
    assert("linked"@.len() == 6 && "mode"@.len() == 4 && "targets"@.len() == 7 && "scope"@.len()
        == 5 && "alc_local_toml"@.len() == 14);
    let ms = link_view(linked, mode, targets, local_toml);
    assert(ms[0].0 == "linked"@);
    assert(ms[0].1->Array_0 =~= Seq::new(linked.len(), |i: int| JsonView::Text(linked[i])));
    assert(ms[1].0 == "mode"@);
    assert(ms[2].0 == "targets"@);
    assert(ms[2].1->Object_0 =~= Seq::new(
        targets.len(),
        |i: int| (targets[i].0, JsonView::Text(targets[i].1)),
    ));
    match local_toml {
        None => {
            assert(ms[3] == ("scope"@, JsonView::Text("global"@)));
        },
        Some(p) => {
            assert(ms[3] == ("scope"@, JsonView::Text("variant"@)));
            assert(ms[4] == ("alc_local_toml"@, JsonView::Text(p)));
        },
    }
}

/// A list of packages to link is told by their names and directories, in order.
pub proof fn law_targets_are_told_in_order(v: Seq<LinkTarget>, i: int)
    requires
        0 <= i < v.len(),
    ensures
        target_views(v).len() == v.len(),
        target_views(v)[i] == (v[i].name@, v[i].path@),
{
}

} // verus!
