//! What is removed from a lock, and what is told of it.

use vstd::prelude::*;
use crate::json::JsonView;
use crate::laws::tools::says;
use crate::remove::{both_view, not_locked_text, note_view, remaining, stays};
use crate::source::LockView;

verus! {

/// An entry is removed exactly where it has the name and, where a version is asked
/// for, that version; the others stay in their order.
pub proof fn law_what_is_removed(
    v: Seq<LockView>,
    p: LockView,
    name: Seq<char>,
    version: Option<Seq<char>>,
)
    ensures
        ({
            let removed = p.name == name && (version is None || p.version == version);
            &&& stays(p, name, version) <==> !removed
            &&& remaining(Seq::empty(), name, version).len() == 0
            &&& remaining(v.push(p), name, version) == (if removed {
                remaining(v, name, version)
            } else {
                remaining(v, name, version).push(p)
            })
        }),
{
    reveal(Seq::filter);
    assert(v.push(p).drop_last() =~= v);
}

/// Removing from both is told with what became of each, and why where it failed.
pub proof fn law_removing_from_both_is_told(
    name: Seq<char>,
    project_error: Option<Seq<char>>,
    global_error: Option<Seq<char>>,
)
    ensures
        ({
            let doc = both_view(name, project_error, global_error);
            &&& says(doc, "removed"@, JsonView::Text(name))
            &&& says(doc, "scope"@, JsonView::Text("all"@))
            &&& says(doc, "project_removed"@, JsonView::Bool(project_error is None))
            &&& says(doc, "global_removed"@, JsonView::Bool(global_error is None))
            &&& project_error matches Some(e) ==> says(doc, "project_note"@, JsonView::Text(e))
            &&& project_error is None ==> says(doc, "project_note"@, JsonView::Null)
            &&& global_error matches Some(e) ==> says(doc, "global_note"@, JsonView::Text(e))
            &&& global_error is None ==> says(doc, "global_note"@, JsonView::Null)
        }),
{
    let ms = both_view(name, project_error, global_error).members();
    assert(ms[0] == ("removed"@, JsonView::Text(name)));
    assert(ms[1] == ("scope"@, JsonView::Text("all"@)));
    assert(ms[2] == ("project_removed"@, JsonView::Bool(project_error is None)));
    assert(ms[3] == ("global_removed"@, JsonView::Bool(global_error is None)));
    assert(ms[4] == ("project_note"@, note_view(project_error)));
    assert(ms[5] == ("global_note"@, note_view(global_error)));
}

/// That the lock does not hold a package is told with the package and the lock.
pub proof fn law_missing_entries_are_told(name: Seq<char>, path: Seq<char>)
    ensures
        not_locked_text(name, path) == "Package '"@ + name + "' not found in alc.lock at "@ + path,
{
}

} // verus!
