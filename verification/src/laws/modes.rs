//! What the modes of a restore stand for.

use vstd::prelude::*;
use crate::copy::OverwritePolicy;
use crate::testing::{distinct_dirs, ResolvedView};
use crate::unpack::{mode_named, UnpackMode};

verus! {

/// The modes are known by their names, a dry run by two, and by no others.
pub proof fn law_modes_are_known_by_name(name: Seq<char>, m: UnpackMode)
    ensures
        mode_named(name) == Some(UnpackMode::Merge) <==> name == "merge"@,
        mode_named(name) == Some(UnpackMode::Overwrite) <==> name == "overwrite"@,
        mode_named(name) == Some(UnpackMode::DryRun) <==> name == "dry-run"@ || name == "dry_run"@,
        mode_named(m.name_view()) == Some(m),
        m == UnpackMode::DryRun ==> m.name_view() == "dry-run"@,
{
    reveal_strlit("merge");
    reveal_strlit("overwrite");
    reveal_strlit("dry-run");
    reveal_strlit("dry_run");
    assert("merge"@.len() == 5 && "overwrite"@.len() == 9 && "dry-run"@.len() == 7 && "dry_run"@.len()
        == 7);
}

/// Files that are there are replaced exactly where overwriting is asked for.
pub proof fn law_what_a_mode_does_with_files(m: UnpackMode)
    ensures
        m.policy_view() == OverwritePolicy::Replace <==> m == UnpackMode::Overwrite,
        m.policy_view() == OverwritePolicy::KeepExisting <==> m == UnpackMode::Merge || m
            == UnpackMode::DryRun,
{
}

/// Every directory of the search paths is searched, each once and in the order in
/// which they come first.
pub proof fn law_every_directory_is_searched_once(
    v: Seq<ResolvedView>,
    r: ResolvedView,
    d: Seq<char>,
)
    ensures
        distinct_dirs(Seq::empty()).len() == 0,
        distinct_dirs(v).contains(r.search_dir) ==> distinct_dirs(v.push(r)) == distinct_dirs(v),
        !distinct_dirs(v).contains(r.search_dir) ==> distinct_dirs(v.push(r)) == distinct_dirs(
            v,
        ).push(r.search_dir),
        distinct_dirs(v).no_duplicates(),
        distinct_dirs(v).contains(d) <==> exists|i: int|
            0 <= i < v.len() && (#[trigger] v[i]).search_dir == d,
    decreases v.len(),
{
    assert(v.push(r).drop_last() =~= v);
    if v.len() > 0 {
        let rest = v.drop_last();
        law_every_directory_is_searched_once(rest, v.last(), d);
        let before = distinct_dirs(rest);
        let all = distinct_dirs(v);
        if before.contains(d) {
            let k = choose|k: int| 0 <= k < before.len() && before[k] == d;
            assert(all[k] == d);
            let i = choose|i: int| 0 <= i < rest.len() && (#[trigger] rest[i]).search_dir == d;
            assert(v[i].search_dir == d);
        }
        if v.last().search_dir == d {
            assert(v[v.len() - 1].search_dir == d);
            if !before.contains(d) {
                assert(all.last() == d);
                assert(all[all.len() - 1] == d);
            }
        }
        if exists|i: int| 0 <= i < v.len() && (#[trigger] v[i]).search_dir == d {
            let i = choose|i: int| 0 <= i < v.len() && (#[trigger] v[i]).search_dir == d;
            if i < rest.len() {
                assert(rest[i].search_dir == d);
            }
        }
        if all.contains(d) && !before.contains(d) {
            let k = choose|k: int| 0 <= k < all.len() && all[k] == d;
            if k < before.len() {
                assert(before[k] == d);
            }
        }
    }
}

} // verus!
