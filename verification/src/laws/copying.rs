//! What a walk over a tree writes, counts and tells.

use vstd::prelude::*;
use crate::copy::{
    skip_of, step_for, walk_step_of, walk_tally, writes, written, FileStep, OverwritePolicy, Tally,
    WalkAim, WalkFact, WalkKind, WalkStep,
};

verus! {

/// A file that is there already stays exactly where what is there is to be kept;
/// any other is copied, or counted where the walk only measures.
pub proof fn law_what_a_walk_does_with_a_file(
    aim: WalkAim,
    policy: OverwritePolicy,
    dest_exists: bool,
)
    ensures
        step_for(policy, dest_exists) == FileStep::Keep <==> policy == OverwritePolicy::KeepExisting
            && dest_exists,
        walk_step_of(aim, policy, dest_exists) == WalkStep::Keep <==> policy
            == OverwritePolicy::KeepExisting && dest_exists,
        walk_step_of(aim, policy, dest_exists) == WalkStep::Copy <==> aim == WalkAim::Copy && !(
        policy == OverwritePolicy::KeepExisting && dest_exists),
        walk_step_of(aim, policy, dest_exists) == WalkStep::Count <==> aim == WalkAim::Measure && !(
        policy == OverwritePolicy::KeepExisting && dest_exists),
{
}

/// One more file adds itself and its bytes to what moves, or itself to what stays;
/// an entry that cannot be read adds nothing.
pub proof fn law_every_file_is_counted(
    aim: WalkAim,
    policy: OverwritePolicy,
    facts: Seq<WalkFact>,
    f: WalkFact,
)
    ensures
        ({
            let before = walk_tally(aim, policy, facts);
            let after = walk_tally(aim, policy, facts.push(f));
            match f.kind {
                WalkKind::Unreadable(_) => after == before,
                WalkKind::File { bytes, dest_exists } => if policy == OverwritePolicy::KeepExisting
                    && dest_exists {
                    after.files == before.files && after.bytes == before.bytes && after.kept
                        == before.kept + 1
                } else {
                    after.files == before.files + 1 && after.bytes == before.bytes + bytes
                        && after.kept == before.kept
                },
            }
        }),
        walk_tally(aim, policy, Seq::empty()) == (Tally { files: 0, bytes: 0, kept: 0 }),
{
    assert(facts.push(f).drop_last() =~= facts);
}

/// A walk writes exactly the files that it does not leave in place, and none where
/// it only measures.
pub proof fn law_what_a_walk_writes(
    aim: WalkAim,
    policy: OverwritePolicy,
    facts: Seq<WalkFact>,
    f: WalkFact,
)
    ensures
        written(aim, policy, facts).contains(f) <==> facts.contains(f) && aim == WalkAim::Copy && (
        f.kind matches WalkKind::File { bytes, dest_exists } && !(policy
            == OverwritePolicy::KeepExisting && dest_exists)),
{
    let p = |f: WalkFact| writes(aim, policy, f);
    if written(aim, policy, facts).contains(f) {
        let i = choose|i: int|
            0 <= i < written(aim, policy, facts).len() && written(aim, policy, facts)[i] == f;
        facts.lemma_filter_pred(p, i);
        facts.lemma_filter_contains_rev(p, f);
    }
    if facts.contains(f) && writes(aim, policy, f) {
        let i = choose|i: int| 0 <= i < facts.len() && facts[i] == f;
        facts.lemma_filter_contains(p, i);
    }
}

/// An entry is told as skipped exactly where it cannot be read, with its path and
/// the cause.
pub proof fn law_unreadable_entries_are_told(f: WalkFact)
    ensures
        skip_of(f) is Some <==> f.kind is Unreadable,
        skip_of(f) matches Some(s) ==> s.path == f.path@ && (f.kind matches WalkKind::Unreadable(e)
            && s.reason == "unreadable: "@ + e@),
{
}

/// Two counts together hold the sum of each, and fit exactly where each sum does.
pub proof fn law_counts_add(a: Tally, b: Tally)
    ensures
        a.plus(b).files == a.files + b.files,
        a.plus(b).bytes == a.bytes + b.bytes,
        a.plus(b).kept == a.kept + b.kept,
        a.plus(b) == b.plus(a),
        a.plus(Tally::zero()) == a,
        a.fits() <==> a.files <= u64::MAX && a.bytes <= u64::MAX && a.kept <= u64::MAX,
{
}

} // verus!
