//! What a copy of a directory tree moves, and what it leaves.

use vstd::prelude::*;

verus! {

/// An entry that could not be carried.
#[derive(Debug)]
pub struct SkipRecord {
    pub path: String,
    pub reason: String,
}

/// The content of a `SkipRecord`.
#[verifier::ext_equal]
pub struct SkipView {
    pub path: Seq<char>,
    pub reason: Seq<char>,
}

impl View for SkipRecord {
    type V = SkipView;

    open spec fn view(&self) -> SkipView {
        SkipView { path: self.path@, reason: self.reason@ }
    }
}

/// The contents of a list of records.
pub open spec fn skip_views(v: Seq<SkipRecord>) -> Seq<SkipView> {
    v.map_values(|s: SkipRecord| s@)
}

/// How to treat a destination file that is there already.
#[derive(Debug, Clone, Copy, PartialEq, Eq, Structural)]
pub enum OverwritePolicy {
    /// Replace it.
    Replace,
    /// Leave it and count it.
    KeepExisting,
}

/// Files and bytes that were moved, and files that were left in place.
#[derive(Debug, Clone, Copy, PartialEq, Eq, Structural)]
pub struct CopyStats {
    pub files: u64,
    pub bytes: u64,
    pub kept: u64,
}

/// The same counts without a bound.
#[verifier::ext_equal]
pub struct Tally {
    pub files: int,
    pub bytes: int,
    pub kept: int,
}

impl Tally {
    /// The counts of both together.
    pub open spec fn plus(self, other: Tally) -> Tally {
        Tally {
            files: self.files + other.files,
            bytes: self.bytes + other.bytes,
            kept: self.kept + other.kept,
        }
    }

    /// Every count fits in 64 bits.
    pub open spec fn fits(self) -> bool {
        self.files <= u64::MAX && self.bytes <= u64::MAX && self.kept <= u64::MAX
    }

    /// Nothing moved and nothing kept.
    pub open spec fn zero() -> Tally {
        Tally { files: 0, bytes: 0, kept: 0 }
    }
}

impl View for CopyStats {
    type V = Tally;

    open spec fn view(&self) -> Tally {
        Tally { files: self.files as int, bytes: self.bytes as int, kept: self.kept as int }
    }
}

impl Default for CopyStats {
    fn default() -> (r: CopyStats)
        ensures
            r@ == Tally::zero(),
    {
        CopyStats { files: 0, bytes: 0, kept: 0 }
    }
}

impl CopyStats {
    /// Adds the counts of `rhs`.
    pub fn add_assign(&mut self, rhs: CopyStats)
        requires
            old(self)@.plus(rhs@).fits(),
        ensures
            final(self)@ == old(self)@.plus(rhs@),
    {
        self.files = self.files + rhs.files;
        self.bytes = self.bytes + rhs.bytes;
        self.kept = self.kept + rhs.kept;
    }

    /// The counts of one file of `bytes` bytes that was moved.
    pub fn one_file(bytes: u64) -> (r: CopyStats)
        ensures
            r@ == (Tally { files: 1, bytes: bytes as int, kept: 0 }),
    {
        CopyStats { files: 1, bytes, kept: 0 }
    }
}

/// What a walk found at one path. Links are followed; directories are walked
/// through and leave no record of their own.
#[derive(Debug)]
pub enum WalkKind {
    /// The entry cannot be read, for the given cause.
    Unreadable(String),
    /// A file of the given size; whether the destination holds it already.
    File { bytes: u64, dest_exists: bool },
}

/// A path below the tree's root and what the walk found there.
#[derive(Debug)]
pub struct WalkFact {
    pub path: String,
    pub kind: WalkKind,
}

/// What is to be done with a file.
#[derive(Debug, Clone, Copy, PartialEq, Eq, Structural)]
pub enum FileStep {
    /// Copy it.
    Copy,
    /// Leave the destination's file and count it.
    Keep,
}

/// A file stays only where the policy keeps what is there and it is there.
pub open spec fn step_for(policy: OverwritePolicy, dest_exists: bool) -> FileStep {
    if policy == OverwritePolicy::KeepExisting && dest_exists {
        FileStep::Keep
    } else {
        FileStep::Copy
    }
}

/// What is to be done with a file.
pub fn file_step(policy: OverwritePolicy, dest_exists: bool) -> (r: FileStep)
    ensures
        r == step_for(policy, dest_exists),
{
    if policy == OverwritePolicy::KeepExisting && dest_exists {
        FileStep::Keep
    } else {
        FileStep::Copy
    }
}

/// What a walk is for.
#[derive(Debug, Clone, Copy, PartialEq, Eq, Structural)]
pub enum WalkAim {
    /// To move what it finds.
    Copy,
    /// To count what copying would move, and to change nothing.
    Measure,
}

/// What a walk does with a file.
#[derive(Debug, Clone, Copy, PartialEq, Eq, Structural)]
pub enum WalkStep {
    /// It is copied.
    Copy,
    /// It would be copied.
    Count,
    /// The destination's file stays.
    Keep,
}

/// What a walk does with a file.
pub open spec fn walk_step_of(aim: WalkAim, policy: OverwritePolicy, dest_exists: bool) -> WalkStep {
    match step_for(policy, dest_exists) {
        FileStep::Keep => WalkStep::Keep,
        FileStep::Copy => match aim {
            WalkAim::Copy => WalkStep::Copy,
            WalkAim::Measure => WalkStep::Count,
        },
    }
}

/// What a walk does with a file.
pub fn walk_step(aim: WalkAim, policy: OverwritePolicy, dest_exists: bool) -> (r: WalkStep)
    ensures
        r == walk_step_of(aim, policy, dest_exists),
{
    match file_step(policy, dest_exists) {
        FileStep::Keep => WalkStep::Keep,
        FileStep::Copy => match aim {
            WalkAim::Copy => WalkStep::Copy,
            WalkAim::Measure => WalkStep::Count,
        },
    }
}

/// The counts that one fact adds.
pub open spec fn fact_tally(aim: WalkAim, policy: OverwritePolicy, f: WalkFact) -> Tally {
    match f.kind {
        WalkKind::Unreadable(_) => Tally::zero(),
        WalkKind::File { bytes, dest_exists } => match walk_step_of(aim, policy, dest_exists) {
            WalkStep::Keep => Tally { files: 0, bytes: 0, kept: 1 },
            WalkStep::Copy | WalkStep::Count => Tally { files: 1, bytes: bytes as int, kept: 0 },
        },
    }
}

/// The counts of a whole walk.
pub open spec fn walk_tally(aim: WalkAim, policy: OverwritePolicy, facts: Seq<WalkFact>) -> Tally
    decreases facts.len(),
{
    if facts.len() == 0 {
        Tally::zero()
    } else {
        walk_tally(aim, policy, facts.drop_last()).plus(fact_tally(aim, policy, facts.last()))
    }
}

/// The walk writes the file at `f`.
pub open spec fn writes(aim: WalkAim, policy: OverwritePolicy, f: WalkFact) -> bool {
    match f.kind {
        WalkKind::Unreadable(_) => false,
        WalkKind::File { dest_exists, .. } => walk_step_of(aim, policy, dest_exists)
            == WalkStep::Copy,
    }
}

/// The files that a walk writes.
pub open spec fn written(aim: WalkAim, policy: OverwritePolicy, facts: Seq<WalkFact>) -> Seq<WalkFact> {
    facts.filter(|f: WalkFact| writes(aim, policy, f))
}

/// The record of an unreadable entry.
pub open spec fn skip_of(f: WalkFact) -> Option<SkipView> {
    match f.kind {
        WalkKind::Unreadable(e) => Some(SkipView { path: f.path@, reason: "unreadable: "@ + e@ }),
        WalkKind::File { .. } => None,
    }
}

/// The counts of the first facts are at most those of all.
proof fn lemma_tally_grows(aim: WalkAim, policy: OverwritePolicy, facts: Seq<WalkFact>, i: int)
    requires
        0 <= i <= facts.len(),
    ensures
        walk_tally(aim, policy, facts.take(i)).files <= walk_tally(aim, policy, facts).files,
        walk_tally(aim, policy, facts.take(i)).bytes <= walk_tally(aim, policy, facts).bytes,
        walk_tally(aim, policy, facts.take(i)).kept <= walk_tally(aim, policy, facts).kept,
    decreases facts.len(),
{
    if i == facts.len() {
        assert(facts.take(i) =~= facts);
    } else {
        lemma_tally_grows(aim, policy, facts.drop_last(), i);
        assert(facts.drop_last().take(i) =~= facts.take(i));
    }
}

/// The counts of a walk; unreadable entries are added to `skipped`, whatever the
/// walk is for, and the walk goes on.
pub fn tally_walk(
    aim: WalkAim,
    policy: OverwritePolicy,
    facts: &[WalkFact],
    skipped: &mut Vec<SkipRecord>,
) -> (r: CopyStats)
    requires
        walk_tally(aim, policy, facts@).fits(),
    ensures
        r@ == walk_tally(aim, policy, facts@),
        skip_views(final(skipped)@) == skip_views(old(skipped)@) + facts@.filter_map(
            |f: WalkFact| skip_of(f),
        ),
{
    broadcast use vstd::seq_lib::group_seq_properties;

    let ghost before = skip_views(skipped@);
    let ghost sk = |f: WalkFact| skip_of(f);
    let mut stats = CopyStats { files: 0, bytes: 0, kept: 0 };
    let mut i: usize = 0;
    assert(facts@.take(0) =~= Seq::<WalkFact>::empty());
    assert(before + Seq::<SkipView>::empty() =~= before);
    while i < facts.len()
        invariant
            i <= facts@.len(),
            walk_tally(aim, policy, facts@).fits(),
            sk == (|f: WalkFact| skip_of(f)),
            stats@ == walk_tally(aim, policy, facts@.take(i as int)),
            skip_views(skipped@) == before + facts@.take(i as int).filter_map(sk),
        decreases facts@.len() - i,
    {
        let fact = &facts[i];
        proof {
            assert(facts@.take(i + 1).drop_last() =~= facts@.take(i as int));
            assert(facts@.take(i + 1).last() == *fact);
            lemma_tally_grows(aim, policy, facts@, i + 1);
            facts@.lemma_filter_map_take_succ(sk, i as int);
        }
        let ghost sk0 = skipped@;
        match &fact.kind {
            WalkKind::Unreadable(e) => {
                let mut reason = "unreadable: ".to_owned();
                reason.append(e.as_str());
                let rec = SkipRecord { path: fact.path.clone(), reason };
                let ghost v = rec@;
                skipped.push(rec);
                proof {
                    assert(skip_views(skipped@) =~= skip_views(sk0).push(v));
                    assert(sk(*fact) == Some(v));
                    assert(skip_views(skipped@) =~= before + facts@.take(i + 1).filter_map(sk));
                }
            },
            WalkKind::File { bytes, dest_exists } => {
                match walk_step(aim, policy, *dest_exists) {
                    WalkStep::Keep => {
                        stats.kept = stats.kept + 1;
                    },
                    WalkStep::Copy | WalkStep::Count => {
                        stats.add_assign(CopyStats::one_file(*bytes));
                    },
                }
                proof {
                    assert(sk(*fact) is None);
                    assert(skip_views(skipped@) =~= before + facts@.take(i + 1).filter_map(sk));
                }
            },
        }
        i = i + 1;
    }
    assert(facts@.take(i as int) =~= facts@);
    stats
}

// ─── Laws ───────────────────────────────────────────────────────

/// The fact is of a file that the destination holds already.
pub open spec fn is_present_file(f: WalkFact) -> bool {
    match f.kind {
        WalkKind::File { dest_exists, .. } => dest_exists,
        WalkKind::Unreadable(_) => false,
    }
}

/// Measuring a tree counts what copying it moves and leaves, and writes nothing:
/// of what both walks find, copying writes exactly the files that are counted.
pub proof fn law_measuring_counts_what_copying_moves(policy: OverwritePolicy, facts: Seq<WalkFact>)
    ensures
        walk_tally(WalkAim::Measure, policy, facts) == walk_tally(WalkAim::Copy, policy, facts),
        written(WalkAim::Measure, policy, facts).len() == 0,
        written(WalkAim::Copy, policy, facts).len() == walk_tally(
            WalkAim::Measure,
            policy,
            facts,
        ).files,
        sizes(written(WalkAim::Copy, policy, facts)) == walk_tally(
            WalkAim::Measure,
            policy,
            facts,
        ).bytes,
    decreases facts.len(),
{
    reveal(Seq::filter);
    if facts.len() > 0 {
        let d = facts.drop_last();
        law_measuring_counts_what_copying_moves(policy, d);
        let before = written(WalkAim::Copy, policy, d);
        if writes(WalkAim::Copy, policy, facts.last()) {
            assert(before.push(facts.last()).drop_last() =~= before);
        }
    }
}

/// The bytes of the given files together.
pub open spec fn sizes(files: Seq<WalkFact>) -> int
    decreases files.len(),
{
    if files.len() == 0 {
        0
    } else {
        sizes(files.drop_last()) + match files.last().kind {
            WalkKind::File { bytes, .. } => bytes as int,
            WalkKind::Unreadable(_) => 0,
        }
    }
}

/// Keeping what exists moves no file that is there and counts each of them.
pub proof fn law_keep_existing_moves_nothing_present(aim: WalkAim, facts: Seq<WalkFact>)
    requires
        forall|i: int| 0 <= i < facts.len() ==> is_present_file(#[trigger] facts[i]),
    ensures
        walk_tally(aim, OverwritePolicy::KeepExisting, facts) == (Tally {
            files: 0,
            bytes: 0,
            kept: facts.len() as int,
        }),
    decreases facts.len(),
{
    if facts.len() > 0 {
        let d = facts.drop_last();
        assert forall|i: int| 0 <= i < d.len() implies is_present_file(#[trigger] d[i]) by {
            assert(d[i] == facts[i]);
        }
        law_keep_existing_moves_nothing_present(aim, d);
        assert(is_present_file(facts[facts.len() - 1]));
    }
}

/// Replacing leaves no file behind.
pub proof fn law_replace_keeps_nothing(aim: WalkAim, facts: Seq<WalkFact>)
    ensures
        walk_tally(aim, OverwritePolicy::Replace, facts).kept == 0,
    decreases facts.len(),
{
    if facts.len() > 0 {
        law_replace_keeps_nothing(aim, facts.drop_last());
    }
}

} // verus!
