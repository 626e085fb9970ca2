//! Laying a pack down: what is fetched again, what is expanded, what is linked
//! again, and what the report says.

use vstd::prelude::*;
use crate::copy::{skip_views, CopyStats, FileStep, OverwritePolicy, SkipRecord, SkipView, Tally};
use crate::install::{copy_step_of, CopyStep};
use crate::json::{text_views, views, Json, JsonView};
use crate::manifest::{known_in, merged, unknown_in, EntryView, Manifest, ManifestMergeOutcome};
use crate::pack::{names_of_sections, section_names, skips_json, skips_to_json};
use crate::paths::{join, joined_path};
use crate::profile::{ProfileLink, ProfilePackage};
use crate::sections::{listed, PackSection, SectionSet};
use crate::source::{refetch_source, refetch_url, InstallSource};
use crate::text::{opt_text, str_eq, texts};

verus! {

/// What to do where the destination already holds something.
#[derive(Debug, Clone, Copy, PartialEq, Eq, Structural)]
pub enum UnpackMode {
    /// What is here stays.
    Merge,
    /// What the pack holds wins.
    Overwrite,
    /// Nothing is written; the report says what a merge would do.
    DryRun,
}

impl Default for UnpackMode {
    fn default() -> (r: UnpackMode)
        ensures
            r == UnpackMode::Merge,
    {
        UnpackMode::Merge
    }
}

/// The mode that a wire name stands for.
pub open spec fn mode_named(name: Seq<char>) -> Option<UnpackMode> {
    if name == "merge"@ {
        Some(UnpackMode::Merge)
    } else if name == "overwrite"@ {
        Some(UnpackMode::Overwrite)
    } else if name == "dry-run"@ || name == "dry_run"@ {
        Some(UnpackMode::DryRun)
    } else {
        None
    }
}

impl std::str::FromStr for UnpackMode {
    type Err = String;

    /// The mode that `value` names; the refusal lists the accepted names.
    fn from_str(value: &str) -> (r: Result<UnpackMode, String>)
        ensures
            match r {
                Ok(m) => mode_named(value@) == Some(m),
                Err(e) => mode_named(value@) is None && e@ == "unknown mode '"@ + value@
                    + "' (expected: merge, overwrite, dry-run)"@,
            },
    {
        UnpackMode::parse(value)
    }
}

impl UnpackMode {
    /// The mode that `value` names; the refusal lists the accepted names.
    pub fn parse(value: &str) -> (r: Result<UnpackMode, String>)
        ensures
            match r {
                Ok(m) => mode_named(value@) == Some(m),
                Err(e) => mode_named(value@) is None && e@ == "unknown mode '"@ + value@
                    + "' (expected: merge, overwrite, dry-run)"@,
            },
    {
        if str_eq(value, "merge") {
            Ok(UnpackMode::Merge)
        } else if str_eq(value, "overwrite") {
            Ok(UnpackMode::Overwrite)
        } else if str_eq(value, "dry-run") || str_eq(value, "dry_run") {
            Ok(UnpackMode::DryRun)
        } else {
            let mut e = "unknown mode '".to_owned();
            e.append(value);
            e.append("' (expected: merge, overwrite, dry-run)");
            Err(e)
        }
    }

    /// Whether nothing is to be written.
    pub fn is_dry_run(self) -> (r: bool)
        ensures
            r == (self == UnpackMode::DryRun),
    {
        self == UnpackMode::DryRun
    }

    /// The policy for files that exist. A dry run predicts a merge.
    pub open spec fn policy_view(self) -> OverwritePolicy {
        if self == UnpackMode::Overwrite {
            OverwritePolicy::Replace
        } else {
            OverwritePolicy::KeepExisting
        }
    }

    /// The policy for files that exist.
    pub fn policy(self) -> (r: OverwritePolicy)
        ensures
            r == self.policy_view(),
    {
        match self {
            UnpackMode::Overwrite => OverwritePolicy::Replace,
            UnpackMode::Merge | UnpackMode::DryRun => OverwritePolicy::KeepExisting,
        }
    }

    /// The mode's wire name.
    pub open spec fn name_view(self) -> Seq<char> {
        match self {
            UnpackMode::Merge => "merge"@,
            UnpackMode::Overwrite => "overwrite"@,
            UnpackMode::DryRun => "dry-run"@,
        }
    }

    /// The mode's wire name.
    pub fn as_str(self) -> (r: &'static str)
        ensures
            r@ == self.name_view(),
    {
        match self {
            UnpackMode::Merge => "merge",
            UnpackMode::Overwrite => "overwrite",
            UnpackMode::DryRun => "dry-run",
        }
    }
}

/// What the caller selects.
#[derive(Debug, Default)]
pub struct UnpackOptions {
    pub mode: UnpackMode,
    /// Where there are any, only these of the carried sections; `core` always.
    pub included: Vec<String>,
    /// Sections that stay in the pack.
    pub excluded: Vec<String>,
}

/// Something that the pack asks for and this machine cannot supply.
#[derive(Debug)]
pub struct Unresolved {
    pub kind: String,
    pub name: String,
    pub target: Option<String>,
    pub detail: Option<String>,
}

/// The content of an `Unresolved`.
#[verifier::ext_equal]
pub struct UnresolvedView {
    pub kind: Seq<char>,
    pub name: Seq<char>,
    pub target: Option<Seq<char>>,
    pub detail: Option<Seq<char>>,
}

impl View for Unresolved {
    type V = UnresolvedView;

    open spec fn view(&self) -> UnresolvedView {
        UnresolvedView {
            kind: self.kind@,
            name: self.name@,
            target: opt_text(self.target),
            detail: opt_text(self.detail),
        }
    }
}

/// What an unpack did.
#[derive(Debug)]
pub struct UnpackReport {
    pub from_source: u64,
    pub from_payload: u64,
    pub links: u64,
    pub stats: CopyStats,
    pub manifest: Option<ManifestMergeOutcome>,
    /// Packages that were here and stayed.
    pub kept_packages: u64,
    /// Links whose place was taken.
    pub kept_links: u64,
    pub skipped: Vec<SkipRecord>,
    pub unresolved: Vec<Unresolved>,
}

/// The content of an `UnpackReport`.
#[verifier::ext_equal]
pub struct ReportView {
    pub from_source: int,
    pub from_payload: int,
    pub links: int,
    pub stats: Tally,
    /// Packages added to, updated in and kept in the record, where it was
    /// merged.
    pub manifest: Option<(int, int, int)>,
    pub kept_packages: int,
    pub kept_links: int,
    pub skipped: Seq<SkipView>,
    pub unresolved: Seq<UnresolvedView>,
}

impl View for UnpackReport {
    type V = ReportView;

    open spec fn view(&self) -> ReportView {
        ReportView {
            from_source: self.from_source as int,
            from_payload: self.from_payload as int,
            links: self.links as int,
            stats: self.stats@,
            manifest: match self.manifest {
                Some(m) => Some(
                    (m.added@.len() as int, m.updated@.len() as int, m.kept@.len() as int),
                ),
                None => None,
            },
            kept_packages: self.kept_packages as int,
            kept_links: self.kept_links as int,
            skipped: skip_views(self.skipped@),
            unresolved: self.unresolved@.map_values(|u: Unresolved| u@),
        }
    }
}

impl ReportView {
    /// Nothing was done.
    pub open spec fn empty() -> ReportView {
        ReportView {
            from_source: 0,
            from_payload: 0,
            links: 0,
            stats: Tally::zero(),
            manifest: None,
            kept_packages: 0,
            kept_links: 0,
            skipped: Seq::empty(),
            unresolved: Seq::empty(),
        }
    }
}

// ─── Fetching again ─────────────────────────────────────────────

/// What is to be done with a declared package.
pub enum RefetchStep {
    /// It is here and stays.
    Keep,
    /// Its origin cannot be fetched.
    Unfetchable,
    /// It would be fetched.
    Count,
    /// It is fetched from the given URL.
    Fetch(Seq<char>),
}

/// What is to be done with a declared package.
pub open spec fn refetch_step(
    mode: UnpackMode,
    dest_exists: bool,
    url: Option<Seq<char>>,
) -> RefetchStep {
    if mode != UnpackMode::Overwrite && dest_exists {
        RefetchStep::Keep
    } else {
        match url {
            None => RefetchStep::Unfetchable,
            Some(u) => if mode == UnpackMode::DryRun {
                RefetchStep::Count
            } else {
                RefetchStep::Fetch(u)
            },
        }
    }
}

/// What stands in the place of a declared package gives way to what is fetched:
/// the pack wins, and the place is taken.
pub open spec fn replaces_place(mode: UnpackMode, dest_exists: bool) -> bool {
    mode == UnpackMode::Overwrite && dest_exists
}

/// A package that is to be fetched.
#[derive(Debug)]
pub struct Refetch {
    pub source: InstallSource,
    /// What stands in its place is replaced.
    pub replace: bool,
}

/// The record of a package whose origin cannot be fetched.
pub open spec fn unfetchable(name: Seq<char>) -> UnresolvedView {
    UnresolvedView {
        kind: "source_not_refetchable"@,
        name,
        target: None,
        detail: Some(
            "declaration carries no fetchable origin; re-pack with packages_only to carry its bytes instead"@,
        ),
    }
}

/// The record of a package whose fetch failed.
pub open spec fn fetch_failed(name: Seq<char>, cause: Seq<char>) -> UnresolvedView {
    UnresolvedView { kind: "source_fetch_failed"@, name, target: None, detail: Some(cause) }
}

/// The report after a decision on a declared package; a fetch is reported when
/// it is done.
pub open spec fn after_refetch_step(
    report: ReportView,
    name: Seq<char>,
    step: RefetchStep,
) -> ReportView {
    match step {
        RefetchStep::Keep => ReportView { kept_packages: report.kept_packages + 1, ..report },
        RefetchStep::Unfetchable => ReportView {
            unresolved: report.unresolved.push(unfetchable(name)),
            ..report
        },
        RefetchStep::Count => ReportView { from_source: report.from_source + 1, ..report },
        RefetchStep::Fetch(_) => report,
    }
}

// ─── Linking again ──────────────────────────────────────────────

/// What is to be done with a link.
#[derive(Debug, Clone, Copy, PartialEq, Eq, Structural)]
pub enum LinkStep {
    /// Its target is not here.
    Unresolved,
    /// Its place is taken and stays so.
    Keep,
    /// It would be made.
    Count,
    /// It is made.
    Create,
    /// What is in its place is removed, and it is made.
    Replace,
}

/// What is to be done with a link.
pub open spec fn link_step_of(mode: UnpackMode, target_exists: bool, occupied: bool) -> LinkStep {
    if !target_exists {
        LinkStep::Unresolved
    } else if occupied && mode != UnpackMode::Overwrite {
        LinkStep::Keep
    } else if mode == UnpackMode::DryRun {
        LinkStep::Count
    } else if occupied {
        LinkStep::Replace
    } else {
        LinkStep::Create
    }
}

/// The record of a link whose target is not here.
pub open spec fn target_missing(name: Seq<char>, target: Seq<char>) -> UnresolvedView {
    UnresolvedView {
        kind: "link_target_missing"@,
        name,
        target: Some(target),
        detail: Some(
            "clone the repository to this path, or re-point the link with alc_pkg_link"@,
        ),
    }
}

/// The report after a link was dealt with.
pub open spec fn after_link_step(
    report: ReportView,
    name: Seq<char>,
    target: Seq<char>,
    step: LinkStep,
) -> ReportView {
    match step {
        LinkStep::Unresolved => ReportView {
            unresolved: report.unresolved.push(target_missing(name, target)),
            ..report
        },
        LinkStep::Keep => ReportView { kept_links: report.kept_links + 1, ..report },
        LinkStep::Count | LinkStep::Create | LinkStep::Replace => ReportView {
            links: report.links + 1,
            ..report
        },
    }
}

impl UnpackReport {
    /// A report in which nothing was done.
    pub fn new() -> (r: UnpackReport)
        ensures
            r@ == ReportView::empty(),
    {
        let r = UnpackReport {
            from_source: 0,
            from_payload: 0,
            links: 0,
            stats: CopyStats { files: 0, bytes: 0, kept: 0 },
            manifest: None,
            kept_packages: 0,
            kept_links: 0,
            skipped: Vec::new(),
            unresolved: Vec::new(),
        };
        assert(r@ =~= ReportView::empty());
        r
    }

    /// Adds a record to the unresolved ones.
    fn push_unresolved(&mut self, u: Unresolved)
        ensures
            final(self)@ == (ReportView {
                unresolved: old(self)@.unresolved.push(u@),
                ..old(self)@
            }),
    {
        let ghost before = self@;
        self.unresolved.push(u);
        assert(self@.unresolved =~= before.unresolved.push(u@));
        assert(self@ =~= (ReportView { unresolved: before.unresolved.push(u@), ..before }));
    }

    /// Decides on a declared package. Where it is to be fetched, its source is
    /// returned, with whether what stands in its place is replaced, and the
    /// outcome is reported by `fetched`.
    pub fn decide_refetch(&mut self, pkg: &ProfilePackage, mode: UnpackMode, dest_exists: bool) -> (r:
        Option<Refetch>)
        requires
            old(self).kept_packages < u64::MAX,
            old(self).from_source < u64::MAX,
        ensures
            final(self)@ == after_refetch_step(
                old(self)@,
                pkg.name@,
                refetch_step(mode, dest_exists, refetch_url(pkg.source@)),
            ),
            match r {
                Some(f) => f.replace == replaces_place(mode, dest_exists) && match f.source {
                    InstallSource::GitUrl(u) => refetch_step(
                        mode,
                        dest_exists,
                        refetch_url(pkg.source@),
                    ) == RefetchStep::Fetch(u@),
                    InstallSource::LocalPath(_) => false,
                },
                None => !(refetch_step(mode, dest_exists, refetch_url(pkg.source@)) is Fetch),
            },
    {
        if mode != UnpackMode::Overwrite && dest_exists {
            self.kept_packages = self.kept_packages + 1;
            return None;
        }
        match refetch_source(&pkg.source) {
            None => {
                let u = Unresolved {
                    kind: "source_not_refetchable".to_owned(),
                    name: pkg.name.clone(),
                    target: None,
                    detail: Some(
                        "declaration carries no fetchable origin; re-pack with packages_only to carry its bytes instead".to_owned(),
                    ),
                };
                assert(u@ =~= unfetchable(pkg.name@));
                self.push_unresolved(u);
                None
            },
            Some(source) => {
                if mode.is_dry_run() {
                    self.from_source = self.from_source + 1;
                    None
                } else {
                    Some(Refetch { source, replace: dest_exists })
                }
            },
        }
    }

    /// Reports the outcome of a fetch: a failure concerns the one package.
    pub fn fetched(&mut self, name: &str, outcome: Result<(), String>)
        requires
            old(self).from_source < u64::MAX,
        ensures
            final(self)@ == (match outcome {
                Ok(_) => ReportView { from_source: old(self)@.from_source + 1, ..old(self)@ },
                Err(e) => ReportView {
                    unresolved: old(self)@.unresolved.push(fetch_failed(name@, e@)),
                    ..old(self)@
                },
            }),
    {
        match outcome {
            Ok(_) => {
                self.from_source = self.from_source + 1;
            },
            Err(e) => {
                let u = Unresolved {
                    kind: "source_fetch_failed".to_owned(),
                    name: name.to_owned(),
                    target: None,
                    detail: Some(e),
                };
                assert(u@ =~= fetch_failed(name@, e@));
                self.push_unresolved(u);
            },
        }
    }

    /// Decides on a link and reports it; the link is made or replaced where the
    /// step says so.
    pub fn decide_link(
        &mut self,
        link: &ProfileLink,
        mode: UnpackMode,
        target_exists: bool,
        occupied: bool,
    ) -> (r: LinkStep)
        requires
            old(self).kept_links < u64::MAX,
            old(self).links < u64::MAX,
        ensures
            r == link_step_of(mode, target_exists, occupied),
            final(self)@ == after_link_step(old(self)@, link.name@, link.target@, r),
    {
        if !target_exists {
            let u = Unresolved {
                kind: "link_target_missing".to_owned(),
                name: link.name.clone(),
                target: Some(link.target.clone()),
                detail: Some(
                    "clone the repository to this path, or re-point the link with alc_pkg_link".to_owned(),
                ),
            };
            assert(u@ =~= target_missing(link.name@, link.target@));
            self.push_unresolved(u);
            return LinkStep::Unresolved;
        }
        if occupied && mode != UnpackMode::Overwrite {
            self.kept_links = self.kept_links + 1;
            return LinkStep::Keep;
        }
        self.links = self.links + 1;
        if mode.is_dry_run() {
            LinkStep::Count
        } else if occupied {
            LinkStep::Replace
        } else {
            LinkStep::Create
        }
    }

    /// Decides on a loose file of the core section, of which `packed` is the
    /// size where the pack has it, and reports what needs no copy: what is
    /// kept, and in a dry run what would be copied. Where a copy is to be made,
    /// it is reported by `copied`.
    pub fn decide_core_file(&mut self, mode: UnpackMode, packed: Option<u64>, dest_exists: bool)
        -> (r: bool)
        requires
            core_file_stats(old(self)@.stats, mode, packed, dest_exists).fits(),
        ensures
            r == copies_core_file(mode, packed, dest_exists),
            final(self)@ == (ReportView {
                stats: core_file_stats(old(self)@.stats, mode, packed, dest_exists),
                ..old(self)@
            }),
    {
        let size: u64 = match packed {
            Some(n) => n,
            None => return false,
        };
        match crate::copy::file_step(mode.policy(), dest_exists) {
            FileStep::Keep => {
                self.stats.kept = self.stats.kept + 1;
                false
            },
            FileStep::Copy => {
                if mode.is_dry_run() {
                    self.copied(CopyStats::one_file(size));
                    false
                } else {
                    true
                }
            },
        }
    }

    /// Grafts the pack's record of packages into `local` and reports what that
    /// does. A dry run takes a copy of the record that is not written back.
    pub fn graft_manifest(&mut self, local: &mut Manifest, incoming: &Manifest, mode: UnpackMode)
        ensures
            final(local)@ == merged(old(local)@, incoming@, mode == UnpackMode::Overwrite),
            final(self)@ == (ReportView {
                manifest: Some(graft_counts(old(local)@, incoming.packages.keys(), mode)),
                ..old(self)@
            }),
    {
        let outcome = local.merge(incoming, mode == UnpackMode::Overwrite);
        assert(texts(outcome.added@).len() == outcome.added@.len());
        assert(texts(outcome.updated@).len() == outcome.updated@.len());
        assert(texts(outcome.kept@).len() == outcome.kept@.len());
        self.manifest = Some(outcome);
    }

    /// Reports sections that were asked for and that the pack does not carry,
    /// each by the place that it would have in `payload`.
    pub fn note_missing_sections(&mut self, payload: &str, sections: &[PackSection])
        ensures
            final(self)@ == (ReportView {
                skipped: old(self)@.skipped + sections@.map_values(
                    |s: PackSection| missing_section(payload@, s),
                ),
                ..old(self)@
            }),
    {
        let ghost before = self@;
        let ghost f = |s: PackSection| missing_section(payload@, s);
        let mut i: usize = 0;
        assert(before.skipped + sections@.take(0).map_values(f) =~= before.skipped);
        while i < sections.len()
            invariant
                i <= sections@.len(),
                f == (|s: PackSection| missing_section(payload@, s)),
                self@ == (ReportView {
                    skipped: before.skipped + sections@.take(i as int).map_values(f),
                    ..before
                }),
            decreases sections@.len() - i,
        {
            let s = sections[i];
            let mut reason = "section '".to_owned();
            reason.append(s.as_str());
            reason.append("' absent from the pack");
            let rec = SkipRecord { path: join(payload, s.as_str()), reason };
            let ghost sk0 = self@.skipped;
            let ghost v = rec@;
            self.skipped.push(rec);
            proof {
                assert(v == f(s));
                assert(self@.skipped =~= sk0.push(v));
                assert(self@.skipped =~= before.skipped + sections@.take(i + 1).map_values(f));
                assert(self@ =~= (ReportView {
                    skipped: before.skipped + sections@.take(i + 1).map_values(f),
                    ..before
                }));
            }
            i = i + 1;
        }
        assert(sections@.take(i as int) =~= sections@);
    }

    /// Adds the counts of a copy or of a walk.
    pub fn copied(&mut self, stats: CopyStats)
        requires
            old(self)@.stats.plus(stats@).fits(),
        ensures
            final(self)@ == (ReportView { stats: old(self)@.stats.plus(stats@), ..old(self)@ }),
    {
        let mut s = self.stats;
        s.add_assign(stats);
        self.stats = s;
    }

    /// Reports a package that the payload supplies; it counts as restored
    /// where it was not here or the pack wins.
    pub fn payload_package(&mut self, existed: bool, mode: UnpackMode)
        requires
            old(self).from_payload < u64::MAX,
        ensures
            final(self)@ == (ReportView {
                from_payload: old(self)@.from_payload + (if !existed || mode
                    == UnpackMode::Overwrite {
                    1int
                } else {
                    0
                }),
                ..old(self)@
            }),
    {
        if !existed || mode == UnpackMode::Overwrite {
            self.from_payload = self.from_payload + 1;
        }
    }
}

/// A loose file of the core section is to be copied.
pub open spec fn copies_core_file(mode: UnpackMode, packed: Option<u64>, dest_exists: bool) -> bool {
    packed is Some && mode != UnpackMode::DryRun && crate::copy::step_for(
        mode.policy_view(),
        dest_exists,
    ) == FileStep::Copy
}

/// The counts after a decision on a loose file of the core section.
pub open spec fn core_file_stats(
    stats: Tally,
    mode: UnpackMode,
    packed: Option<u64>,
    dest_exists: bool,
) -> Tally {
    match packed {
        None => stats,
        Some(bytes) => if crate::copy::step_for(mode.policy_view(), dest_exists)
            == FileStep::Keep {
            Tally { kept: stats.kept + 1, ..stats }
        } else if mode == UnpackMode::DryRun {
            stats.plus(Tally { files: 1, bytes: bytes as int, kept: 0 })
        } else {
            stats
        },
    }
}

/// How many of the packages `keys` are added to the record `local`, updated in
/// it and kept as they are.
pub open spec fn graft_counts(
    local: Map<Seq<char>, EntryView>,
    keys: Seq<Seq<char>>,
    mode: UnpackMode,
) -> (int, int, int) {
    let fresh = keys.filter(unknown_in(local)).len() as int;
    let known = keys.filter(known_in(local)).len() as int;
    if mode == UnpackMode::Overwrite {
        (fresh, known, 0)
    } else {
        (fresh, 0, known)
    }
}

/// The record of a section that was asked for and that the pack does not carry.
pub open spec fn missing_section(payload: Seq<char>, s: PackSection) -> SkipView {
    SkipView {
        path: joined_path(payload, s.name_view()),
        reason: "section '"@ + s.name_view() + "' absent from the pack"@,
    }
}

// ─── Report ─────────────────────────────────────────────────────

/// Where the contents came from: the archive and the digest that was checked,
/// where there was a checksum file, or a directory.
#[derive(Debug)]
pub enum Origin {
    Archive { path: String, verified: Option<String> },
    Directory { path: String },
}

/// The origin as a document.
pub open spec fn origin_view(o: Origin) -> JsonView {
    match o {
        Origin::Archive { path, verified } => JsonView::Object(
            seq![
                ("kind"@, JsonView::Text("archive"@)),
                ("path"@, JsonView::Text(path@)),
                ("verified"@, JsonView::Bool(verified is Some)),
                (
                    "sha256"@,
                    match verified {
                        Some(d) => JsonView::Text(d@),
                        None => JsonView::Null,
                    },
                ),
            ],
        ),
        Origin::Directory { path } => JsonView::Object(
            seq![
                ("kind"@, JsonView::Text("directory"@)),
                ("path"@, JsonView::Text(path@)),
                ("verified"@, JsonView::Bool(false)),
            ],
        ),
    }
}

/// The members for a text that may be absent: none where it is.
pub open spec fn opt_member(name: Seq<char>, t: Option<Seq<char>>) -> Seq<(Seq<char>, JsonView)> {
    match t {
        Some(x) => seq![(name, JsonView::Text(x))],
        None => Seq::empty(),
    }
}

/// An unresolved entry as a document.
pub open spec fn unresolved_json(u: UnresolvedView) -> JsonView {
    JsonView::Object(
        seq![("kind"@, JsonView::Text(u.kind)), ("name"@, JsonView::Text(u.name))] + opt_member(
            "target"@,
            u.target,
        ) + opt_member("detail"@, u.detail),
    )
}

/// The report as a document.
pub open spec fn report_view(
    origin: Origin,
    mode: UnpackMode,
    sections: Set<PackSection>,
    r: ReportView,
) -> JsonView {
    JsonView::Object(
        seq![
            (
                "status"@,
                JsonView::Text(
                    if r.unresolved.len() == 0 {
                        "ok"@
                    } else {
                        "partial"@
                    },
                ),
            ),
            ("mode"@, JsonView::Text(mode.name_view())),
            ("dry_run"@, JsonView::Bool(mode == UnpackMode::DryRun)),
            ("source"@, origin_view(origin)),
            ("sections"@, JsonView::Array(text_views(section_names(listed(sections))))),
            (
                "restored"@,
                JsonView::Object(
                    seq![
                        ("from_source"@, JsonView::UInt(r.from_source as u64)),
                        ("from_payload"@, JsonView::UInt(r.from_payload as u64)),
                        ("links"@, JsonView::UInt(r.links as u64)),
                    ],
                ),
            ),
            (
                "kept_existing"@,
                JsonView::Object(
                    seq![
                        ("files"@, JsonView::UInt(r.stats.kept as u64)),
                        ("packages"@, JsonView::UInt(r.kept_packages as u64)),
                        ("links"@, JsonView::UInt(r.kept_links as u64)),
                    ],
                ),
            ),
            (
                "manifest"@,
                match r.manifest {
                    Some((added, updated, kept)) => JsonView::Object(
                        seq![
                            ("added"@, JsonView::UInt(added as u64)),
                            ("updated"@, JsonView::UInt(updated as u64)),
                            ("kept"@, JsonView::UInt(kept as u64)),
                        ],
                    ),
                    None => JsonView::Null,
                },
            ),
            ("total_files"@, JsonView::UInt(r.stats.files as u64)),
            ("total_bytes"@, JsonView::UInt(r.stats.bytes as u64)),
            ("skipped"@, skips_json(r.skipped)),
            (
                "unresolved"@,
                JsonView::Array(r.unresolved.map_values(|u: UnresolvedView| unresolved_json(u))),
            ),
        ],
    )
}

/// An unresolved entry as a document.
fn unresolved_to_json(u: &Unresolved) -> (r: Json)
    ensures
        r@ == unresolved_json(u@),
{
    let mut o = Json::object().with("kind", Json::text(u.kind.as_str())).with(
        "name",
        Json::text(u.name.as_str()),
    );
    match &u.target {
        Some(t) => {
            o = o.with("target", Json::text(t.as_str()));
        },
        None => {},
    }
    match &u.detail {
        Some(d) => {
            o = o.with("detail", Json::text(d.as_str()));
        },
        None => {},
    }
    assert(o@.members() =~= unresolved_json(u@).members());
    o
}

/// The report as a document. `partial` says that something is unresolved.
pub fn report_json(
    origin: &Origin,
    mode: UnpackMode,
    sections: &SectionSet,
    report: &UnpackReport,
) -> (r: Json)
    ensures
        r@ == report_view(*origin, mode, sections@, report@),
{
    let source = match origin {
        Origin::Archive { path, verified } => {
            let o = Json::object().with("kind", Json::text("archive")).with(
                "path",
                Json::text(path.as_str()),
            ).with("verified", Json::Bool(verified.is_some())).with(
                "sha256",
                Json::opt_text(verified),
            );
            assert(o@.members() =~= origin_view(*origin).members());
            o
        },
        Origin::Directory { path } => {
            let o = Json::object().with("kind", Json::text("directory")).with(
                "path",
                Json::text(path.as_str()),
            ).with("verified", Json::Bool(false));
            assert(o@.members() =~= origin_view(*origin).members());
            o
        },
    };
    let in_order = sections.to_vec();
    let names = names_of_sections(in_order.as_slice());
    let restored = Json::object().with("from_source", Json::UInt(report.from_source)).with(
        "from_payload",
        Json::UInt(report.from_payload),
    ).with("links", Json::UInt(report.links));
    assert(restored@.members() =~= seq![
        ("from_source"@, JsonView::UInt(report.from_source)),
        ("from_payload"@, JsonView::UInt(report.from_payload)),
        ("links"@, JsonView::UInt(report.links)),
    ]);
    let kept = Json::object().with("files", Json::UInt(report.stats.kept)).with(
        "packages",
        Json::UInt(report.kept_packages),
    ).with("links", Json::UInt(report.kept_links));
    assert(kept@.members() =~= seq![
        ("files"@, JsonView::UInt(report.stats.kept)),
        ("packages"@, JsonView::UInt(report.kept_packages)),
        ("links"@, JsonView::UInt(report.kept_links)),
    ]);
    let manifest = match &report.manifest {
        Some(m) => {
            let o = Json::object().with("added", Json::UInt(m.added.len() as u64)).with(
                "updated",
                Json::UInt(m.updated.len() as u64),
            ).with("kept", Json::UInt(m.kept.len() as u64));
            assert(o@.members() =~= seq![
                ("added"@, JsonView::UInt(m.added@.len() as u64)),
                ("updated"@, JsonView::UInt(m.updated@.len() as u64)),
                ("kept"@, JsonView::UInt(m.kept@.len() as u64)),
            ]);
            o
        },
        None => Json::Null,
    };
    let mut unresolved: Vec<Json> = Vec::new();
    let mut i: usize = 0;
    while i < report.unresolved.len()
        invariant
            i <= report.unresolved@.len(),
            unresolved@.len() == i,
            forall|k: int|
                0 <= k < i ==> (#[trigger] unresolved@[k])@ == unresolved_json(
                    report.unresolved@[k]@,
                ),
        decreases report.unresolved@.len() - i,
    {
        unresolved.push(unresolved_to_json(&report.unresolved[i]));
        i = i + 1;
    }
    assert(views(unresolved@) =~= report@.unresolved.map_values(
        |u: UnresolvedView| unresolved_json(u),
    ));
    let status = if report.unresolved.len() == 0 {
        "ok"
    } else {
        "partial"
    };
    let r = Json::object().with("status", Json::text(status)).with(
        "mode",
        Json::text(mode.as_str()),
    ).with("dry_run", Json::Bool(mode.is_dry_run())).with("source", source).with(
        "sections",
        Json::texts(&names),
    ).with("restored", restored).with("kept_existing", kept).with("manifest", manifest).with(
        "total_files",
        Json::UInt(report.stats.files),
    ).with("total_bytes", Json::UInt(report.stats.bytes)).with(
        "skipped",
        skips_to_json(&report.skipped),
    ).with("unresolved", Json::array(unresolved));
    assert(r@.members() =~= report_view(*origin, mode, sections@, report@).members());
    r
}

// ─── Laws ───────────────────────────────────────────────────────

/// The wire name of a mode is read back as that mode.
pub proof fn law_mode_name_reads_back(m: UnpackMode)
    ensures
        mode_named(m.name_view()) == Some(m),
{
    reveal_strlit("merge");
    reveal_strlit("overwrite");
    reveal_strlit("dry-run");
    reveal_strlit("dry_run");
    assert("merge"@.len() == 5);
    assert("overwrite"@.len() == 9);
    assert("dry-run"@.len() == 7);
    assert("dry_run"@.len() == 7);
}

/// A dry run treats files that exist as a merge does.
pub proof fn law_dry_run_has_the_policy_of_merge()
    ensures
        UnpackMode::DryRun.policy_view() == UnpackMode::Merge.policy_view(),
{
}

/// A dry run reports links as a merge does, whatever is found on the machine.
pub proof fn law_dry_run_predicts_links(
    report: ReportView,
    name: Seq<char>,
    target: Seq<char>,
    target_exists: bool,
    occupied: bool,
)
    ensures
        after_link_step(
            report,
            name,
            target,
            link_step_of(UnpackMode::DryRun, target_exists, occupied),
        ) == after_link_step(
            report,
            name,
            target,
            link_step_of(UnpackMode::Merge, target_exists, occupied),
        ),
{
}

/// A dry run reports a declared package as a merge does whose fetch succeeds.
pub proof fn law_dry_run_predicts_refetch(
    report: ReportView,
    name: Seq<char>,
    dest_exists: bool,
    url: Option<Seq<char>>,
)
    ensures
        ({
            let dry = refetch_step(UnpackMode::DryRun, dest_exists, url);
            let merge = refetch_step(UnpackMode::Merge, dest_exists, url);
            let after = after_refetch_step(report, name, merge);
            after_refetch_step(report, name, dry) == (if merge is Fetch {
                ReportView { from_source: after.from_source + 1, ..after }
            } else {
                after
            })
        }),
{
}

/// A dry run reports a loose file of the core section as a merge does once its
/// copy is reported.
pub proof fn law_dry_run_predicts_core_files(stats: Tally, packed: Option<u64>, dest_exists: bool)
    ensures
        ({
            let after = core_file_stats(stats, UnpackMode::Merge, packed, dest_exists);
            core_file_stats(stats, UnpackMode::DryRun, packed, dest_exists) == (
            if copies_core_file(UnpackMode::Merge, packed, dest_exists) {
                after.plus(Tally { files: 1, bytes: packed->0 as int, kept: 0 })
            } else {
                after
            })
        }),
{
}

/// A dry run reports on the record of packages as a merge does.
pub proof fn law_dry_run_predicts_the_record(
    local: Map<Seq<char>, EntryView>,
    keys: Seq<Seq<char>>,
)
    ensures
        graft_counts(local, keys, UnpackMode::DryRun) == graft_counts(
            local,
            keys,
            UnpackMode::Merge,
        ),
{
}

/// A dry run copies no loose file, makes no link and fetches nothing.
pub proof fn law_dry_run_changes_nothing(
    target_exists: bool,
    occupied: bool,
    dest_exists: bool,
    url: Option<Seq<char>>,
    packed: Option<u64>,
)
    ensures
        !copies_core_file(UnpackMode::DryRun, packed, dest_exists),
        link_step_of(UnpackMode::DryRun, target_exists, occupied) != LinkStep::Create,
        link_step_of(UnpackMode::DryRun, target_exists, occupied) != LinkStep::Replace,
        !(refetch_step(UnpackMode::DryRun, dest_exists, url) is Fetch),
{
}

/// Where the pack wins, a declared package that can be fetched is fetched and
/// put in its place, whatever stands there.
pub proof fn law_overwrite_replaces_packages(url: Seq<char>, source: InstallSource, dest_exists: bool)
    ensures
        refetch_step(UnpackMode::Overwrite, dest_exists, Some(url)) == RefetchStep::Fetch(url),
        copy_step_of(
            source,
            dest_exists,
            replaces_place(UnpackMode::Overwrite, dest_exists),
        ) == Some(
            if dest_exists {
                CopyStep::Replace
            } else {
                CopyStep::Copy
            },
        ),
{
}

/// A merge never replaces what stands in the place of a link or of a package.
pub proof fn law_merge_replaces_nothing(target_exists: bool, url: Option<Seq<char>>)
    ensures
        link_step_of(UnpackMode::Merge, target_exists, true) != LinkStep::Replace,
        link_step_of(UnpackMode::Merge, target_exists, true) != LinkStep::Create,
        refetch_step(UnpackMode::Merge, true, url) == RefetchStep::Keep,
{
}

} // verus!
