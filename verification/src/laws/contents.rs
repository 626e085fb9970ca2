//! What the contents of values hold.

use vstd::prelude::*;
use crate::copy::{skip_views, CopyStats, SkipRecord};
use crate::doctor::{DoctorBuckets, DoctorOutcome, OutcomeView};
use crate::env::{listed_names, pair_views, EnvPlan};
use crate::health::{check_views, finding_views, places, Finding, PathCheck};
use crate::install::{lock_views, Batch};
use crate::json::{member_views, read_view, views, Json, JsonView};
use crate::list::{draft_views, opt_texts, Draft, ListEntry, ProjectInfo};
use crate::logs::outcome_view;
use crate::manifest::{Manifest, ManifestEntry};
use crate::migrate::{TomlItem, TomlView};
use crate::pack::{Classified, Travel, TravelView};
use crate::pool::StopReport;
use crate::profile::{ProfileLink, ProfilePackage, ProfilePayload};
use crate::repair::{Buckets, PlanView, RepairPlan};
use crate::scenarios::ScenarioReport;
use crate::source::{InstallSource, LockPackage};
use crate::stats::{SessionFigures, StrategyTotals};
use crate::testing::{resolved_views, ResolvedSearchPath};
use crate::text::{opt_str, opt_text, texts};
use crate::unpack::{Unresolved, UnpackReport};

verus! {

/// Texts, with or without a value, are told as they are and in their order.
pub proof fn law_texts_are_told_as_they_are(
    v: Seq<String>,
    o: Option<String>,
    b: Option<&str>,
    l: Option<Vec<String>>,
    r: Result<String, String>,
)
    ensures
        texts(v) == Seq::new(v.len(), |i: int| v[i]@),
        o is None <==> opt_text(o) is None,
        o matches Some(t) ==> opt_text(o) == Some(t@),
        b is None <==> opt_str(b) is None,
        b matches Some(t) ==> opt_str(b) == Some(t@),
        l is None <==> opt_texts(l) is None,
        l matches Some(x) ==> opt_texts(l) == Some(texts(x@)),
        r matches Ok(t) ==> outcome_view(r) == Ok::<Seq<char>, Seq<char>>(t@),
        r matches Err(t) ==> outcome_view(r) == Err::<Seq<char>, Seq<char>>(t@),
{
    assert(texts(v) =~= Seq::new(v.len(), |i: int| v[i]@));
}

/// Lists are told item by item, in their order.
pub proof fn law_lists_are_told_in_order(
    skips: Seq<SkipRecord>,
    pairs: Seq<(String, String)>,
    findings: Seq<Finding>,
    checks: Seq<PathCheck>,
    locked: Seq<LockPackage>,
    drafts: Seq<Draft>,
    found: Seq<ResolvedSearchPath>,
    numbers: Seq<usize>,
)
    ensures
        skip_views(skips) == Seq::new(skips.len(), |i: int| skips[i]@),
        pair_views(pairs) == Seq::new(pairs.len(), |i: int| (pairs[i].0@, pairs[i].1@)),
        finding_views(findings) == Seq::new(findings.len(), |i: int| findings[i]@),
        check_views(checks) == Seq::new(checks.len(), |i: int| (checks[i].name@, checks[i].path@)),
        lock_views(locked) == Seq::new(locked.len(), |i: int| locked[i]@),
        draft_views(drafts) == Seq::new(drafts.len(), |i: int| drafts[i]@),
        resolved_views(found) == Seq::new(found.len(), |i: int| found[i]@),
        places(numbers) == Seq::new(numbers.len(), |i: int| numbers[i] as int),
{
    assert(skip_views(skips) =~= Seq::new(skips.len(), |i: int| skips[i]@));
    assert(pair_views(pairs) =~= Seq::new(pairs.len(), |i: int| (pairs[i].0@, pairs[i].1@)));
    assert(finding_views(findings) =~= Seq::new(findings.len(), |i: int| findings[i]@));
    assert(check_views(checks) =~= Seq::new(
        checks.len(),
        |i: int| (checks[i].name@, checks[i].path@),
    ));
    assert(lock_views(locked) =~= Seq::new(locked.len(), |i: int| locked[i]@));
    assert(draft_views(drafts) =~= Seq::new(drafts.len(), |i: int| drafts[i]@));
    assert(resolved_views(found) =~= Seq::new(found.len(), |i: int| found[i]@));
    assert(places(numbers) =~= Seq::new(numbers.len(), |i: int| numbers[i] as int));
}

/// Documents and their members are told one by one, in their order, each by what it
/// is and what it holds.
pub proof fn law_documents_are_told_as_they_are(
    j: Json,
    v: Seq<Json>,
    ms: Seq<(String, Json)>,
    r: Result<Json, String>,
)
    ensures
        views(v) == Seq::new(v.len(), |i: int| v[i]@),
        member_views(ms) == Seq::new(ms.len(), |i: int| (ms[i].0@, ms[i].1@)),
        j is Null ==> j@ is Null,
        j matches Json::Bool(b) ==> j@ == JsonView::Bool(b),
        j matches Json::UInt(n) ==> j@ == JsonView::UInt(n),
        j matches Json::NegInt(n) ==> j@ == JsonView::NegInt(n),
        j matches Json::Float(n) ==> j@ == JsonView::Float(n),
        j matches Json::Text(t) ==> j@ == JsonView::Text(t@),
        j matches Json::Array(a) ==> j@ == JsonView::Array(views(a@)),
        j matches Json::Object(o) ==> j@ == JsonView::Object(member_views(o@)),
        r matches Ok(d) ==> read_view(r) == Ok::<JsonView, Seq<char>>(d@),
        r matches Err(e) ==> read_view(r) == Err::<JsonView, Seq<char>>(e@),
{
    assert(views(v) =~= Seq::new(v.len(), |i: int| v[i]@));
    assert(member_views(ms) =~= Seq::new(ms.len(), |i: int| (ms[i].0@, ms[i].1@)));
    if let Json::Array(a) = j {
        assert(j@->Array_0 =~= views(a@));
    }
    if let Json::Object(o) = j {
        assert(j@->Object_0 =~= member_views(o@));
    }
}

/// A TOML document is told by what it is and what it holds, in order.
pub proof fn law_toml_is_told_as_it_is(d: TomlItem)
    ensures
        d matches TomlItem::Text(t) ==> d@ == TomlView::Text(t@),
        d matches TomlItem::Integer(n) ==> d@ == TomlView::Integer(n),
        d matches TomlItem::Bool(b) ==> d@ == TomlView::Bool(b),
        d is Float ==> d@ is Float,
        d is Datetime ==> d@ is Datetime,
        d matches TomlItem::Array(v) ==> d@ == TomlView::Array(
            Seq::new(v@.len(), |i: int| v@[i]@),
        ),
        d matches TomlItem::Table(v) ==> d@ == TomlView::Table(
            Seq::new(v@.len(), |i: int| (v@[i].0@, v@[i].1@)),
        ),
{
    if let TomlItem::Array(v) = d {
        assert(d@->Array_0 =~= Seq::new(v@.len(), |i: int| v@[i]@));
    }
    if let TomlItem::Table(v) = d {
        assert(d@->Table_0 =~= Seq::new(v@.len(), |i: int| (v@[i].0@, v@[i].1@)));
    }
}

/// An entry of the list is told with all that it holds.
pub proof fn law_list_entries_are_told_as_they_are(e: ListEntry, d: Draft, p: ProjectInfo)
    ensures
        e@.name == e.name@ && e@.scope == e.scope && e@.active == e.active && e@.meta == e.meta@,
        e@.source_type == opt_text(e.source_type),
        e@.path == opt_text(e.path),
        e@.source == opt_text(e.source),
        e@.version == opt_text(e.version),
        e@.installed_at == opt_text(e.installed_at),
        e@.updated_at == opt_text(e.updated_at),
        e@.install_source == opt_text(e.install_source),
        e@.error == opt_text(e.error),
        e@.link_target == opt_text(e.link_target),
        e@.resolved_source_path == opt_text(e.resolved_source_path),
        e@.overrides == opt_texts(e.overrides) && e@.override_paths == opt_texts(e.override_paths),
        e@.linked == e.linked && e@.broken == e.broken,
        e@.resolved_source_kind == e.resolved_source_kind,
        d@.entry == d.entry@ && d@.candidate == opt_text(d.candidate) && d@.shadowed == texts(
            d.shadowed@,
        ),
        p@.version == opt_text(p.version) && p@.source_type == p.source_type@ && p@.path == opt_text(
            p.path,
        ),
{
}

/// What is recorded of packages is told with all that it holds.
pub proof fn law_records_are_told_as_they_are(
    e: ManifestEntry,
    m: Manifest,
    name: Seq<char>,
    l: LockPackage,
    b: Batch,
)
    ensures
        e@.version == opt_text(e.version) && e@.source == e.source@ && e@.installed_at
            == e.installed_at@ && e@.updated_at == e.updated_at@,
        m@.dom().contains(name) <==> m.packages@.dom().contains(name),
        m@.dom().contains(name) ==> m@[name] == m.packages@[name]@,
        l@.name == l.name@ && l@.version == opt_text(l.version) && l@.source == l.source@,
        b@.installed == texts(b.installed@) && b@.present == texts(b.present@),
{
}

/// What travels in a pack is told with all that it holds.
pub proof fn law_packed_things_are_told_as_they_are(
    t: Travel,
    c: Classified,
    p: ProfilePackage,
    y: ProfilePayload,
    l: ProfileLink,
    s: SkipRecord,
    n: CopyStats,
)
    ensures
        t is Ignored ==> t@ is Ignored,
        t matches Travel::Skipped(x) ==> t@ == TravelView::Skipped(x@),
        t matches Travel::Link(x) ==> t@ == TravelView::Link(x@),
        t matches Travel::BadLink(x) ==> t@ == TravelView::BadLink(x@),
        t matches Travel::Declared(x) ==> t@ == TravelView::Declared(x@),
        t matches Travel::Payload(x) ==> t@ == TravelView::Payload(x@),
        c@.declared == Seq::new(c.declared@.len(), |i: int| c.declared@[i]@),
        c@.payloads == Seq::new(c.payloads@.len(), |i: int| c.payloads@[i]@),
        c@.links == Seq::new(c.links@.len(), |i: int| c.links@[i]@),
        c@.skipped == skip_views(c.skipped@),
        p@.name == p.name@ && p@.version == opt_text(p.version) && p@.source == p.source@,
        y@.name == y.name@ && y@.reason == y.reason,
        l@.name == l.name@ && l@.target == l.target@ && l@.status_at_pack == l.status_at_pack,
        s@.path == s.path@ && s@.reason == s.reason@,
        n@.files == n.files && n@.bytes == n.bytes && n@.kept == n.kept,
{
    assert(c@.declared =~= Seq::new(c.declared@.len(), |i: int| c.declared@[i]@));
    assert(c@.payloads =~= Seq::new(c.payloads@.len(), |i: int| c.payloads@[i]@));
    assert(c@.links =~= Seq::new(c.links@.len(), |i: int| c.links@[i]@));
}

/// What came of a restore is told with all that it holds.
pub proof fn law_restores_are_told_as_they_are(r: UnpackReport, u: Unresolved)
    ensures
        r@.from_source == r.from_source && r@.from_payload == r.from_payload && r@.links == r.links,
        r@.stats == r.stats@ && r@.kept_packages == r.kept_packages && r@.kept_links == r.kept_links,
        r@.skipped == skip_views(r.skipped@),
        r@.unresolved == Seq::new(r.unresolved@.len(), |i: int| r.unresolved@[i]@),
        r.manifest is None <==> r@.manifest is None,
        r.manifest matches Some(m) ==> r@.manifest == Some(
            (m.added@.len() as int, m.updated@.len() as int, m.kept@.len() as int),
        ),
        u@.kind == u.kind@ && u@.name == u.name@ && u@.target == opt_text(u.target) && u@.detail
            == opt_text(u.detail),
{
    assert(r@.unresolved =~= Seq::new(r.unresolved@.len(), |i: int| r.unresolved@[i]@));
}

/// What is found of packages is told with all that it holds.
pub proof fn law_findings_are_told_as_they_are(
    f: Finding,
    o: DoctorOutcome,
    b: DoctorBuckets,
    p: RepairPlan,
    r: Buckets,
)
    ensures
        f@.name == f.name@ && f@.kind == f.kind@ && f@.scope == opt_str(f.scope) && f@.reason
            == f.reason@ && f@.suggestion == f.suggestion@,
        o is Healthy ==> o@ is Healthy,
        o matches DoctorOutcome::SymlinkDangling { reason, suggestion } ==> o@
            == OutcomeView::SymlinkDangling(reason@, suggestion@),
        o matches DoctorOutcome::InstalledMissing { reason, suggestion } ==> o@
            == OutcomeView::InstalledMissing(reason@, suggestion@),
        o matches DoctorOutcome::IncompletePkg { missing_subs, suggestion } ==> o@
            == OutcomeView::IncompletePkg(texts(missing_subs@), suggestion@),
        b@.healthy == views(b.healthy@) && b@.installed_missing == views(b.installed_missing@)
            && b@.symlink_dangling == views(b.symlink_dangling@) && b@.path_missing == views(
            b.path_missing@,
        ) && b@.incomplete_pkg == views(b.incomplete_pkg@),
        p is Skip ==> p@ is Skip,
        p matches RepairPlan::Install(InstallSource::LocalPath(x)) ==> p@ == PlanView::InstallLocal(
            x@,
        ),
        p matches RepairPlan::Install(InstallSource::GitUrl(x)) ==> p@ == PlanView::InstallGit(x@),
        p matches RepairPlan::Unrepairable { kind, reason, suggestion } ==> p@
            == PlanView::Unrepairable(kind@, reason@, suggestion@),
        r@.repaired == views(r.repaired@) && r@.skipped == views(r.skipped@) && r@.unrepairable
            == views(r.unrepairable@) && r@.failed == views(r.failed@),
{
}

/// Reports, plans and sums are told with all that they hold.
pub proof fn law_sums_are_told_as_they_are(
    f: SessionFigures,
    t: StrategyTotals,
    s: StopReport,
    c: ScenarioReport,
    p: EnvPlan,
    r: ResolvedSearchPath,
)
    ensures
        f@.strategy == f.strategy@ && f@.elapsed_ms == f.elapsed_ms && f@.llm_calls == f.llm_calls
            && f@.rounds == f.rounds && f@.prompt_chars == f.prompt_chars && f@.response_chars
            == f.response_chars && f@.prompt_tokens == f.prompt_tokens && f@.response_tokens
            == f.response_tokens,
        t@.count == t.count && t@.elapsed_ms == t.elapsed_ms && t@.llm_calls == t.llm_calls
            && t@.rounds == t.rounds && t@.prompt_chars == t.prompt_chars && t@.response_chars
            == t.response_chars && t@.prompt_tokens == t.prompt_tokens && t@.response_tokens
            == t.response_tokens,
        s@.stopped == texts(s.stopped@) && s@.errors == texts(s.errors@),
        c@.installed == texts(c.installed@) && c@.skipped == texts(c.skipped@) && c@.failures
            == texts(c.failures@),
        p@.inject == pair_views(p.inject@) && p@.dotenv == opt_text(p.dotenv) && p@.allow_os
            == p.allow_os,
        r@.name == r.name@ && r@.search_dir == r.search_dir@ && r@.source == r.source,
{
}

/// Where there is a list of names it is told, and else that there is none.
pub proof fn law_listed_names_are_told(allow: Option<&Vec<String>>)
    ensures
        allow is None <==> listed_names(allow) is None,
        allow matches Some(v) ==> listed_names(allow) == Some(texts(v@)),
{
}

} // verus!
