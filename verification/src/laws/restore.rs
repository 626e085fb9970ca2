//! What laying a pack down does, by what is found.

use vstd::prelude::*;
use crate::copy::Tally;
use crate::json::{text_views, JsonView};
use crate::laws::tools::says;
use crate::manifest::{known_in, unknown_in, EntryView};
use crate::pack::section_names;
use crate::sections::{listed, PackSection};
use crate::unpack::{
    after_link_step, after_refetch_step, copies_core_file, core_file_stats, fetch_failed,
    graft_counts, link_step_of, missing_section, origin_view, refetch_step, replaces_place,
    report_view, target_missing, unfetchable, unresolved_json, LinkStep, Origin, RefetchStep,
    ReportView, UnpackMode, UnresolvedView,
};

verus! {

/// A declared package that is not here and whose origin can be fetched is fetched
/// in every mode but a dry run, which only counts it; one that is here is kept
/// unless the pack wins; one that is to be fetched and cannot be is unresolved.
pub proof fn law_declared_packages_are_fetched(
    mode: UnpackMode,
    dest_exists: bool,
    origin: Option<Seq<char>>,
    url: Seq<char>,
)
    ensures
        refetch_step(mode, dest_exists, origin) == RefetchStep::Fetch(url) <==> origin == Some(url)
            && mode != UnpackMode::DryRun && (!dest_exists || mode == UnpackMode::Overwrite),
        refetch_step(mode, dest_exists, origin) is Count <==> origin is Some && mode
            == UnpackMode::DryRun && !dest_exists,
        refetch_step(mode, dest_exists, origin) is Keep <==> dest_exists && mode
            != UnpackMode::Overwrite,
        refetch_step(mode, dest_exists, origin) is Unfetchable <==> origin is None && (!dest_exists
            || mode == UnpackMode::Overwrite),
        replaces_place(mode, dest_exists) <==> dest_exists && mode == UnpackMode::Overwrite,
{
}

/// A package counts as restored from its source only where a dry run would
/// fetch it; what is kept and what cannot be fetched is told, and the rest of the
/// report stays.
pub proof fn law_refetch_is_reported(report: ReportView, name: Seq<char>, step: RefetchStep)
    ensures
        ({
            let after = after_refetch_step(report, name, step);
            &&& after.from_source == report.from_source + (if step is Count {
                1int
            } else {
                0
            })
            &&& after.kept_packages == report.kept_packages + (if step is Keep {
                1int
            } else {
                0
            })
            &&& step is Unfetchable ==> after.unresolved == report.unresolved.push(
                unfetchable(name),
            )
            &&& !(step is Unfetchable) ==> after.unresolved == report.unresolved
            &&& after.links == report.links && after.kept_links == report.kept_links
            &&& after.from_payload == report.from_payload && after.stats == report.stats
            &&& after.manifest == report.manifest && after.skipped == report.skipped
        }),
{
}

/// What is unresolved names the package or the link, and a link its target and a
/// failed fetch its cause.
pub proof fn law_unresolved_names_what_is_meant(
    name: Seq<char>,
    target: Seq<char>,
    cause: Seq<char>,
)
    ensures
        unfetchable(name).name == name && unfetchable(name).kind == "source_not_refetchable"@,
        fetch_failed(name, cause).name == name && fetch_failed(name, cause).kind
            == "source_fetch_failed"@ && fetch_failed(name, cause).detail == Some(cause),
        target_missing(name, target).name == name && target_missing(name, target).kind
            == "link_target_missing"@ && target_missing(name, target).target == Some(target),
{
}

/// A link is unresolved exactly where its target is not here; it is kept where
/// its place is taken and the pack does not win; else it is made, in place of
/// what stands there, and a dry run only counts it.
pub proof fn law_links_are_made(mode: UnpackMode, target_exists: bool, occupied: bool)
    ensures
        link_step_of(mode, target_exists, occupied) == LinkStep::Unresolved <==> !target_exists,
        link_step_of(mode, target_exists, occupied) == LinkStep::Keep <==> target_exists && occupied
            && mode != UnpackMode::Overwrite,
        link_step_of(mode, target_exists, occupied) == LinkStep::Create <==> target_exists
            && !occupied && mode != UnpackMode::DryRun,
        link_step_of(mode, target_exists, occupied) == LinkStep::Replace <==> target_exists
            && occupied && mode == UnpackMode::Overwrite,
        link_step_of(mode, target_exists, occupied) == LinkStep::Count <==> target_exists
            && !occupied && mode == UnpackMode::DryRun,
{
}

/// A link counts exactly where it is or would be made; one that is kept and one
/// that is unresolved is told, and the rest of the report stays.
pub proof fn law_links_are_reported(
    report: ReportView,
    name: Seq<char>,
    target: Seq<char>,
    step: LinkStep,
)
    ensures
        ({
            let after = after_link_step(report, name, target, step);
            let made = step == LinkStep::Count || step == LinkStep::Create || step
                == LinkStep::Replace;
            &&& after.links == report.links + (if made {
                1int
            } else {
                0
            })
            &&& after.kept_links == report.kept_links + (if step == LinkStep::Keep {
                1int
            } else {
                0
            })
            &&& step == LinkStep::Unresolved ==> after.unresolved == report.unresolved.push(
                target_missing(name, target),
            )
            &&& step != LinkStep::Unresolved ==> after.unresolved == report.unresolved
            &&& after.from_source == report.from_source && after.from_payload == report.from_payload
            &&& after.kept_packages == report.kept_packages && after.stats == report.stats
            &&& after.manifest == report.manifest && after.skipped == report.skipped
        }),
{
}

/// A loose file of the pack is copied where its place is free or the pack wins,
/// and never in a dry run; where it is not copied it is kept or, in a dry run,
/// counted with its bytes.
pub proof fn law_core_files_are_copied(
    stats: Tally,
    mode: UnpackMode,
    packed: Option<u64>,
    dest_exists: bool,
)
    ensures
        copies_core_file(mode, packed, dest_exists) <==> packed is Some && mode
            != UnpackMode::DryRun && (!dest_exists || mode == UnpackMode::Overwrite),
        ({
            let after = core_file_stats(stats, mode, packed, dest_exists);
            let kept = packed is Some && dest_exists && mode != UnpackMode::Overwrite;
            let counted = packed is Some && !dest_exists && mode == UnpackMode::DryRun;
            &&& after.kept == stats.kept + (if kept {
                1int
            } else {
                0
            })
            &&& after.files == stats.files + (if counted {
                1int
            } else {
                0
            })
            &&& after.bytes == stats.bytes + (if counted {
                packed->0 as int
            } else {
                0
            })
        }),
{
}

/// Every package of the pack's record is accounted for: added where it was not
/// recorded, and else updated where the pack wins and kept where it does not.
pub proof fn law_the_record_is_grafted_whole(
    local: Map<Seq<char>, EntryView>,
    keys: Seq<Seq<char>>,
    mode: UnpackMode,
)
    ensures
        ({
            let (added, updated, kept) = graft_counts(local, keys, mode);
            &&& added == keys.filter(|k: Seq<char>| !local.dom().contains(k)).len()
            &&& updated + kept == keys.filter(|k: Seq<char>| local.dom().contains(k)).len()
            &&& added + updated + kept == keys.len()
            &&& mode == UnpackMode::Overwrite ==> kept == 0
            &&& mode != UnpackMode::Overwrite ==> updated == 0
        }),
{
    assert(unknown_in(local) =~= (|k: Seq<char>| !local.dom().contains(k)));
    assert(known_in(local) =~= (|k: Seq<char>| local.dom().contains(k)));
    lemma_filters_add_up(keys, local);
}

proof fn lemma_filters_add_up(keys: Seq<Seq<char>>, local: Map<Seq<char>, EntryView>)
    ensures
        keys.filter(known_in(local)).len() + keys.filter(unknown_in(local)).len() == keys.len(),
    decreases keys.len(),
{
    reveal(Seq::filter);
    if keys.len() > 0 {
        lemma_filters_add_up(keys.drop_last(), local);
    }
}

/// A section that the pack lacks is told by its place and its name.
pub proof fn law_missing_sections_are_named(payload: Seq<char>, s: PackSection)
    ensures
        missing_section(payload, s).path == crate::paths::joined_path(payload, s.name_view()),
        missing_section(payload, s).reason == "section '"@ + s.name_view()
            + "' absent from the pack"@,
{
}

/// The report says what was done: `partial` exactly where something is
/// unresolved, each count under its own name, and everything that was skipped or
/// is unresolved.
pub proof fn law_restore_report_says_what_was_done(
    origin: Origin,
    mode: UnpackMode,
    sections: Set<PackSection>,
    r: ReportView,
)
    ensures
        ({
            let doc = report_view(origin, mode, sections, r);
            &&& says(doc, "status"@, JsonView::Text("ok"@)) <==> r.unresolved.len() == 0
            &&& says(doc, "status"@, JsonView::Text("partial"@)) <==> r.unresolved.len() > 0
            &&& says(doc, "mode"@, JsonView::Text(mode.name_view()))
            &&& says(doc, "dry_run"@, JsonView::Bool(mode == UnpackMode::DryRun))
            &&& says(doc, "source"@, origin_view(origin))
            &&& says(
                doc,
                "sections"@,
                JsonView::Array(text_views(section_names(listed(sections)))),
            )
            &&& says(doc, "total_files"@, JsonView::UInt(r.stats.files as u64))
            &&& says(doc, "total_bytes"@, JsonView::UInt(r.stats.bytes as u64))
            &&& says(doc, "skipped"@, crate::pack::skips_json(r.skipped))
            &&& says(
                doc,
                "unresolved"@,
                JsonView::Array(
                    Seq::new(r.unresolved.len(), |i: int| unresolved_json(r.unresolved[i])),
                ),
            )
            &&& exists|restored: JsonView| #[trigger]
                says(doc, "restored"@, restored) && says(
                    restored,
                    "from_source"@,
                    JsonView::UInt(r.from_source as u64),
                ) && says(restored, "from_payload"@, JsonView::UInt(r.from_payload as u64)) && says(
                    restored,
                    "links"@,
                    JsonView::UInt(r.links as u64),
                )
            &&& exists|kept: JsonView| #[trigger]
                says(doc, "kept_existing"@, kept) && says(
                    kept,
                    "files"@,
                    JsonView::UInt(r.stats.kept as u64),
                ) && says(kept, "packages"@, JsonView::UInt(r.kept_packages as u64)) && says(
                    kept,
                    "links"@,
                    JsonView::UInt(r.kept_links as u64),
                )
        }),
{
    reveal_strlit("ok");
    reveal_strlit("partial");
    reveal_strlit("status");
    reveal_strlit("mode");
    reveal_strlit("dry_run");
    reveal_strlit("source");
    reveal_strlit("sections");
    reveal_strlit("restored");
    reveal_strlit("kept_existing");
    reveal_strlit("manifest");
    reveal_strlit("total_files");
    reveal_strlit("total_bytes");
    reveal_strlit("skipped");
    reveal_strlit("unresolved");
    let doc = report_view(origin, mode, sections, r);
    let ms = doc.members();
    assert("ok"@.len() != "partial"@.len());
    assert(ms[0].0 == "status"@);
    assert(ms[1] == ("mode"@, JsonView::Text(mode.name_view())));
    assert(ms[2] == ("dry_run"@, JsonView::Bool(mode == UnpackMode::DryRun)));
    assert(ms[3] == ("source"@, origin_view(origin)));
    assert(ms[4].0 == "sections"@);
    let restored = ms[5].1;
    let kept = ms[6].1;
    assert(ms[5].0 == "restored"@ && ms[6].0 == "kept_existing"@);
    assert(ms[8] == ("total_files"@, JsonView::UInt(r.stats.files as u64)));
    assert(ms[9] == ("total_bytes"@, JsonView::UInt(r.stats.bytes as u64)));
    assert(ms[10] == ("skipped"@, crate::pack::skips_json(r.skipped)));
    assert(Seq::new(r.unresolved.len(), |i: int| unresolved_json(r.unresolved[i]))
        =~= r.unresolved.map_values(|u: UnresolvedView| unresolved_json(u)));
    assert(ms[11].0 == "unresolved"@);
    assert(ms[7].0 == "manifest"@);
    assert(says(doc, "restored"@, restored));
    assert(says(doc, "kept_existing"@, kept));
    let rs = restored.members();
    assert(rs[0] == ("from_source"@, JsonView::UInt(r.from_source as u64)));
    assert(rs[1] == ("from_payload"@, JsonView::UInt(r.from_payload as u64)));
    assert(rs[2] == ("links"@, JsonView::UInt(r.links as u64)));
    let ks = kept.members();
    assert(ks[0] == ("files"@, JsonView::UInt(r.stats.kept as u64)));
    assert(ks[1] == ("packages"@, JsonView::UInt(r.kept_packages as u64)));
    assert(ks[2] == ("links"@, JsonView::UInt(r.kept_links as u64)));
    assert forall|v: JsonView| says(doc, "status"@, v) implies v == ms[0].1 by {
        let i = choose|i: int| 0 <= i < ms.len() && ms[i] == ("status"@, v);
        assert("status"@.len() == 6 && "source"@.len() == 6 && "status"@[1] == 't' && "source"@[1] == 'o');
    }
}

/// The report of a merge of the records gives its three counts, and none where
/// there was none; an archive is verified exactly where its digest was checked.
pub proof fn law_restore_report_tells_record_and_origin(
    origin: Origin,
    mode: UnpackMode,
    sections: Set<PackSection>,
    r: ReportView,
)
    ensures
        r.manifest is None ==> says(
            report_view(origin, mode, sections, r),
            "manifest"@,
            JsonView::Null,
        ),
        r.manifest matches Some(m) ==> exists|counts: JsonView| #[trigger]
            says(report_view(origin, mode, sections, r), "manifest"@, counts) && says(
                counts,
                "added"@,
                JsonView::UInt(m.0 as u64),
            ) && says(counts, "updated"@, JsonView::UInt(m.1 as u64)) && says(
                counts,
                "kept"@,
                JsonView::UInt(m.2 as u64),
            ),
        match origin {
            Origin::Archive { path, verified } => says(
                origin_view(origin),
                "kind"@,
                JsonView::Text("archive"@),
            ) && says(origin_view(origin), "path"@, JsonView::Text(path@)) && says(
                origin_view(origin),
                "verified"@,
                JsonView::Bool(verified is Some),
            ) && (verified matches Some(d) ==> says(
                origin_view(origin),
                "sha256"@,
                JsonView::Text(d@),
            )),
            Origin::Directory { path } => says(
                origin_view(origin),
                "kind"@,
                JsonView::Text("directory"@),
            ) && says(origin_view(origin), "path"@, JsonView::Text(path@)) && says(
                origin_view(origin),
                "verified"@,
                JsonView::Bool(false),
            ),
        },
{
    let doc = report_view(origin, mode, sections, r);
    let ms = doc.members();
    assert(ms[7].0 == "manifest"@);
    assert(says(doc, "manifest"@, ms[7].1));
    if let Some(m) = r.manifest {
        let cs = ms[7].1.members();
        assert(cs[0] == ("added"@, JsonView::UInt(m.0 as u64)));
        assert(cs[1] == ("updated"@, JsonView::UInt(m.1 as u64)));
        assert(cs[2] == ("kept"@, JsonView::UInt(m.2 as u64)));
    }
    let os = origin_view(origin).members();
    assert(os[0].0 == "kind"@ && os[1].0 == "path"@ && os[2].0 == "verified"@);
    if let Origin::Archive { path, verified } = origin {
        assert(os[3].0 == "sha256"@);
    }
}

/// What is unresolved is told with its kind and its name, and with its target and
/// detail where it has them.
pub proof fn law_unresolved_is_told_whole(u: UnresolvedView)
    ensures
        says(unresolved_json(u), "kind"@, JsonView::Text(u.kind)),
        says(unresolved_json(u), "name"@, JsonView::Text(u.name)),
        u.target matches Some(t) ==> says(unresolved_json(u), "target"@, JsonView::Text(t)),
        u.detail matches Some(d) ==> says(unresolved_json(u), "detail"@, JsonView::Text(d)),
        unresolved_json(u).members().len() == 2 + (if u.target is Some {
            1int
        } else {
            0
        }) + (if u.detail is Some {
            1int
        } else {
            0
        }),
{
    let ms = unresolved_json(u).members();
    assert(ms[0] == ("kind"@, JsonView::Text(u.kind)));
    assert(ms[1] == ("name"@, JsonView::Text(u.name)));
    if let Some(t) = u.target {
        assert(ms[2] == ("target"@, JsonView::Text(t)));
    }
    if let Some(d) = u.detail {
        assert(ms[ms.len() - 1] == ("detail"@, JsonView::Text(d)));
    }
}

} // verus!
