//! How the entries of the packages directory travel, and what is told of a pack.

use vstd::prelude::*;
use crate::copy::{CopyStats, SkipView, Tally};
use crate::json::{law_set_reads_back, member, text_views, JsonView};
use crate::laws::tools::says;
use crate::manifest::EntryView;
use crate::pack::{
    absent_file, absent_section, by_section, classified, live_count, present_section, section_names,
    skips_json, summary_view, total_of, travel_of, ClassifiedView, CoreFile, PackOptions,
    PackageFact, SectionProbe, StatFact, TravelView,
};
use crate::profile::{LinkStatus, PayloadReason, ProfileLinkView};
use crate::sections::{PackSection, FORMAT_VERSION};
use crate::text::texts;

verus! {

/// An entry is asked for where no packages are named, or where it is one of them.
pub open spec fn is_asked_for(opts: PackOptions, f: PackageFact) -> bool {
    opts.packages_only@.len() == 0 || exists|i: int|
        0 <= i < opts.packages_only@.len() && (#[trigger] opts.packages_only@[i])@ == f.name@
}

/// An entry is left out where the caller names it among those to leave out.
pub open spec fn is_left_out(opts: PackOptions, f: PackageFact) -> bool {
    exists|i: int|
        0 <= i < opts.packages_exclude@.len() && (#[trigger] opts.packages_exclude@[i])@ == f.name@
}

proof fn lemma_is_named(names: Seq<String>, name: Seq<char>)
    ensures
        texts(names).contains(name) <==> exists|i: int|
            0 <= i < names.len() && (#[trigger] names[i])@ == name,
{
    if texts(names).contains(name) {
        let i = choose|i: int| 0 <= i < texts(names).len() && texts(names)[i] == name;
        assert(names[i]@ == name);
    }
    if exists|i: int| 0 <= i < names.len() && (#[trigger] names[i])@ == name {
        let i = choose|i: int| 0 <= i < names.len() && (#[trigger] names[i])@ == name;
        assert(texts(names)[i] == name);
    }
}

/// How every entry travels: one that is not asked for does not; one that is left
/// out, cannot be examined, or is neither a directory nor a link is skipped; a
/// link travels by its target; a directory by the declaration of its origin where
/// that is a repository or the program itself, and as bytes where it is not.
pub proof fn law_how_entries_travel(
    opts: PackOptions,
    manifest: Map<Seq<char>, EntryView>,
    f: PackageFact,
)
    ensures
        ({
            let t = travel_of(opts, manifest, f);
            let asked = is_asked_for(opts, f);
            let taken = asked && !is_left_out(opts, f);
            let recorded = manifest.dom().contains(f.name@);
            let source = manifest[f.name@].source;
            let fetchable = recorded && (source is Git || source is Bundled);
            &&& t is Ignored <==> !asked
            &&& t is Skipped <==> asked && (is_left_out(opts, f) || f.stat is Failed || f.stat
                is Other)
            &&& t is Link <==> taken && f.stat is Link && f.stat->target is Ok
            &&& t is BadLink <==> taken && f.stat is Link && f.stat->target is Err
            &&& t is Declared <==> taken && f.stat is Directory && fetchable
            &&& t is Payload <==> taken && f.stat is Directory && !fetchable
        }),
{
    lemma_is_named(opts.packages_only@, f.name@);
    lemma_is_named(opts.packages_exclude@, f.name@);
}

/// What travels is told as it is: a link with its name, its target and whether
/// that is there, a declaration with the recorded version and origin, bytes with
/// the reason for them, what is skipped with its path.
pub proof fn law_what_travels_is_told_as_it_is(
    opts: PackOptions,
    manifest: Map<Seq<char>, EntryView>,
    f: PackageFact,
)
    ensures
        ({
            let t = travel_of(opts, manifest, f);
            let recorded = manifest.dom().contains(f.name@);
            let entry = manifest[f.name@];
            &&& t matches TravelView::Link(l) ==> l.name == f.name@ && (f.stat->target matches Ok(
                x,
            ) && l.target == x@) && (l.status_at_pack == LinkStatus::Live <==> f.stat->alive) && (
            l.status_at_pack == LinkStatus::Dangling <==> !f.stat->alive)
            &&& t matches TravelView::BadLink(m) ==> (f.stat->target matches Err(e) && m
                == "failed to read link "@ + f.path@ + ": "@ + e@)
            &&& t matches TravelView::Declared(p) ==> p.name == f.name@ && p.version
                == entry.version && p.source == entry.source
            &&& t matches TravelView::Payload(p) ==> p.name == f.name@ && (p.reason
                == PayloadReason::Unregistered <==> !recorded) && (p.reason
                == PayloadReason::SourcePath <==> recorded && entry.source is Path) && (p.reason
                == PayloadReason::Opaque <==> recorded && !(entry.source is Path))
            &&& t matches TravelView::Skipped(s) ==> s.path == f.path@ && (if is_left_out(opts, f) {
                s.reason == "excluded by packages_exclude"@
            } else {
                match f.stat {
                    StatFact::Failed(e) => s.reason == "cannot stat: "@ + e@,
                    _ => s.reason == "not a directory or symlink"@,
                }
            })
        }),
{
    lemma_is_named(opts.packages_only@, f.name@);
    lemma_is_named(opts.packages_exclude@, f.name@);
}

/// One more entry is added to the list of the way it travels, behind those before
/// it, and to no other.
pub proof fn law_entries_go_to_their_lists(
    opts: PackOptions,
    manifest: Map<Seq<char>, EntryView>,
    facts: Seq<PackageFact>,
    f: PackageFact,
)
    ensures
        ({
            let before = classified(opts, manifest, facts);
            let after = classified(opts, manifest, facts.push(f));
            let t = travel_of(opts, manifest, f);
            &&& after.declared == (match t {
                TravelView::Declared(p) => before.declared.push(p),
                _ => before.declared,
            })
            &&& after.payloads == (match t {
                TravelView::Payload(p) => before.payloads.push(p),
                _ => before.payloads,
            })
            &&& after.links == (match t {
                TravelView::Link(l) => before.links.push(l),
                _ => before.links,
            })
            &&& after.skipped == (match t {
                TravelView::Skipped(s) => before.skipped.push(s),
                _ => before.skipped,
            })
        }),
        classified(opts, manifest, Seq::empty()) == (ClassifiedView {
            declared: Seq::empty(),
            payloads: Seq::empty(),
            links: Seq::empty(),
            skipped: Seq::empty(),
        }),
{
    assert(facts.push(f).drop_last() =~= facts);
}

/// A section is carried exactly where the machine has something of it, and told
/// as absent where it has not; so is a loose file.
pub proof fn law_what_is_there_is_carried(p: SectionProbe, f: CoreFile)
    ensures
        present_section(p) == (if p.filled {
            Some(p.section)
        } else {
            None::<PackSection>
        }),
        absent_section(p) is None <==> p.filled,
        absent_section(p) matches Some(s) ==> s.path == p.path@ && s.reason == "section '"@
            + p.section.name_view() + "' absent on source machine"@,
        absent_file(f) is None <==> f.exists,
        absent_file(f) matches Some(s) ==> s.path == f.path@ && s.reason
            == "absent on source machine"@,
{
}

/// Every link is counted as one whose target is there, or not.
pub proof fn law_every_live_link_is_counted(links: Seq<ProfileLinkView>, l: ProfileLinkView)
    ensures
        live_count(Seq::empty()) == 0,
        l.status_at_pack == LinkStatus::Live ==> live_count(links.push(l)) == live_count(links) + 1,
        l.status_at_pack == LinkStatus::Dangling ==> live_count(links.push(l)) == live_count(links),
{
    assert(links.push(l).drop_last() =~= links);
}

/// The counts of every section add to the total.
pub proof fn law_every_section_adds_to_the_total(
    stats: Seq<(PackSection, CopyStats)>,
    s: PackSection,
    x: CopyStats,
)
    ensures
        total_of(Seq::empty()) == (Tally { files: 0, bytes: 0, kept: 0 }),
        total_of(stats.push((s, x))).files == total_of(stats).files + x.files,
        total_of(stats.push((s, x))).bytes == total_of(stats).bytes + x.bytes,
        total_of(stats.push((s, x))).kept == total_of(stats).kept + x.kept,
{
    assert(stats.push((s, x)).drop_last() =~= stats);
}

/// Each section is told with its files and bytes, and telling of one leaves the
/// others as they were told.
pub proof fn law_every_section_is_told(
    stats: Seq<(PackSection, CopyStats)>,
    s: PackSection,
    x: CopyStats,
    other: Seq<char>,
)
    ensures
        by_section(Seq::empty()).len() == 0,
        member(by_section(stats.push((s, x))), s.name_view()) matches Some(doc) && says(
            doc,
            "files"@,
            JsonView::UInt(x.files),
        ) && says(doc, "bytes"@, JsonView::UInt(x.bytes)) && doc.members().len() == 2,
        other != s.name_view() ==> member(by_section(stats.push((s, x))), other) == member(
            by_section(stats),
            other,
        ),
{
    let all = stats.push((s, x));
    assert(all.drop_last() =~= stats);
    let doc = JsonView::Object(
        seq![("files"@, JsonView::UInt(x.files)), ("bytes"@, JsonView::UInt(x.bytes))],
    );
    law_set_reads_back(by_section(stats), s.name_view(), doc, s.name_view());
    law_set_reads_back(by_section(stats), s.name_view(), doc, other);
    assert(doc.members()[0] == ("files"@, JsonView::UInt(x.files)));
    assert(doc.members()[1] == ("bytes"@, JsonView::UInt(x.bytes)));
}

/// Every record of what was skipped is told with its path and its reason.
pub proof fn law_every_skip_is_told(v: Seq<SkipView>, i: int)
    requires
        0 <= i < v.len(),
    ensures
        skips_json(v) matches JsonView::Array(docs) && docs.len() == v.len() && says(
            docs[i],
            "path"@,
            JsonView::Text(v[i].path),
        ) && says(docs[i], "reason"@, JsonView::Text(v[i].reason)),
{
    let docs = skips_json(v)->Array_0;
    assert(docs[i].members()[0] == ("path"@, JsonView::Text(v[i].path)));
    assert(docs[i].members()[1] == ("reason"@, JsonView::Text(v[i].reason)));
}

/// The summary tells where the pack is, what it carries, how many packages travel
/// in which way, and how much was written in all.
pub proof fn law_the_summary_is_whole(
    out_dir: Seq<char>,
    sections: Seq<PackSection>,
    c: ClassifiedView,
    stats: Seq<(PackSection, CopyStats)>,
)
    ensures
        ({
            let doc = summary_view(out_dir, sections, c, stats);
            let live = live_count(c.links);
            &&& says(doc, "pack_dir"@, JsonView::Text(out_dir))
            &&& says(doc, "format_version"@, JsonView::UInt(FORMAT_VERSION as u64))
            &&& says(
                doc,
                "sections"@,
                JsonView::Array(
                    Seq::new(sections.len(), |i: int| JsonView::Text(sections[i].name_view())),
                ),
            )
            &&& says(
                doc,
                "packages"@,
                JsonView::Object(
                    seq![
                        ("declared"@, JsonView::UInt(c.declared.len() as u64)),
                        ("payload"@, JsonView::UInt(c.payloads.len() as u64)),
                        ("linked"@, JsonView::UInt(c.links.len() as u64)),
                    ],
                ),
            )
            &&& says(
                doc,
                "links"@,
                JsonView::Object(
                    seq![
                        ("live"@, JsonView::UInt(live as u64)),
                        ("dangling"@, JsonView::UInt((c.links.len() - live) as u64)),
                    ],
                ),
            )
            &&& says(doc, "bytes_by_section"@, JsonView::Object(by_section(stats)))
            &&& says(doc, "total_files"@, JsonView::UInt(total_of(stats).files as u64))
            &&& says(doc, "total_bytes"@, JsonView::UInt(total_of(stats).bytes as u64))
            &&& says(doc, "skipped"@, skips_json(c.skipped))
        }),
{
    let doc = summary_view(out_dir, sections, c, stats);
    let live = live_count(c.links);
    let ms = doc.members();
    assert(ms[0] == ("pack_dir"@, JsonView::Text(out_dir)));
    assert(ms[1] == ("format_version"@, JsonView::UInt(FORMAT_VERSION as u64)));
    assert(text_views(section_names(sections)) =~= Seq::new(
        sections.len(),
        |i: int| JsonView::Text(sections[i].name_view()),
    ));
    assert(ms[2].0 == "sections"@);
    assert(ms[3].0 == "packages"@);
    assert(ms[4].0 == "links"@);
    assert(ms[5] == ("bytes_by_section"@, JsonView::Object(by_section(stats))));
    assert(ms[6] == ("total_files"@, JsonView::UInt(total_of(stats).files as u64)));
    assert(ms[7] == ("total_bytes"@, JsonView::UInt(total_of(stats).bytes as u64)));
    assert(ms[8] == ("skipped"@, skips_json(c.skipped)));
}

} // verus!
