//! Writing a pack: how every entry below `packages/` travels, which sections
//! are there, and what the summary says.

use vstd::prelude::*;
use crate::copy::{skip_views, CopyStats, SkipRecord, SkipView, Tally};
use crate::json::{text_views, views, with_member, Json, JsonView};
use crate::manifest::{lookup, EntryView, Manifest};
use crate::order::{is_stable_sort_of, sort_by_key, Keyed};
use crate::profile::{
    LinkStatus, PackMeta, PackProfile, PayloadReason, ProfileLink, ProfileLinkView, ProfilePackage,
    ProfilePackageView, ProfilePayload, ProfilePayloadView,
};
use crate::sections::{
    packed_sections, packing_accepted, packing_refused, resolve_sections, PackProfileError,
    PackSection, SectionSet, FORMAT_VERSION,
};
use crate::source::{PackageSource, SourceView};
use crate::text::{clone_opt, contains_name, texts};

verus! {

/// What the caller selects. Sections of the application directory and packages
/// below `packages/` are selected apart from each other.
#[derive(Debug, Default)]
pub struct PackOptions {
    pub all: bool,
    pub included: Vec<String>,
    pub excluded: Vec<String>,
    /// Where there are any, only these packages are considered.
    pub packages_only: Vec<String>,
    /// Packages that are left out.
    pub packages_exclude: Vec<String>,
}

/// What was found at an entry of `packages/`, without following a link.
#[derive(Debug)]
pub enum StatFact {
    /// The entry cannot be examined, for the given cause.
    Failed(String),
    /// A link: its target, or why it cannot be read, and whether the target is
    /// there.
    Link { target: Result<String, String>, alive: bool },
    Directory,
    Other,
}

/// An entry of `packages/`.
#[derive(Debug)]
pub struct PackageFact {
    pub name: String,
    pub path: String,
    pub stat: StatFact,
}

impl Keyed for PackageFact {
    open spec fn key_view(&self) -> Seq<char> {
        self.name@
    }

    fn key(&self) -> (r: &str) {
        self.name.as_str()
    }
}

/// How an entry travels.
#[derive(Debug)]
pub enum Travel {
    /// Not considered.
    Ignored,
    /// Left out, with the reason.
    Skipped(SkipRecord),
    /// By its target.
    Link(ProfileLink),
    /// A link that cannot be read; the pack is refused.
    BadLink(String),
    /// By the declaration of its origin.
    Declared(ProfilePackage),
    /// As bytes.
    Payload(ProfilePayload),
}

/// The content of a `Travel`.
pub enum TravelView {
    Ignored,
    Skipped(SkipView),
    Link(ProfileLinkView),
    BadLink(Seq<char>),
    Declared(ProfilePackageView),
    Payload(ProfilePayloadView),
}

impl View for Travel {
    type V = TravelView;

    open spec fn view(&self) -> TravelView {
        match self {
            Travel::Ignored => TravelView::Ignored,
            Travel::Skipped(s) => TravelView::Skipped(s@),
            Travel::Link(l) => TravelView::Link(l@),
            Travel::BadLink(m) => TravelView::BadLink(m@),
            Travel::Declared(p) => TravelView::Declared(p@),
            Travel::Payload(p) => TravelView::Payload(p@),
        }
    }
}

/// The entry is considered at all.
pub open spec fn considered(opts: PackOptions, f: PackageFact) -> bool {
    opts.packages_only@.len() == 0 || texts(opts.packages_only@).contains(f.name@)
}

/// How a directory below `packages/` travels: by declaration where the record
/// names an origin that can be fetched again, as bytes otherwise.
pub open spec fn directory_travel(name: Seq<char>, entry: Option<EntryView>) -> TravelView {
    match entry {
        Some(e) => match e.source {
            SourceView::Git(_, _) | SourceView::Bundled(_) => TravelView::Declared(
                ProfilePackageView { name, version: e.version, source: e.source },
            ),
            SourceView::Path(_) => TravelView::Payload(
                ProfilePayloadView { name, reason: PayloadReason::SourcePath },
            ),
            _ => TravelView::Payload(ProfilePayloadView { name, reason: PayloadReason::Opaque }),
        },
        None => TravelView::Payload(
            ProfilePayloadView { name, reason: PayloadReason::Unregistered },
        ),
    }
}

/// How an entry travels.
pub open spec fn travel_of(
    opts: PackOptions,
    manifest: Map<Seq<char>, EntryView>,
    f: PackageFact,
) -> TravelView {
    if !considered(opts, f) {
        TravelView::Ignored
    } else if texts(opts.packages_exclude@).contains(f.name@) {
        TravelView::Skipped(SkipView { path: f.path@, reason: "excluded by packages_exclude"@ })
    } else {
        match f.stat {
            StatFact::Failed(e) => TravelView::Skipped(
                SkipView { path: f.path@, reason: "cannot stat: "@ + e@ },
            ),
            StatFact::Link { target, alive } => match target {
                Ok(t) => TravelView::Link(
                    ProfileLinkView {
                        name: f.name@,
                        target: t@,
                        status_at_pack: if alive {
                            LinkStatus::Live
                        } else {
                            LinkStatus::Dangling
                        },
                    },
                ),
                Err(e) => TravelView::BadLink("failed to read link "@ + f.path@ + ": "@ + e@),
            },
            StatFact::Other => TravelView::Skipped(
                SkipView { path: f.path@, reason: "not a directory or symlink"@ },
            ),
            StatFact::Directory => directory_travel(f.name@, lookup(manifest, f.name@)),
        }
    }
}

/// How an entry travels.
pub fn travel(opts: &PackOptions, manifest: &Manifest, f: &PackageFact) -> (r: Travel)
    ensures
        r@ == travel_of(*opts, manifest@, *f),
{
    if opts.packages_only.len() != 0 && !contains_name(&opts.packages_only, f.name.as_str()) {
        return Travel::Ignored;
    }
    if contains_name(&opts.packages_exclude, f.name.as_str()) {
        return Travel::Skipped(
            SkipRecord {
                path: f.path.clone(),
                reason: "excluded by packages_exclude".to_owned(),
            },
        );
    }
    match &f.stat {
        StatFact::Failed(e) => {
            let mut reason = "cannot stat: ".to_owned();
            reason.append(e.as_str());
            Travel::Skipped(SkipRecord { path: f.path.clone(), reason })
        },
        StatFact::Link { target, alive } => match target {
            Ok(t) => Travel::Link(
                ProfileLink {
                    name: f.name.clone(),
                    target: t.clone(),
                    status_at_pack: if *alive {
                        LinkStatus::Live
                    } else {
                        LinkStatus::Dangling
                    },
                },
            ),
            Err(e) => {
                let mut msg = "failed to read link ".to_owned();
                msg.append(f.path.as_str());
                msg.append(": ");
                msg.append(e.as_str());
                Travel::BadLink(msg)
            },
        },
        StatFact::Other => Travel::Skipped(
            SkipRecord {
                path: f.path.clone(),
                reason: "not a directory or symlink".to_owned(),
            },
        ),
        StatFact::Directory => {
            let reason = match manifest.packages.get(f.name.as_str()) {
                None => PayloadReason::Unregistered,
                Some(e) => match &e.source {
                    PackageSource::Git { .. } | PackageSource::Bundled { .. } => {
                        let p = ProfilePackage {
                            name: f.name.clone(),
                            version: clone_opt(&e.version),
                            source: e.source.clone(),
                        };
                        return Travel::Declared(p);
                    },
                    PackageSource::Path { .. } => PayloadReason::SourcePath,
                    _ => PayloadReason::Opaque,
                },
            };
            Travel::Payload(ProfilePayload { name: f.name.clone(), reason })
        },
    }
}

/// Everything below `packages/`, by the way it travels.
#[derive(Debug)]
pub struct Classified {
    pub declared: Vec<ProfilePackage>,
    pub payloads: Vec<ProfilePayload>,
    pub links: Vec<ProfileLink>,
    pub skipped: Vec<SkipRecord>,
}

/// The contents of the four lists.
#[verifier::ext_equal]
pub struct ClassifiedView {
    pub declared: Seq<ProfilePackageView>,
    pub payloads: Seq<ProfilePayloadView>,
    pub links: Seq<ProfileLinkView>,
    pub skipped: Seq<SkipView>,
}

impl View for Classified {
    type V = ClassifiedView;

    open spec fn view(&self) -> ClassifiedView {
        ClassifiedView {
            declared: self.declared@.map_values(|p: ProfilePackage| p@),
            payloads: self.payloads@.map_values(|p: ProfilePayload| p@),
            links: self.links@.map_values(|l: ProfileLink| l@),
            skipped: skip_views(self.skipped@),
        }
    }
}

impl ClassifiedView {
    /// The lists with one more entry.
    pub open spec fn push(self, t: TravelView) -> ClassifiedView {
        match t {
            TravelView::Skipped(s) => ClassifiedView { skipped: self.skipped.push(s), ..self },
            TravelView::Link(l) => ClassifiedView { links: self.links.push(l), ..self },
            TravelView::Declared(p) => ClassifiedView { declared: self.declared.push(p), ..self },
            TravelView::Payload(p) => ClassifiedView { payloads: self.payloads.push(p), ..self },
            _ => self,
        }
    }
}

/// The four lists of `facts`, each in the order of `facts`.
pub open spec fn classified(
    opts: PackOptions,
    manifest: Map<Seq<char>, EntryView>,
    facts: Seq<PackageFact>,
) -> ClassifiedView
    decreases facts.len(),
{
    if facts.len() == 0 {
        ClassifiedView {
            declared: Seq::empty(),
            payloads: Seq::empty(),
            links: Seq::empty(),
            skipped: Seq::empty(),
        }
    } else {
        classified(opts, manifest, facts.drop_last()).push(travel_of(opts, manifest, facts.last()))
    }
}

/// `i` is the first of `facts` that refuses the pack.
pub open spec fn first_bad_link(
    opts: PackOptions,
    manifest: Map<Seq<char>, EntryView>,
    facts: Seq<PackageFact>,
    i: int,
) -> bool {
    &&& 0 <= i < facts.len()
    &&& travel_of(opts, manifest, facts[i]) is BadLink
    &&& forall|j: int|
        0 <= j < i ==> !(travel_of(opts, manifest, #[trigger] facts[j]) is BadLink)
}

/// The outcome of sorting the entries `facts` into the four lists.
pub open spec fn is_classification(
    r: Result<Classified, String>,
    opts: PackOptions,
    manifest: Map<Seq<char>, EntryView>,
    facts: Seq<PackageFact>,
) -> bool {
    match r {
        Ok(c) => {
            &&& c@ == classified(opts, manifest, facts)
            &&& forall|i: int|
                0 <= i < facts.len() ==> !(travel_of(opts, manifest, #[trigger] facts[i])
                    is BadLink)
        },
        Err(m) => exists|i: int| #[trigger]
            first_bad_link(opts, manifest, facts, i) && travel_of(opts, manifest, facts[i])
                == TravelView::BadLink(m@),
    }
}

/// Sorts every entry below `packages/` into declarations, payloads and links,
/// in the order of the names. A link that cannot be read refuses the pack.
pub fn classify_packages(
    facts: Vec<PackageFact>,
    manifest: &Manifest,
    opts: &PackOptions,
) -> (r: Result<Classified, String>)
    ensures
        exists|sorted: Seq<PackageFact>| #[trigger]
            is_stable_sort_of(sorted, facts@) && is_classification(r, *opts, manifest@, sorted),
{
    let ghost given = facts@;
    let sorted = sort_by_key(facts);
    assert(is_stable_sort_of(sorted@, given));
    let mut out = Classified {
        declared: Vec::new(),
        payloads: Vec::new(),
        links: Vec::new(),
        skipped: Vec::new(),
    };
    let mut i: usize = 0;
    assert(out@ =~= classified(*opts, manifest@, sorted@.take(0)));
    while i < sorted.len()
        invariant
            i <= sorted@.len(),
            is_stable_sort_of(sorted@, given),
            given == facts@,
            out@ == classified(*opts, manifest@, sorted@.take(i as int)),
            forall|j: int|
                0 <= j < i ==> !(travel_of(*opts, manifest@, #[trigger] sorted@[j]) is BadLink),
        decreases sorted@.len() - i,
    {
        proof {
            assert(sorted@.take(i + 1).drop_last() =~= sorted@.take(i as int));
            assert(sorted@.take(i + 1).last() == sorted@[i as int]);
        }
        let ghost before = out@;
        let t = travel(opts, manifest, &sorted[i]);
        let ghost tv = t@;
        match t {
            Travel::Ignored => {},
            Travel::Skipped(s) => {
                out.skipped.push(s);
            },
            Travel::Link(l) => {
                out.links.push(l);
            },
            Travel::BadLink(m) => {
                let r: Result<Classified, String> = Err(m);
                proof {
                    assert(first_bad_link(*opts, manifest@, sorted@, i as int));
                    assert(is_classification(r, *opts, manifest@, sorted@));
                }
                return r;
            },
            Travel::Declared(p) => {
                out.declared.push(p);
            },
            Travel::Payload(p) => {
                out.payloads.push(p);
            },
        }
        assert(out@ =~= before.push(tv));
        i = i + 1;
    }
    assert(sorted@.take(i as int) =~= sorted@);
    let r: Result<Classified, String> = Ok(out);
    assert(is_classification(r, *opts, manifest@, sorted@));
    r
}

// ─── Sections ───────────────────────────────────────────────────

/// The sections to pack, or the refusal: of the selection first, then of a
/// destination that exists.
pub fn begin_pack(opts: &PackOptions, out_dir: &str, out_exists: bool) -> (r: Result<
    SectionSet,
    String,
>)
    ensures
        match r {
            Ok(s) => {
                &&& !out_exists
                &&& packing_accepted(texts(opts.included@), texts(opts.excluded@))
                &&& s@ == packed_sections(opts.all, texts(opts.included@), texts(opts.excluded@))
            },
            Err(m) => {
                ||| exists|e: PackProfileError| #[trigger]
                    packing_refused(texts(opts.included@), texts(opts.excluded@), e) && m@
                        == e.message_view()
                ||| {
                    &&& out_exists
                    &&& packing_accepted(texts(opts.included@), texts(opts.excluded@))
                    &&& m@ == "pack destination "@ + out_dir@
                        + " already exists: choose a fresh path (packing never overwrites an existing directory)"@
                }
            },
        },
{
    match resolve_sections(opts.all, opts.included.as_slice(), opts.excluded.as_slice()) {
        Err(e) => Err(e.message()),
        Ok(s) => {
            if out_exists {
                let mut m = "pack destination ".to_owned();
                m.append(out_dir);
                m.append(
                    " already exists: choose a fresh path (packing never overwrites an existing directory)",
                );
                Err(m)
            } else {
                Ok(s)
            }
        },
    }
}

/// A directory-shaped section: its directory and whether that holds something.
#[derive(Debug)]
pub struct SectionProbe {
    pub section: PackSection,
    pub path: String,
    /// The directory is there and is not empty.
    pub filled: bool,
}

/// The record of a section of which the machine has nothing: its directory is
/// not there, or is empty.
pub open spec fn absent_section(p: SectionProbe) -> Option<SkipView> {
    if p.filled {
        None
    } else {
        Some(
            SkipView {
                path: p.path@,
                reason: "section '"@ + p.section.name_view() + "' absent on source machine"@,
            },
        )
    }
}

/// The section, where the machine has something of it.
pub open spec fn present_section(p: SectionProbe) -> Option<PackSection> {
    if p.filled {
        Some(p.section)
    } else {
        None
    }
}

/// The sections that the pack carries: `core` first, then those of `probes`
/// that hold something. The others are added to `skipped`.
pub fn present_sections(probes: &[SectionProbe], skipped: &mut Vec<SkipRecord>) -> (r: Vec<
    PackSection,
>)
    ensures
        r@ == seq![PackSection::Core] + probes@.filter_map(|p: SectionProbe| present_section(p)),
        skip_views(final(skipped)@) == skip_views(old(skipped)@) + probes@.filter_map(
            |p: SectionProbe| absent_section(p),
        ),
{
    let ghost before = skip_views(skipped@);
    let ghost ab = |p: SectionProbe| absent_section(p);
    let ghost pr = |p: SectionProbe| present_section(p);
    let mut out: Vec<PackSection> = Vec::new();
    out.push(PackSection::Core);
    let mut i: usize = 0;
    assert(probes@.take(0) =~= Seq::<SectionProbe>::empty());
    assert(before + Seq::<SkipView>::empty() =~= before);
    assert(out@ =~= seq![PackSection::Core] + Seq::<PackSection>::empty());
    while i < probes.len()
        invariant
            i <= probes@.len(),
            ab == (|p: SectionProbe| absent_section(p)),
            pr == (|p: SectionProbe| present_section(p)),
            out@ == seq![PackSection::Core] + probes@.take(i as int).filter_map(pr),
            skip_views(skipped@) == before + probes@.take(i as int).filter_map(ab),
        decreases probes@.len() - i,
    {
        proof {
            probes@.lemma_filter_map_take_succ(ab, i as int);
            probes@.lemma_filter_map_take_succ(pr, i as int);
        }
        let p = &probes[i];
        let ghost sk0 = skipped@;
        let ghost out0 = out@;
        if p.filled {
            out.push(p.section);
        } else {
            let mut reason = "section '".to_owned();
            reason.append(p.section.as_str());
            reason.append("' absent on source machine");
            skipped.push(SkipRecord { path: p.path.clone(), reason });
            assert(skip_views(skipped@) =~= skip_views(sk0).push(absent_section(*p)->0));
        }
        proof {
            assert(out@ =~= seq![PackSection::Core] + probes@.take(i + 1).filter_map(pr));
            assert(skip_views(skipped@) =~= before + probes@.take(i + 1).filter_map(ab));
        }
        i = i + 1;
    }
    assert(probes@.take(i as int) =~= probes@);
    out
}

/// A loose file of the core section: its path and whether it is there.
#[derive(Debug)]
pub struct CoreFile {
    pub path: String,
    pub exists: bool,
}

/// The record of a loose file that the machine does not have.
pub open spec fn absent_file(f: CoreFile) -> Option<SkipView> {
    if f.exists {
        None
    } else {
        Some(SkipView { path: f.path@, reason: "absent on source machine"@ })
    }
}

/// Adds a record to `skipped` for each loose file that the machine does not
/// have; the others are copied.
pub fn note_absent_files(files: &[CoreFile], skipped: &mut Vec<SkipRecord>)
    ensures
        skip_views(final(skipped)@) == skip_views(old(skipped)@) + files@.filter_map(
            |f: CoreFile| absent_file(f),
        ),
{
    let ghost before = skip_views(skipped@);
    let ghost ab = |f: CoreFile| absent_file(f);
    let mut i: usize = 0;
    assert(files@.take(0) =~= Seq::<CoreFile>::empty());
    assert(before + Seq::<SkipView>::empty() =~= before);
    while i < files.len()
        invariant
            i <= files@.len(),
            ab == (|f: CoreFile| absent_file(f)),
            skip_views(skipped@) == before + files@.take(i as int).filter_map(ab),
        decreases files@.len() - i,
    {
        proof {
            files@.lemma_filter_map_take_succ(ab, i as int);
        }
        let f = &files[i];
        let ghost sk0 = skipped@;
        if !f.exists {
            skipped.push(
                SkipRecord {
                    path: f.path.clone(),
                    reason: "absent on source machine".to_owned(),
                },
            );
            assert(skip_views(skipped@) =~= skip_views(sk0).push(absent_file(*f)->0));
        }
        assert(skip_views(skipped@) =~= before + files@.take(i + 1).filter_map(ab));
        i = i + 1;
    }
    assert(files@.take(i as int) =~= files@);
}

// ─── Summary ────────────────────────────────────────────────────

/// The links among `links` whose target is there.
pub open spec fn live_count(links: Seq<ProfileLinkView>) -> int
    decreases links.len(),
{
    if links.len() == 0 {
        0
    } else {
        live_count(links.drop_last()) + (if links.last().status_at_pack == LinkStatus::Live {
            1int
        } else {
            0
        })
    }
}

proof fn lemma_live_count(links: Seq<ProfileLinkView>)
    ensures
        0 <= live_count(links) <= links.len(),
    decreases links.len(),
{
    if links.len() > 0 {
        lemma_live_count(links.drop_last());
    }
}

/// The counts of all sections together.
pub open spec fn total_of(stats: Seq<(PackSection, CopyStats)>) -> Tally
    decreases stats.len(),
{
    if stats.len() == 0 {
        Tally::zero()
    } else {
        total_of(stats.drop_last()).plus(stats.last().1@)
    }
}

proof fn lemma_total_grows(stats: Seq<(PackSection, CopyStats)>, i: int)
    requires
        0 <= i <= stats.len(),
    ensures
        total_of(stats.take(i)).files <= total_of(stats).files,
        total_of(stats.take(i)).bytes <= total_of(stats).bytes,
        total_of(stats.take(i)).kept <= total_of(stats).kept,
    decreases stats.len(),
{
    if i == stats.len() {
        assert(stats.take(i) =~= stats);
    } else {
        lemma_total_grows(stats.drop_last(), i);
        assert(stats.drop_last().take(i) =~= stats.take(i));
    }
}

/// Files and bytes of each section, by the section's name.
pub open spec fn by_section(stats: Seq<(PackSection, CopyStats)>) -> Seq<(Seq<char>, JsonView)>
    decreases stats.len(),
{
    if stats.len() == 0 {
        Seq::empty()
    } else {
        with_member(
            by_section(stats.drop_last()),
            stats.last().0.name_view(),
            JsonView::Object(
                seq![
                    ("files"@, JsonView::UInt(stats.last().1.files)),
                    ("bytes"@, JsonView::UInt(stats.last().1.bytes)),
                ],
            ),
        )
    }
}

/// The records as a list of documents.
pub open spec fn skips_json(v: Seq<SkipView>) -> JsonView {
    JsonView::Array(
        v.map_values(
            |s: SkipView|
                JsonView::Object(
                    seq![
                        ("path"@, JsonView::Text(s.path)),
                        ("reason"@, JsonView::Text(s.reason)),
                    ],
                ),
        ),
    )
}

/// The records as a list of documents.
pub fn skips_to_json(v: &Vec<SkipRecord>) -> (r: Json)
    ensures
        r@ == skips_json(skip_views(v@)),
{
    let mut out: Vec<Json> = Vec::new();
    let mut i: usize = 0;
    while i < v.len()
        invariant
            i <= v@.len(),
            out@.len() == i,
            forall|k: int|
                0 <= k < i ==> (#[trigger] out@[k])@ == JsonView::Object(
                    seq![
                        ("path"@, JsonView::Text(v@[k].path@)),
                        ("reason"@, JsonView::Text(v@[k].reason@)),
                    ],
                ),
        decreases v@.len() - i,
    {
        let o = Json::object().with("path", Json::text(v[i].path.as_str())).with(
            "reason",
            Json::text(v[i].reason.as_str()),
        );
        assert(o@.members() =~= seq![
            ("path"@, JsonView::Text(v@[i as int].path@)),
            ("reason"@, JsonView::Text(v@[i as int].reason@)),
        ]);
        out.push(o);
        i = i + 1;
    }
    let ghost vs = out@;
    let r = Json::array(out);
    assert(JsonView::Array(views(vs)) == skips_json(skip_views(v@))) by {
        if let JsonView::Array(a) = skips_json(skip_views(v@)) {
            assert(views(vs) =~= a);
        }
    }
    r
}

/// The names of `sections` as a list of documents.
pub open spec fn section_names(sections: Seq<PackSection>) -> Seq<Seq<char>> {
    sections.map_values(|s: PackSection| s.name_view())
}

/// The names of `sections`.
pub fn names_of_sections(sections: &[PackSection]) -> (r: Vec<String>)
    ensures
        texts(r@) == section_names(sections@),
{
    let mut out: Vec<String> = Vec::new();
    let mut i: usize = 0;
    while i < sections.len()
        invariant
            i <= sections@.len(),
            out@.len() == i,
            forall|k: int| 0 <= k < i ==> (#[trigger] out@[k])@ == sections@[k].name_view(),
        decreases sections@.len() - i,
    {
        out.push(sections[i].as_str().to_owned());
        i = i + 1;
    }
    assert(texts(out@) =~= section_names(sections@));
    out
}

/// The summary of a pack.
pub open spec fn summary_view(
    out_dir: Seq<char>,
    sections: Seq<PackSection>,
    c: ClassifiedView,
    stats: Seq<(PackSection, CopyStats)>,
) -> JsonView {
    JsonView::Object(
        seq![
            ("pack_dir"@, JsonView::Text(out_dir)),
            ("format_version"@, JsonView::UInt(FORMAT_VERSION as u64)),
            ("sections"@, JsonView::Array(text_views(section_names(sections)))),
            (
                "packages"@,
                JsonView::Object(
                    seq![
                        ("declared"@, JsonView::UInt(c.declared.len() as u64)),
                        ("payload"@, JsonView::UInt(c.payloads.len() as u64)),
                        ("linked"@, JsonView::UInt(c.links.len() as u64)),
                    ],
                ),
            ),
            (
                "links"@,
                JsonView::Object(
                    seq![
                        ("live"@, JsonView::UInt(live_count(c.links) as u64)),
                        (
                            "dangling"@,
                            JsonView::UInt((c.links.len() - live_count(c.links)) as u64),
                        ),
                    ],
                ),
            ),
            ("bytes_by_section"@, JsonView::Object(by_section(stats))),
            ("total_files"@, JsonView::UInt(total_of(stats).files as u64)),
            ("total_bytes"@, JsonView::UInt(total_of(stats).bytes as u64)),
            ("skipped"@, skips_json(c.skipped)),
        ],
    )
}

/// The summary of a pack.
pub fn summary_json(
    out_dir: &str,
    sections: &[PackSection],
    c: &Classified,
    stats: &[(PackSection, CopyStats)],
) -> (r: Json)
    requires
        total_of(stats@).fits(),
    ensures
        r@ == summary_view(out_dir@, sections@, c@, stats@),
{
    let ghost lv = c@.links;
    let mut live: usize = 0;
    let mut i: usize = 0;
    while i < c.links.len()
        invariant
            i <= c.links@.len(),
            lv == c@.links,
            live == live_count(lv.take(i as int)),
            live <= i,
        decreases c.links@.len() - i,
    {
        proof {
            assert(lv.take(i + 1).drop_last() =~= lv.take(i as int));
            assert(lv.take(i + 1).last() == c.links@[i as int]@);
        }
        if c.links[i].status_at_pack == LinkStatus::Live {
            live = live + 1;
        }
        i = i + 1;
    }
    assert(lv.take(i as int) =~= lv);
    let dangling: usize = c.links.len() - live;
    let mut sums = Json::object();
    let mut total = CopyStats { files: 0, bytes: 0, kept: 0 };
    i = 0;
    assert(stats@.take(0) =~= Seq::<(PackSection, CopyStats)>::empty());
    while i < stats.len()
        invariant
            i <= stats@.len(),
            total_of(stats@).fits(),
            sums is Object,
            sums@ == JsonView::Object(by_section(stats@.take(i as int))),
            total@ == total_of(stats@.take(i as int)),
        decreases stats@.len() - i,
    {
        proof {
            assert(stats@.take(i + 1).drop_last() =~= stats@.take(i as int));
            assert(stats@.take(i + 1).last() == stats@[i as int]);
            lemma_total_grows(stats@, i + 1);
        }
        let (section, s) = stats[i];
        let o = Json::object().with("files", Json::UInt(s.files)).with("bytes", Json::UInt(s.bytes));
        assert(o@.members() =~= seq![
            ("files"@, JsonView::UInt(s.files)),
            ("bytes"@, JsonView::UInt(s.bytes)),
        ]);
        sums = sums.set(section.as_str(), o);
        total.add_assign(s);
        i = i + 1;
    }
    assert(stats@.take(i as int) =~= stats@);
    let names = names_of_sections(sections);
    let packages = Json::object().with("declared", Json::UInt(c.declared.len() as u64)).with(
        "payload",
        Json::UInt(c.payloads.len() as u64),
    ).with("linked", Json::UInt(c.links.len() as u64));
    assert(packages@.members() =~= seq![
        ("declared"@, JsonView::UInt(c@.declared.len() as u64)),
        ("payload"@, JsonView::UInt(c@.payloads.len() as u64)),
        ("linked"@, JsonView::UInt(c@.links.len() as u64)),
    ]);
    let links = Json::object().with("live", Json::UInt(live as u64)).with(
        "dangling",
        Json::UInt(dangling as u64),
    );
    assert(links@.members() =~= seq![
        ("live"@, JsonView::UInt(live_count(lv) as u64)),
        ("dangling"@, JsonView::UInt((lv.len() - live_count(lv)) as u64)),
    ]);
    let r = Json::object().with("pack_dir", Json::text(out_dir)).with(
        "format_version",
        Json::UInt(FORMAT_VERSION as u64),
    ).with("sections", Json::texts(&names)).with("packages", packages).with("links", links).with(
        "bytes_by_section",
        sums,
    ).with("total_files", Json::UInt(total.files)).with(
        "total_bytes",
        Json::UInt(total.bytes),
    ).with("skipped", skips_to_json(&c.skipped));
    assert(r@.members() =~= summary_view(out_dir@, sections@, c@, stats@).members());
    r
}

/// The profile of a pack.
pub fn profile_of(
    created_at: String,
    alc_version: String,
    app_dir: String,
    sections: Vec<PackSection>,
    c: Classified,
) -> (r: PackProfile)
    ensures
        r.pack.format_version == FORMAT_VERSION,
        r.pack.created_at == created_at,
        r.pack.alc_version == alc_version,
        r.pack.app_dir == app_dir,
        r.pack.sections == sections,
        r.packages == c.declared,
        r.payloads == c.payloads,
        r.links == c.links,
{
    PackProfile {
        pack: PackMeta {
            format_version: FORMAT_VERSION,
            created_at,
            alc_version,
            sections,
            app_dir,
        },
        packages: c.declared,
        payloads: c.payloads,
        links: c.links,
    }
}

// ─── Laws ───────────────────────────────────────────────────────

/// A section of which the machine has nothing is not carried, though its
/// directory may be there; it is recorded as skipped.
pub proof fn law_empty_section_is_not_carried(probes: Seq<SectionProbe>, s: PackSection)
    requires
        s != PackSection::Core,
        forall|i: int|
            0 <= i < probes.len() && (#[trigger] probes[i]).section == s ==> !probes[i].filled,
    ensures
        !(seq![PackSection::Core] + probes.filter_map(
            |p: SectionProbe| present_section(p),
        )).contains(s),
{
    let f = |p: SectionProbe| present_section(p);
    let kept = probes.filter_map(f);
    let all = seq![PackSection::Core] + kept;
    if all.contains(s) {
        let k = choose|k: int| 0 <= k < all.len() && all[k] == s;
        assert(kept[k - 1] == s);
        assert(kept.contains(s));
        probes.lemma_filter_map_contains(f, s);
    }
}

/// The entries among `facts` that are considered.
pub open spec fn considered_count(opts: PackOptions, facts: Seq<PackageFact>) -> int
    decreases facts.len(),
{
    if facts.len() == 0 {
        0
    } else {
        considered_count(opts, facts.drop_last()) + (if considered(opts, facts.last()) {
            1int
        } else {
            0
        })
    }
}

/// No considered entry is dropped in silence: each is declared, carried as
/// bytes, recorded as a link or recorded as skipped, and only one of these.
pub proof fn law_every_entry_is_accounted_for(
    opts: PackOptions,
    manifest: Map<Seq<char>, EntryView>,
    facts: Seq<PackageFact>,
)
    requires
        forall|i: int|
            0 <= i < facts.len() ==> !(travel_of(opts, manifest, #[trigger] facts[i]) is BadLink),
    ensures
        ({
            let c = classified(opts, manifest, facts);
            c.declared.len() + c.payloads.len() + c.links.len() + c.skipped.len()
                == considered_count(opts, facts)
        }),
    decreases facts.len(),
{
    if facts.len() > 0 {
        let d = facts.drop_last();
        assert forall|i: int| 0 <= i < d.len() implies !(travel_of(opts, manifest, #[trigger] d[i])
            is BadLink) by {
            assert(d[i] == facts[i]);
        }
        law_every_entry_is_accounted_for(opts, manifest, d);
        assert(facts.last() == facts[facts.len() - 1]);
    }
}

/// A directory that no record names still travels, as bytes.
pub proof fn law_unregistered_directory_travels(
    opts: PackOptions,
    manifest: Map<Seq<char>, EntryView>,
    f: PackageFact,
)
    requires
        considered(opts, f),
        !texts(opts.packages_exclude@).contains(f.name@),
        f.stat is Directory,
        !manifest.dom().contains(f.name@),
    ensures
        travel_of(opts, manifest, f) == TravelView::Payload(
            ProfilePayloadView { name: f.name@, reason: PayloadReason::Unregistered },
        ),
{
}

/// What travels by declaration can be fetched again or is bundled; nothing
/// else is declared.
pub proof fn law_declared_is_git_or_bundled(
    opts: PackOptions,
    manifest: Map<Seq<char>, EntryView>,
    f: PackageFact,
    p: ProfilePackageView,
)
    requires
        travel_of(opts, manifest, f) == TravelView::Declared(p),
    ensures
        p.name == f.name@,
        manifest.dom().contains(p.name),
        p.source == manifest[p.name].source,
        p.source is Git || p.source is Bundled,
{
}

} // verus!
