//! What the outcomes of whole operations satisfy.

use vstd::prelude::*;
use crate::env::{dotenv_content, is_parse_error, parse_error};
use crate::health::{first_unresolved, not_found_text, EntryKind, StrayEntry};
use crate::install::{after_entry, BatchView, EntryStep};
use crate::json::JsonView;
use crate::laws::sorting::law_sorting_keeps_every_item;
use crate::laws::tools::says;
use crate::list::{
    in_listing_order, is_list_response, is_listing_of, is_record_of, kind_of, list_view,
    within_limit, RecordedPackage,
};
use crate::manifest::EntryView;
use crate::migrate::{
    document_text, empty_table_text, is_bare_key, is_key_char, is_target_named, is_toml_of,
    legacy_target, one_table, tables_of, with_paths, TomlView,
};
use crate::name_map::strictly_ascending;
use crate::order::{is_stable_sort_of, lemma_lex_irreflexive, lex_lt};
use crate::pack::{
    classified, first_bad_link, is_classification, travel_of, Classified, PackOptions, PackageFact,
    TravelView,
};
use crate::scenarios::{
    are_scenarios_of, is_listing, is_scenario_of, scenario_entries, Scenario, ScenarioEntry,
};
use crate::source::display_of;
use crate::stats::{has_strategy, is_report, totals, FiguresView, StatsReport};
use crate::testing::{holder_of, is_sorted_listing, no_spec_files};
use crate::text::texts;

verus! {

/// Sorting entries into their lists succeeds exactly where no link is unreadable,
/// with the lists of all entries; else it names the first such link.
pub proof fn law_packing_stops_at_the_first_bad_link(
    r: Result<Classified, String>,
    opts: PackOptions,
    manifest: Map<Seq<char>, EntryView>,
    facts: Seq<PackageFact>,
)
    requires
        is_classification(r, opts, manifest, facts),
    ensures
        r is Ok <==> forall|i: int|
            0 <= i < facts.len() ==> !(travel_of(opts, manifest, #[trigger] facts[i]) is BadLink),
        r matches Ok(c) ==> c@ == classified(opts, manifest, facts),
        r matches Err(m) ==> exists|i: int|
            0 <= i < facts.len() && travel_of(opts, manifest, #[trigger] facts[i])
                == TravelView::BadLink(m@) && forall|j: int|
                0 <= j < i ==> !(travel_of(opts, manifest, #[trigger] facts[j]) is BadLink),
{
    if let Err(m) = r {
        let i = choose|i: int| #[trigger]
            first_bad_link(opts, manifest, facts, i) && travel_of(opts, manifest, facts[i])
                == TravelView::BadLink(m@);
        assert(travel_of(opts, manifest, facts[i]) is BadLink);
    }
}

/// The listed scenarios are those of the entries, each once, in the order of their
/// names.
pub proof fn law_the_list_of_scenarios(s: Seq<Scenario>, v: Seq<ScenarioEntry>, i: int, j: int)
    requires
        is_listing(s, v),
    ensures
        s.len() == scenario_entries(v).len(),
        0 <= i < j < s.len() ==> !lex_lt(s[j].name@, s[i].name@),
        0 <= i < s.len() ==> exists|k: int|
            0 <= k < scenario_entries(v).len() && is_scenario_of(
                #[trigger] scenario_entries(v)[k],
                s[i],
            ),
        0 <= i < scenario_entries(v).len() ==> exists|k: int|
            0 <= k < s.len() && is_scenario_of(scenario_entries(v)[i], #[trigger] s[k]),
{
    let unsorted = choose|unsorted: Seq<Scenario>| #[trigger]
        is_stable_sort_of(s, unsorted) && are_scenarios_of(unsorted, v);
    if 0 <= i < s.len() {
        law_sorting_keeps_every_item(s, unsorted, s[i]);
        assert(s.contains(s[i]));
        let k = choose|k: int| 0 <= k < unsorted.len() && unsorted[k] == s[i];
        assert(is_scenario_of(scenario_entries(v)[k], unsorted[k]));
    }
    if 0 <= i < scenario_entries(v).len() {
        law_sorting_keeps_every_item(s, unsorted, unsorted[i]);
        assert(unsorted.contains(unsorted[i]));
        let k = choose|k: int| 0 <= k < s.len() && s[k] == unsorted[i];
        assert(is_scenario_of(scenario_entries(v)[i], s[k]));
    }
    if 0 <= i < j < s.len() {
        law_sorting_keeps_every_item(s, unsorted, s[i]);
        assert(!lex_lt(crate::order::Keyed::key_view(&s[j]), crate::order::Keyed::key_view(&s[i])));
    }
}

/// A report counts every session, and holds the sums of exactly the strategies that
/// some session has.
pub proof fn law_what_a_report_holds(r: StatsReport, s: Seq<FiguresView>, k: Seq<char>)
    requires
        is_report(r, s),
    ensures
        r.total == s.len(),
        r.strategies@.dom().contains(k) <==> exists|i: int|
            0 <= i < s.len() && (#[trigger] s[i]).strategy == k,
        r.strategies@.dom().contains(k) ==> r.strategies@[k]@ == totals(s, k),
{
    assert(r.strategies@.dom().contains(k) <==> has_strategy(s, k));
}

/// A sorted listing holds the given paths, all of them and no others, in ascending
/// order.
pub proof fn law_what_a_sorted_listing_holds(
    v: Seq<String>,
    paths: Seq<Seq<char>>,
    i: int,
    j: int,
)
    requires
        is_sorted_listing(v, paths),
    ensures
        v.len() == paths.len(),
        0 <= i < v.len() ==> paths.contains(v[i]@),
        0 <= i < paths.len() ==> texts(v).contains(paths[i]),
        0 <= i < j < v.len() ==> !lex_lt(v[j]@, v[i]@),
{
    let unsorted = choose|unsorted: Seq<String>| #[trigger]
        is_stable_sort_of(v, unsorted) && texts(unsorted) == paths;
    if 0 <= i < v.len() {
        law_sorting_keeps_every_item(v, unsorted, v[i]);
        assert(v.contains(v[i]));
        let k = choose|k: int| 0 <= k < unsorted.len() && unsorted[k] == v[i];
        assert(texts(unsorted)[k] == v[i]@);
    }
    if 0 <= i < paths.len() {
        law_sorting_keeps_every_item(v, unsorted, unsorted[i]);
        assert(texts(unsorted)[i] == unsorted[i]@);
        assert(unsorted.contains(unsorted[i]));
        let k = choose|k: int| 0 <= k < v.len() && v[k] == unsorted[i];
        assert(texts(v)[k] == paths[i]);
    }
    if 0 <= i < j < v.len() {
        law_sorting_keeps_every_item(v, unsorted, v[i]);
        assert(!lex_lt(crate::order::Keyed::key_view(&v[j]), crate::order::Keyed::key_view(&v[i])));
    }
}

/// Ascending names come each before all that follow, and none stands twice.
pub proof fn law_ascending_names_are_distinct(ks: Seq<Seq<char>>, i: int, j: int)
    requires
        strictly_ascending(ks),
        0 <= i < j < ks.len(),
    ensures
        lex_lt(ks[i], ks[j]),
        ks[i] != ks[j],
{
    lemma_lex_irreflexive(ks[i]);
}

/// The answer lists packages of the given ones, in the listing order and up to the
/// limit.
pub proof fn law_what_the_list_answers(
    r: JsonView,
    packages: Seq<JsonView>,
    limit: Option<usize>,
    search_paths: Seq<(String, String)>,
    project: Option<(Seq<char>, Seq<char>)>,
)
    requires
        is_list_response(r, packages, limit, search_paths, project),
    ensures
        exists|ordered: Seq<JsonView>| #[trigger]
            is_listing_of(ordered, packages) && in_listing_order(ordered) && ordered.len()
                == packages.len() && says(
                r,
                "packages"@,
                JsonView::Array(within_limit(ordered, limit)),
            ),
        r is Object,
{
    let ordered = choose|ordered: Seq<JsonView>| #[trigger]
        is_listing_of(ordered, packages) && r == JsonView::Object(
            list_view(within_limit(ordered, limit), search_paths, project),
        );
    assert(r.members()[0] == ("packages"@, JsonView::Array(within_limit(ordered, limit))));
    assert(is_listing_of(ordered, packages));
}

/// In the listing order no document goes before one that stands ahead of it, and
/// those that are level keep their order.
pub proof fn law_what_the_listing_order_is(r: Seq<JsonView>, s: Seq<JsonView>, i: int, j: int)
    requires
        is_listing_of(r, s),
    ensures
        0 <= i < j < r.len() ==> !crate::list::goes_first(r[j], r[i]),
        0 <= i < r.len() ==> r.filter(crate::list::level_with(r[i])) == s.filter(
            crate::list::level_with(r[i]),
        ),
{
}

/// What is told of a recorded package is what the record holds.
pub proof fn law_what_is_told_of_a_record(p: RecordedPackage, e: EntryView)
    ensures
        is_record_of(p, e) <==> p.kind == kind_of(e.source) && p.source@ == display_of(e.source)
            && p.installed_at@ == e.installed_at && p.updated_at@ == e.updated_at,
{
}

/// The new file holds the one table `packages`, with the packages and their paths.
pub proof fn law_what_the_new_file_holds(t: Seq<char>, targets: Seq<(Seq<char>, Seq<char>)>)
    requires
        is_toml_of(t, targets),
    ensures
        exists|doc: toml_edit::DocumentMut| #[trigger]
            document_text(doc) == t && tables_of(doc).dom() == set!["packages"@] && tables_of(
                doc,
            )["packages"@] == with_paths(targets),
{
    let doc = choose|doc: toml_edit::DocumentMut| #[trigger]
        document_text(doc) == t && tables_of(doc) == one_table("packages"@, with_paths(targets));
    assert(tables_of(doc).dom() =~= set!["packages"@]);
    assert(document_text(doc) == t);
}

/// A key needs no quotes where it holds letters, digits, hyphens and underscores
/// only; the header of a table is its key in brackets.
pub proof fn law_keys_without_quotes(t: Seq<char>)
    ensures
        is_bare_key(t) <==> t.len() > 0 && forall|i: int|
            0 <= i < t.len() ==> ('a' <= #[trigger] t[i] && t[i] <= 'z') || ('A' <= t[i] && t[i]
                <= 'Z') || ('0' <= t[i] && t[i] <= '9') || t[i] == '-' || t[i] == '_',
        empty_table_text(t) == "["@ + t + "]\n"@,
{
    if is_bare_key(t) {
        assert forall|i: int| 0 <= i < t.len() implies ('a' <= #[trigger] t[i] && t[i] <= 'z') || (
        'A' <= t[i] && t[i] <= 'Z') || ('0' <= t[i] && t[i] <= '9') || t[i] == '-' || t[i] == '_' by {
            assert(is_key_char(t[i]));
        }
    }
    if t.len() > 0 && forall|i: int|
        0 <= i < t.len() ==> ('a' <= #[trigger] t[i] && t[i] <= 'z') || ('A' <= t[i] && t[i] <= 'Z')
            || ('0' <= t[i] && t[i] <= '9') || t[i] == '-' || t[i] == '_' {
        assert forall|i: int| 0 <= i < t.len() implies is_key_char(#[trigger] t[i]) by {}
    }
}

/// A package has the name under which it migrates.
pub proof fn law_the_name_of_a_migrating_package(p: TomlView, name: Seq<char>)
    ensures
        is_target_named(p, name) <==> legacy_target(p) is Some && legacy_target(p)->Some_0.0 == name,
{
}

/// The first entry that cannot be resolved is one that may be stray, and none before
/// it is such.
pub proof fn law_the_first_unresolved_entry(
    entries: Seq<StrayEntry>,
    kind: EntryKind,
    registered: Seq<Seq<char>>,
    target: Option<Seq<char>>,
    i: int,
)
    ensures
        first_unresolved(entries, kind, registered, target, i) <==> 0 <= i < entries.len()
            && may_fail(entries[i], kind, registered, target) && forall|j: int|
            0 <= j < i ==> !may_fail(#[trigger] entries[j], kind, registered, target),
{
}

/// The entry is an unregistered package of the kind that is looked for and cannot be
/// resolved.
pub open spec fn may_fail(
    e: StrayEntry,
    kind: EntryKind,
    registered: Seq<Seq<char>>,
    target: Option<Seq<char>>,
) -> bool {
    e.kind == kind && e.has_init && (target is None || target == Some(e.name@))
        && !registered.contains(e.name@) && e.canonical is Err
}

/// An entry that was copied is told as installed, one whose place was taken as
/// present, and one that was passed over as neither.
pub proof fn law_what_becomes_of_an_entry(b: BatchView, step: EntryStep, name: Seq<char>)
    ensures
        after_entry(b, step, name).installed == (if step == EntryStep::Copy {
            b.installed.push(name)
        } else {
            b.installed
        }),
        after_entry(b, step, name).present == (if step == EntryStep::Skip || step
            == EntryStep::Replace {
            b.present.push(name)
        } else {
            b.present
        }),
{
}

/// Messages name what they are about.
pub proof fn law_messages_name_their_subject(
    target: Seq<char>,
    m: Seq<char>,
    file: Seq<u8>,
)
    ensures
        not_found_text(target) == "Package '"@ + target
            + "' not found in installed.json, ~/.algocline/packages/, alc.toml, or alc.local.toml"@,
        no_spec_files(target) == "pkg_test: no spec files found in "@ + target
            + " (looked for *_spec.lua)"@,
        is_parse_error(m, target, file) <==> dotenv_content(file) is Err && m == parse_error(
            target,
            dotenv_content(file)->Err_0,
        ),
        crate::paths::parent_of(target) matches Some(t) ==> holder_of(target) == t,
        crate::paths::parent_of(target) is None ==> holder_of(target) == target,
{
}

} // verus!
