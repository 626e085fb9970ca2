//! Which scenarios are listed and installed.

use vstd::prelude::*;
use crate::json::JsonView;
use crate::laws::tools::{lemma_filter_map_has, says};
use crate::paths::{extension_of, file_name_of, leads_downward, stem_of};
use crate::scenarios::{
    after_copy, after_source, entry_failure, entry_failures, install_step, invalid_name_text,
    is_scenario, is_scenario_of, listing_view, scenario_entries, scenario_view, shown_name,
    InstallStep, Scenario, ScenarioEntry, ScenarioReport, ScenarioReportView, SourceEntry,
};

verus! {

/// An entry is a scenario exactly where it is a file with the extension `lua`; it is
/// listed without the extension, with its path and its size.
pub proof fn law_which_files_are_scenarios(e: ScenarioEntry, s: Scenario)
    ensures
        is_scenario(e) <==> (e matches ScenarioEntry::File { name, path, size_bytes }
            && extension_of(name@) == Some("lua"@)),
        is_scenario_of(e, s) <==> is_scenario(e) && (e matches ScenarioEntry::File {
            name,
            path,
            size_bytes,
        } && s.name@ == stem_of(name@) && s.path == path && s.size_bytes == size_bytes),
{
}

/// The scenarios among the entries are all those that are scenarios.
pub proof fn law_every_scenario_is_listed(v: Seq<ScenarioEntry>, e: ScenarioEntry)
    ensures
        scenario_entries(v).contains(e) <==> v.contains(e) && is_scenario(e),
{
    let p = |e: ScenarioEntry| is_scenario(e);
    assert(scenario_entries(v) == v.filter(p));
    if scenario_entries(v).contains(e) {
        let i = choose|i: int| 0 <= i < v.filter(p).len() && v.filter(p)[i] == e;
        v.lemma_filter_pred(p, i);
        v.lemma_filter_contains_rev(p, e);
    }
    if v.contains(e) && is_scenario(e) {
        let i = choose|i: int| 0 <= i < v.len() && v[i] == e;
        v.lemma_filter_contains(p, i);
    }
}

/// Exactly the entries that cannot be read are told as failures, with the cause.
pub proof fn law_every_failure_is_told(v: Seq<ScenarioEntry>, e: ScenarioEntry, t: Seq<char>)
    ensures
        entry_failure(e) is Some <==> e is Unreadable,
        e matches ScenarioEntry::Unreadable(c) ==> entry_failure(e) == Some("readdir entry: "@ + c@),
        entry_failures(v).contains(t) <==> exists|i: int|
            0 <= i < v.len() && entry_failure(#[trigger] v[i]) == Some(t),
{
    let f = |e: ScenarioEntry| entry_failure(e);
    assert(entry_failures(v) == v.filter_map(f));
    lemma_filter_map_has(v, f, t);
    if entry_failures(v).contains(t) {
        let i = choose|i: int| 0 <= i < v.len() && f(#[trigger] v[i]) == Some(t);
        assert(entry_failure(v[i]) == Some(t));
    }
    if exists|i: int| 0 <= i < v.len() && entry_failure(#[trigger] v[i]) == Some(t) {
        let i = choose|i: int| 0 <= i < v.len() && entry_failure(#[trigger] v[i]) == Some(t);
        assert(f(v[i]) == Some(t));
    }
}

/// A scenario is told with its name, its path and its size; the list with every
/// scenario and every failure, in order.
pub proof fn law_scenarios_are_told_whole(
    s: Scenario,
    scenarios: Seq<Scenario>,
    failures: Seq<Seq<char>>,
)
    ensures
        says(scenario_view(s), "name"@, JsonView::Text(s.name@)),
        says(scenario_view(s), "path"@, JsonView::Text(s.path@)),
        says(scenario_view(s), "size_bytes"@, JsonView::UInt(s.size_bytes)),
        says(
            listing_view(scenarios, failures),
            "scenarios"@,
            JsonView::Array(Seq::new(scenarios.len(), |i: int| scenario_view(scenarios[i]))),
        ),
        says(
            listing_view(scenarios, failures),
            "failures"@,
            JsonView::Array(Seq::new(failures.len(), |i: int| JsonView::Text(failures[i]))),
        ),
{
    let ms = scenario_view(s).members();
    assert(ms[0] == ("name"@, JsonView::Text(s.name@)));
    assert(ms[1] == ("path"@, JsonView::Text(s.path@)));
    assert(ms[2] == ("size_bytes"@, JsonView::UInt(s.size_bytes)));
    let ls = listing_view(scenarios, failures).members();
    assert(ls[0].0 == "scenarios"@ && ls[1].0 == "failures"@);
    assert(ls[0].1->Array_0 =~= Seq::new(scenarios.len(), |i: int| scenario_view(scenarios[i])));
    assert(ls[1].1->Array_0 =~= Seq::new(failures.len(), |i: int| JsonView::Text(failures[i])));
}

/// A file is copied exactly where it is a Lua file with a sound name whose place is
/// free, and skipped where its place is taken; anything else is passed over.
pub proof fn law_which_scenarios_are_installed(e: SourceEntry)
    ensures
        e is Unreadable ==> install_step(e) == InstallStep::Ignore,
        e matches SourceEntry::Item { name, is_file, dest_exists } ==> ({
            let fit = is_file && extension_of(name@) == Some("lua"@) && leads_downward(name@);
            &&& install_step(e) == InstallStep::Copy <==> fit && !dest_exists
            &&& install_step(e) == InstallStep::Skip <==> fit && dest_exists
            &&& install_step(e) == InstallStep::Ignore <==> !fit
        }),
{
}

/// What is skipped is reported without its extension, what cannot be read with the
/// cause, and of anything else nothing before it is copied.
pub proof fn law_entries_are_reported(r: ScenarioReportView, e: SourceEntry)
    ensures
        ({
            let a = after_source(r, e);
            &&& a.installed == r.installed
            &&& a.skipped == (match e {
                SourceEntry::Item { name, is_file, dest_exists } if is_file && extension_of(name@)
                    == Some("lua"@) && leads_downward(name@) && dest_exists => r.skipped.push(
                    stem_of(name@),
                ),
                _ => r.skipped,
            })
            &&& a.failures == (match e {
                SourceEntry::Unreadable(c) => r.failures.push("readdir entry: "@ + c@),
                _ => r.failures,
            })
        }),
{
}

/// A copied file is reported under its name without the extension, one that could
/// not be copied with its path and the cause.
pub proof fn law_copies_are_reported(
    r: ScenarioReportView,
    name: Seq<char>,
    path: Seq<char>,
    outcome: Result<(), String>,
)
    ensures
        ({
            let a = after_copy(r, name, path, outcome);
            let shown = match file_name_of(path) {
                Some(n) => stem_of(n),
                None => name,
            };
            &&& a.skipped == r.skipped
            &&& outcome is Ok ==> a.installed == r.installed.push(shown) && a.failures == r.failures
            &&& outcome matches Err(c) ==> a.installed == r.installed && a.failures
                == r.failures.push(path + ": "@ + c@)
            &&& shown_name(path, name) == shown
        }),
{
}

/// A report is empty exactly where nothing was installed, skipped or failed.
pub proof fn law_when_a_report_is_empty(r: ScenarioReport, file: Seq<char>)
    ensures
        r.is_empty() <==> r@.installed.len() == 0 && r@.skipped.len() == 0 && r@.failures.len() == 0,
        invalid_name_text(file) == "Invalid scenario name: Invalid path component in '"@ + file
            + "': path traversal detected"@,
{
}

} // verus!
