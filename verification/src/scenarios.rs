//! Scenarios: where their code comes from, which are there, and which are
//! installed from a directory.

use vstd::prelude::*;
use crate::install::{list_doc, prefix_git_scheme_if_missing, with_scheme};
use crate::json::{views, Json, JsonView};
use crate::order::{is_stable_sort_of, sort_by_key, Keyed};
use crate::paths::{
    child, extension_of, file_name_of, is_absolute, absolute, join, joined_path, leads_downward,
    split_extension, stem_of,
};
use crate::text::{str_eq, texts};

verus! {

// ─── Where the code comes from ──────────────────────────────────

/// Where the code of a scenario comes from.
#[derive(Debug)]
pub enum ScenarioSource {
    Inline(String),
    File(String),
    /// The file of the scenario with this name.
    Named { name: String, path: String },
}

/// The error for a name that leads out of the scenarios directory.
pub open spec fn invalid_name_text(file: Seq<char>) -> Seq<char> {
    "Invalid scenario name: Invalid path component in '"@ + file + "': path traversal detected"@
}

/// The path of the scenario `name` in `dir`, or why there is none.
pub fn scenario_path(dir: &str, name: &str) -> (r: Result<String, String>)
    ensures
        match r {
            Ok(p) => leads_downward(name@ + ".lua"@) && p@ == joined_path(dir@, name@ + ".lua"@),
            Err(m) => !leads_downward(name@ + ".lua"@) && m@ == invalid_name_text(name@ + ".lua"@),
        },
{
    let mut file = name.to_owned();
    file.append(".lua");
    match child(dir, file.as_str()) {
        Ok(p) => Ok(p),
        Err(e) => {
            let mut m = "Invalid scenario name: ".to_owned();
            m.append(e.as_str());
            proof {
                assert(m@ =~= invalid_name_text(name@ + ".lua"@)) by {
                    reveal_strlit("Invalid scenario name: ");
                    reveal_strlit("Invalid path component in '");
                    reveal_strlit("Invalid scenario name: Invalid path component in '");
                    assert("Invalid scenario name: "@ + "Invalid path component in '"@
                        =~= "Invalid scenario name: Invalid path component in '"@);
                    assert("Invalid scenario name: "@ + ("Invalid path component in '"@ + (name@
                        + ".lua"@) + "': path traversal detected"@) =~= ("Invalid scenario name: "@
                        + "Invalid path component in '"@) + (name@ + ".lua"@)
                        + "': path traversal detected"@);
                }
            }
            Err(m)
        },
    }
}

/// Where the code of a scenario comes from: exactly one of code, a file and a
/// name, which is looked up in `dir`.
pub fn resolve_scenario_code(
    dir: &str,
    scenario: Option<String>,
    scenario_file: Option<String>,
    scenario_name: Option<String>,
) -> (r: Result<ScenarioSource, String>)
    ensures
        match (scenario, scenario_file, scenario_name) {
            (Some(c), None, None) => r == Ok::<ScenarioSource, String>(ScenarioSource::Inline(c)),
            (None, Some(p), None) => r == Ok::<ScenarioSource, String>(ScenarioSource::File(p)),
            (None, None, Some(n)) => match r {
                Ok(ScenarioSource::Named { name, path }) => name == n && leads_downward(
                    n@ + ".lua"@,
                ) && path@ == joined_path(dir@, n@ + ".lua"@),
                Ok(_) => false,
                Err(m) => !leads_downward(n@ + ".lua"@) && m@ == invalid_name_text(n@ + ".lua"@),
            },
            (None, None, None) => match r {
                Ok(_) => false,
                Err(m) => m@ == "Provide one of: scenario, scenario_file, or scenario_name."@,
            },
            _ => match r {
                Ok(_) => false,
                Err(m) => m@
                    == "Provide only one of: scenario, scenario_file, or scenario_name (not multiple)."@,
            },
        },
{
    match (scenario, scenario_file, scenario_name) {
        (Some(c), None, None) => Ok(ScenarioSource::Inline(c)),
        (None, Some(p), None) => Ok(ScenarioSource::File(p)),
        (None, None, Some(n)) => match scenario_path(dir, n.as_str()) {
            Ok(path) => Ok(ScenarioSource::Named { name: n, path }),
            Err(m) => Err(m),
        },
        (None, None, None) => Err(
            "Provide one of: scenario, scenario_file, or scenario_name.".to_owned(),
        ),
        _ => Err(
            "Provide only one of: scenario, scenario_file, or scenario_name (not multiple).".to_owned(),
        ),
    }
}

/// The directory of the scenarios of a source: its `scenarios`, or itself.
pub fn resolve_scenario_source(root: &str, has_subdir: bool) -> (r: String)
    ensures
        r@ == (if has_subdir {
            joined_path(root@, "scenarios"@)
        } else {
            root@
        }),
{
    if has_subdir {
        join(root, "scenarios")
    } else {
        root.to_owned()
    }
}

/// Where scenarios are installed from.
#[derive(Debug)]
pub enum ScenarioOrigin {
    Directory(String),
    Repository(String),
}

/// Where scenarios are installed from: an absolute path that is a directory, or
/// a repository.
pub fn scenario_origin(url: &str, is_dir: bool) -> (r: ScenarioOrigin)
    ensures
        match r {
            ScenarioOrigin::Directory(p) => absolute(url@) && is_dir && p@ == url@,
            ScenarioOrigin::Repository(u) => !(absolute(url@) && is_dir) && u@ == with_scheme(url@),
        },
{
    if is_absolute(url) && is_dir {
        ScenarioOrigin::Directory(url.to_owned())
    } else {
        ScenarioOrigin::Repository(prefix_git_scheme_if_missing(url))
    }
}

// ─── The list ───────────────────────────────────────────────────

/// An entry of the scenarios directory, or why it cannot be read.
#[derive(Debug)]
pub enum ScenarioEntry {
    File { name: String, path: String, size_bytes: u64 },
    Unreadable(String),
}

/// A scenario.
#[derive(Debug)]
pub struct Scenario {
    pub name: String,
    pub path: String,
    pub size_bytes: u64,
}

impl Keyed for Scenario {
    open spec fn key_view(&self) -> Seq<char> {
        self.name@
    }

    fn key(&self) -> (r: &str) {
        self.name.as_str()
    }
}

/// A scenario as a document.
pub open spec fn scenario_view(s: Scenario) -> JsonView {
    JsonView::Object(
        seq![
            ("name"@, JsonView::Text(s.name@)),
            ("path"@, JsonView::Text(s.path@)),
            ("size_bytes"@, JsonView::UInt(s.size_bytes)),
        ],
    )
}

/// The scenario of an entry: a Lua file, named without its extension.
pub open spec fn is_scenario_of(e: ScenarioEntry, s: Scenario) -> bool {
    match e {
        ScenarioEntry::File { name, path, size_bytes } => extension_of(name@) == Some("lua"@)
            && s.name@ == stem_of(name@) && s.path == path && s.size_bytes == size_bytes,
        ScenarioEntry::Unreadable(_) => false,
    }
}

/// The entry is a scenario.
pub open spec fn is_scenario(e: ScenarioEntry) -> bool {
    match e {
        ScenarioEntry::File { name, .. } => extension_of(name@) == Some("lua"@),
        ScenarioEntry::Unreadable(_) => false,
    }
}

/// The entries that are scenarios.
pub open spec fn scenario_entries(v: Seq<ScenarioEntry>) -> Seq<ScenarioEntry> {
    v.filter(|e: ScenarioEntry| is_scenario(e))
}

/// What is told of an entry that cannot be read.
pub open spec fn entry_failure(e: ScenarioEntry) -> Option<Seq<char>> {
    match e {
        ScenarioEntry::Unreadable(c) => Some("readdir entry: "@ + c@),
        _ => None,
    }
}

/// What is told of the entries that cannot be read.
pub open spec fn entry_failures(v: Seq<ScenarioEntry>) -> Seq<Seq<char>> {
    v.filter_map(|e: ScenarioEntry| entry_failure(e))
}

/// `s` are the scenarios of `v`, in the order of `v`.
pub open spec fn are_scenarios_of(s: Seq<Scenario>, v: Seq<ScenarioEntry>) -> bool {
    &&& s.len() == scenario_entries(v).len()
    &&& forall|i: int|
        0 <= i < s.len() ==> is_scenario_of(scenario_entries(v)[i], #[trigger] s[i])
}

/// `s` are the scenarios of `v`, by name.
pub open spec fn is_listing(s: Seq<Scenario>, v: Seq<ScenarioEntry>) -> bool {
    exists|unsorted: Seq<Scenario>| #[trigger]
        is_stable_sort_of(s, unsorted) && are_scenarios_of(unsorted, v)
}

/// The scenarios among the entries, by name, and what is told of the entries
/// that cannot be read.
pub fn list_scenarios(entries: &Vec<ScenarioEntry>) -> (r: (Vec<Scenario>, Vec<String>))
    ensures
        is_listing(r.0@, entries@),
        texts(r.1@) == entry_failures(entries@),
{
    let ghost p = |e: ScenarioEntry| is_scenario(e);
    let ghost f = |e: ScenarioEntry| entry_failure(e);
    let mut out: Vec<Scenario> = Vec::new();
    let mut failures: Vec<String> = Vec::new();
    let mut i: usize = 0;
    proof {
        reveal(Seq::filter);
        reveal(Seq::filter_map);
        assert(scenario_entries(entries@.take(0)) =~= Seq::empty());
        assert(entries@.take(0).filter_map(f) =~= texts(failures@));
    }
    while i < entries.len()
        invariant
            i <= entries@.len(),
            p == (|e: ScenarioEntry| is_scenario(e)),
            f == (|e: ScenarioEntry| entry_failure(e)),
            are_scenarios_of(out@, entries@.take(i as int)),
            texts(failures@) == entries@.take(i as int).filter_map(f),
        decreases entries@.len() - i,
    {
        let ghost e = entries@[i as int];
        let ghost before = scenario_entries(entries@.take(i as int));
        proof {
            entries@.lemma_filter_map_take_succ(f, i as int);
            reveal(Seq::filter);
            assert(entries@.take(i + 1).drop_last() =~= entries@.take(i as int));
            assert(scenario_entries(entries@.take(i + 1)) == if p(e) {
                before.push(e)
            } else {
                before
            });
        }
        let ghost failed = failures@;
        match &entries[i] {
            ScenarioEntry::Unreadable(c) => {
                let mut m = "readdir entry: ".to_owned();
                m.append(c.as_str());
                let ghost mv = m@;
                failures.push(m);
                assert(texts(failures@) =~= texts(failed).push(mv));
            },
            ScenarioEntry::File { name, path, size_bytes } => {
                let (stem, ext) = split_extension(name.as_str());
                if let Some(x) = ext {
                    if str_eq(x.as_str(), "lua") {
                        out.push(
                            Scenario { name: stem, path: path.clone(), size_bytes: *size_bytes },
                        );
                    }
                }
            },
        }
        assert(texts(failures@) =~= entries@.take(i + 1).filter_map(f));
        i = i + 1;
    }
    assert(entries@.take(entries@.len() as int) =~= entries@);
    let ghost unsorted = out@;
    let sorted = sort_by_key(out);
    assert(is_stable_sort_of(sorted@, unsorted));
    (sorted, failures)
}

/// The list as a document.
pub open spec fn listing_view(scenarios: Seq<Scenario>, failures: Seq<Seq<char>>) -> JsonView {
    JsonView::Object(
        seq![
            ("scenarios"@, JsonView::Array(scenarios.map_values(|s: Scenario| scenario_view(s)))),
            ("failures"@, list_doc(failures)),
        ],
    )
}

/// The list as a document.
pub fn listing_answer(scenarios: &Vec<Scenario>, failures: &Vec<String>) -> (r: Json)
    ensures
        r@ == listing_view(scenarios@, texts(failures@)),
{
    let mut out: Vec<Json> = Vec::new();
    let mut i: usize = 0;
    while i < scenarios.len()
        invariant
            i <= scenarios@.len(),
            out@.len() == i,
            forall|k: int| 0 <= k < i ==> (#[trigger] out@[k])@ == scenario_view(scenarios@[k]),
        decreases scenarios@.len() - i,
    {
        let s = &scenarios[i];
        let j = Json::object().with("name", Json::text(s.name.as_str())).with(
            "path",
            Json::text(s.path.as_str()),
        ).with("size_bytes", Json::UInt(s.size_bytes));
        assert(j@.members() =~= scenario_view(*s).members());
        out.push(j);
        i = i + 1;
    }
    let ghost ov = out@;
    let r = Json::object().with("scenarios", Json::array(out)).with(
        "failures",
        Json::texts(failures),
    );
    proof {
        assert(views(ov) =~= scenarios@.map_values(|s: Scenario| scenario_view(s)));
        assert(r@.members() =~= listing_view(scenarios@, texts(failures@)).members());
    }
    r
}

/// One scenario with its code, as a document.
pub fn show_answer(name: &str, path: &str, content: &str) -> (r: Json)
    ensures
        r@ == JsonView::Object(
            seq![
                ("name"@, JsonView::Text(name@)),
                ("path"@, JsonView::Text(path@)),
                ("content"@, JsonView::Text(content@)),
            ],
        ),
{
    let r = Json::object().with("name", Json::text(name)).with("path", Json::text(path)).with(
        "content",
        Json::text(content),
    );
    assert(r@.members() =~= seq![
        ("name"@, JsonView::Text(name@)),
        ("path"@, JsonView::Text(path@)),
        ("content"@, JsonView::Text(content@)),
    ]);
    r
}

// ─── Installing ─────────────────────────────────────────────────

/// An entry of the directory that scenarios are installed from.
#[derive(Debug)]
pub enum SourceEntry {
    /// Its name, whether it is a file, and whether its place is taken.
    Item { name: String, is_file: bool, dest_exists: bool },
    Unreadable(String),
}

/// What is done with an entry.
#[derive(Debug, Clone, Copy, PartialEq, Eq, Structural)]
pub enum InstallStep {
    Ignore,
    /// Its place is taken.
    Skip,
    Copy,
}

/// What is done with an entry: Lua files whose names lead downward are copied,
/// unless their place is taken.
pub open spec fn install_step(e: SourceEntry) -> InstallStep {
    match e {
        SourceEntry::Unreadable(_) => InstallStep::Ignore,
        SourceEntry::Item { name, is_file, dest_exists } => if !is_file || extension_of(name@)
            != Some("lua"@) || !leads_downward(name@) {
            InstallStep::Ignore
        } else if dest_exists {
            InstallStep::Skip
        } else {
            InstallStep::Copy
        },
    }
}

/// What became of the scenarios so far.
#[derive(Debug)]
pub struct ScenarioReport {
    pub installed: Vec<String>,
    pub skipped: Vec<String>,
    pub failures: Vec<String>,
}

/// The content of a `ScenarioReport`.
#[verifier::ext_equal]
pub struct ScenarioReportView {
    pub installed: Seq<Seq<char>>,
    pub skipped: Seq<Seq<char>>,
    pub failures: Seq<Seq<char>>,
}

impl View for ScenarioReport {
    type V = ScenarioReportView;

    open spec fn view(&self) -> ScenarioReportView {
        ScenarioReportView {
            installed: texts(self.installed@),
            skipped: texts(self.skipped@),
            failures: texts(self.failures@),
        }
    }
}

/// The report after what can be told of an entry before it is copied.
pub open spec fn after_source(r: ScenarioReportView, e: SourceEntry) -> ScenarioReportView {
    match e {
        SourceEntry::Unreadable(c) => ScenarioReportView {
            failures: r.failures.push("readdir entry: "@ + c@),
            ..r
        },
        SourceEntry::Item { name, .. } => if install_step(e) == InstallStep::Skip {
            ScenarioReportView { skipped: r.skipped.push(stem_of(name@)), ..r }
        } else {
            r
        },
    }
}

/// The name under which the file at `path` is shown: its name without the
/// extension, or `file_name` where the path has no name.
pub open spec fn shown_name(path: Seq<char>, file_name: Seq<char>) -> Seq<char> {
    match file_name_of(path) {
        Some(n) => stem_of(n),
        None => file_name,
    }
}

/// The name under which the file at `path` is shown.
pub fn display_name(path: &str, file_name: &str) -> (r: String)
    ensures
        r@ == shown_name(path@, file_name@),
{
    match crate::paths::file_name(path) {
        Some(n) => split_extension(n.as_str()).0,
        None => file_name.to_owned(),
    }
}

/// The report after the file `name` at `path` was copied, or could not be.
pub open spec fn after_copy(
    r: ScenarioReportView,
    name: Seq<char>,
    path: Seq<char>,
    outcome: Result<(), String>,
) -> ScenarioReportView {
    match outcome {
        Ok(_) => ScenarioReportView { installed: r.installed.push(shown_name(path, name)), ..r },
        Err(c) => ScenarioReportView { failures: r.failures.push(path + ": "@ + c@), ..r },
    }
}

impl ScenarioReport {
    pub fn new() -> (r: ScenarioReport)
        ensures
            r@ == (ScenarioReportView {
                installed: Seq::empty(),
                skipped: Seq::empty(),
                failures: Seq::empty(),
            }),
    {
        let r = ScenarioReport {
            installed: Vec::new(),
            skipped: Vec::new(),
            failures: Vec::new(),
        };
        assert(r@ =~= ScenarioReportView {
            installed: Seq::empty(),
            skipped: Seq::empty(),
            failures: Seq::empty(),
        });
        r
    }

    /// What is done with the next entry, with what can be told of it already.
    pub fn next(&mut self, e: &SourceEntry) -> (r: InstallStep)
        ensures
            r == install_step(*e),
            final(self)@ == after_source(old(self)@, *e),
    {
        let ghost r0 = self@;
        match e {
            SourceEntry::Unreadable(c) => {
                let mut m = "readdir entry: ".to_owned();
                m.append(c.as_str());
                self.failures.push(m);
                assert(self@ =~= after_source(r0, *e));
                InstallStep::Ignore
            },
            SourceEntry::Item { name, is_file, dest_exists } => {
                if !*is_file {
                    return InstallStep::Ignore;
                }
                let (stem, ext) = split_extension(name.as_str());
                let lua = match ext {
                    Some(x) => str_eq(x.as_str(), "lua"),
                    None => false,
                };
                if !lua || child("", name.as_str()).is_err() {
                    return InstallStep::Ignore;
                }
                if *dest_exists {
                    self.skipped.push(stem);
                    assert(self@ =~= after_source(r0, *e));
                    return InstallStep::Skip;
                }
                InstallStep::Copy
            },
        }
    }

    /// Takes into account that the file `name` at `path` was copied, or could
    /// not be.
    pub fn copied(&mut self, name: &str, path: &str, outcome: Result<(), String>)
        ensures
            final(self)@ == after_copy(old(self)@, name@, path@, outcome),
    {
        let ghost r0 = self@;
        match outcome {
            Ok(_) => {
                self.installed.push(display_name(path, name));
            },
            Err(c) => {
                let mut m = path.to_owned();
                m.append(": ");
                m.append(c.as_str());
                self.failures.push(m);
            },
        }
        assert(self@ =~= after_copy(r0, name@, path@, outcome));
    }

    /// The answer; an error where the source held no scenario.
    pub fn answer(&self) -> (r: Result<Json, String>)
        ensures
            match r {
                Ok(doc) => !self.is_empty() && doc@ == JsonView::Object(
                    seq![
                        ("installed"@, list_doc(self@.installed)),
                        ("skipped"@, list_doc(self@.skipped)),
                        ("failures"@, list_doc(self@.failures)),
                    ],
                ),
                Err(m) => self.is_empty() && m@ == "No .lua scenario files found in source."@,
            },
    {
        if self.installed.len() == 0 && self.skipped.len() == 0 && self.failures.len() == 0 {
            return Err("No .lua scenario files found in source.".to_owned());
        }
        let r = Json::object().with("installed", Json::texts(&self.installed)).with(
            "skipped",
            Json::texts(&self.skipped),
        ).with("failures", Json::texts(&self.failures));
        assert(r@.members() =~= seq![
            ("installed"@, list_doc(self@.installed)),
            ("skipped"@, list_doc(self@.skipped)),
            ("failures"@, list_doc(self@.failures)),
        ]);
        Ok(r)
    }

    /// Nothing became of any entry.
    pub open spec fn is_empty(self) -> bool {
        self.installed@.len() == 0 && self.skipped@.len() == 0 && self.failures@.len() == 0
    }
}

/// What stands in a scenario's place is never replaced.
pub proof fn law_scenarios_are_never_replaced(name: String, is_file: bool)
    ensures
        install_step(SourceEntry::Item { name, is_file, dest_exists: true }) != InstallStep::Copy,
{
}

} // verus!
