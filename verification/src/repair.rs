//! Healing packages that are gone: which can be installed again, from where,
//! and why the others cannot.

use vstd::prelude::*;
use crate::doctor::{fault_entry, finding_docs};
use crate::health::{
    add_findings, dangling_advice, dangling_reason, not_found, not_found_text, reason_for_dangling,
    symlink_dangling_suggestion, Finding, PlaceFact,
};
use crate::install::{prefix_git_scheme_if_missing, with_scheme};
use crate::json::{views, Json, JsonView};
use crate::source::{InstallSource, PackageSource, SourceView};
use crate::text::opt_text;

verus! {

/// What is to be done about a recorded package.
#[derive(Debug)]
pub enum RepairPlan {
    /// It is there.
    Skip,
    /// It is to be installed again from here.
    Install(InstallSource),
    /// It cannot be healed.
    Unrepairable { kind: &'static str, reason: String, suggestion: String },
}

/// The content of a `RepairPlan`.
pub enum PlanView {
    Skip,
    InstallLocal(Seq<char>),
    InstallGit(Seq<char>),
    Unrepairable(Seq<char>, Seq<char>, Seq<char>),
}

impl View for RepairPlan {
    type V = PlanView;

    open spec fn view(&self) -> PlanView {
        match self {
            RepairPlan::Skip => PlanView::Skip,
            RepairPlan::Install(InstallSource::LocalPath(p)) => PlanView::InstallLocal(p@),
            RepairPlan::Install(InstallSource::GitUrl(u)) => PlanView::InstallGit(u@),
            RepairPlan::Unrepairable { kind, reason, suggestion } => PlanView::Unrepairable(
                kind@,
                reason@,
                suggestion@,
            ),
        }
    }
}

/// What to do where the recorded directory does not hold the package.
pub open spec fn bad_source_advice(name: Seq<char>) -> Seq<char> {
    "alc_pkg_install from a valid source, or remove the '"@ + name
        + "' entry from ~/.algocline/installed.json"@
}

fn advice_for_bad_source(name: &str) -> (r: String)
    ensures
        r@ == bad_source_advice(name@),
{
    let mut r = "alc_pkg_install from a valid source, or remove the '".to_owned();
    r.append(name);
    r.append("' entry from ~/.algocline/installed.json");
    r
}

/// A package that is gone and cannot be installed again.
pub open spec fn hopeless(reason: Seq<char>, suggestion: Seq<char>) -> PlanView {
    PlanView::Unrepairable("installed_missing"@, reason, suggestion)
}

/// What is to be done about the package `name`, recorded with the origin
/// `source`, where `place` was found. Of a recorded directory it matters
/// whether it is there and whether it holds the package.
pub open spec fn repair_plan(
    name: Seq<char>,
    source: SourceView,
    place: PlaceFact,
    source_exists: bool,
    source_has_package: bool,
) -> PlanView {
    if place.alive {
        PlanView::Skip
    } else if place.is_symlink {
        PlanView::Unrepairable(
            "symlink_dangling"@,
            dangling_reason(opt_text(place.link_target)),
            dangling_advice(name),
        )
    } else {
        match source {
            SourceView::Git(url, _) => PlanView::InstallGit(with_scheme(url)),
            SourceView::Path(p) => if !source_exists {
                hopeless("source directory missing: "@ + p, bad_source_advice(name))
            } else if !source_has_package {
                hopeless(
                    "source directory has no init.lua at root: "@ + p,
                    bad_source_advice(name),
                )
            } else {
                PlanView::InstallLocal(p)
            },
            SourceView::Bundled(_) => hopeless(
                "bundled package — restore via `alc_init` or reinstall algocline"@,
                "alc_init (reinstalls bundled packages from the algocline binary)"@,
            ),
            SourceView::Installed => hopeless(
                "legacy 'installed' marker carries no source path"@,
                "alc_pkg_install <path-or-url> to re-record source, then alc_pkg_repair"@,
            ),
            SourceView::Unknown => hopeless(
                "source unknown (legacy entry; run alc_hub_reindex)"@,
                "alc_hub_reindex to rebuild the index, or alc_pkg_install <path-or-url> to re-record source"@,
            ),
        }
    }
}

/// What is to be done about the recorded package `name`.
pub fn plan_repair(
    name: &str,
    source: &PackageSource,
    place: &PlaceFact,
    source_exists: bool,
    source_has_package: bool,
) -> (r: RepairPlan)
    ensures
        r@ == repair_plan(name@, source@, *place, source_exists, source_has_package),
{
    if place.alive {
        return RepairPlan::Skip;
    }
    if place.is_symlink {
        return RepairPlan::Unrepairable {
            kind: "symlink_dangling",
            reason: reason_for_dangling(&place.link_target),
            suggestion: symlink_dangling_suggestion(name),
        };
    }
    let kind = "installed_missing";
    match source {
        PackageSource::Git { url, rev: _ } => RepairPlan::Install(
            InstallSource::GitUrl(normalize_git_url(url.as_str())),
        ),
        PackageSource::Path { path } => {
            if source_exists && source_has_package {
                return RepairPlan::Install(InstallSource::LocalPath(path.clone()));
            }
            let mut reason = if !source_exists {
                "source directory missing: ".to_owned()
            } else {
                "source directory has no init.lua at root: ".to_owned()
            };
            reason.append(path.as_str());
            RepairPlan::Unrepairable { kind, reason, suggestion: advice_for_bad_source(name) }
        },
        PackageSource::Bundled { collection: _ } => RepairPlan::Unrepairable {
            kind,
            reason: "bundled package — restore via `alc_init` or reinstall algocline".to_owned(),
            suggestion: "alc_init (reinstalls bundled packages from the algocline binary)".to_owned(),
        },
        PackageSource::Installed => RepairPlan::Unrepairable {
            kind,
            reason: "legacy 'installed' marker carries no source path".to_owned(),
            suggestion: "alc_pkg_install <path-or-url> to re-record source, then alc_pkg_repair".to_owned(),
        },
        PackageSource::Unknown => RepairPlan::Unrepairable {
            kind,
            reason: "source unknown (legacy entry; run alc_hub_reindex)".to_owned(),
            suggestion: "alc_hub_reindex to rebuild the index, or alc_pkg_install <path-or-url> to re-record source".to_owned(),
        },
    }
}

/// What became of a recorded package.
#[derive(Debug)]
pub enum RepairOutcome {
    /// Installed again, from the origin as it is shown.
    Repaired { source: String },
    /// It was there.
    Skipped,
    Unrepairable { kind: &'static str, reason: String, suggestion: String },
    /// Installing it failed.
    Failed { reason: String },
}

/// The entries of the report, by what became of the packages.
#[derive(Debug)]
pub struct Buckets {
    pub repaired: Vec<Json>,
    pub skipped: Vec<Json>,
    pub unrepairable: Vec<Json>,
    pub failed: Vec<Json>,
}

/// The content of `Buckets`.
#[verifier::ext_equal]
pub struct RepairView {
    pub repaired: Seq<JsonView>,
    pub skipped: Seq<JsonView>,
    pub unrepairable: Seq<JsonView>,
    pub failed: Seq<JsonView>,
}

impl View for Buckets {
    type V = RepairView;

    open spec fn view(&self) -> RepairView {
        RepairView {
            repaired: views(self.repaired@),
            skipped: views(self.skipped@),
            unrepairable: views(self.unrepairable@),
            failed: views(self.failed@),
        }
    }
}

impl RepairView {
    pub open spec fn empty() -> RepairView {
        RepairView {
            repaired: Seq::empty(),
            skipped: Seq::empty(),
            unrepairable: Seq::empty(),
            failed: Seq::empty(),
        }
    }

    /// Some bucket holds an entry.
    pub open spec fn matched(self) -> bool {
        self.repaired.len() > 0 || self.skipped.len() > 0 || self.unrepairable.len() > 0
            || self.failed.len() > 0
    }

    /// The report as a document.
    pub open spec fn json(self) -> JsonView {
        JsonView::Object(
            seq![
                ("repaired"@, JsonView::Array(self.repaired)),
                ("skipped"@, JsonView::Array(self.skipped)),
                ("unrepairable"@, JsonView::Array(self.unrepairable)),
                ("failed"@, JsonView::Array(self.failed)),
            ],
        )
    }
}

/// The entry of a package that was installed again.
pub open spec fn repaired_entry(name: Seq<char>, source: Seq<char>) -> JsonView {
    JsonView::Object(
        seq![
            ("name"@, JsonView::Text(name)),
            ("kind"@, JsonView::Text("installed_missing"@)),
            ("action"@, JsonView::Text("reinstall"@)),
            ("source"@, JsonView::Text(source)),
        ],
    )
}

/// The entry of a package that was there.
pub open spec fn skipped_entry(name: Seq<char>) -> JsonView {
    JsonView::Object(
        seq![("name"@, JsonView::Text(name)), ("reason"@, JsonView::Text("healthy"@))],
    )
}

/// The entry of a package whose install failed.
pub open spec fn failed_entry(name: Seq<char>, reason: Seq<char>) -> JsonView {
    JsonView::Object(
        seq![
            ("name"@, JsonView::Text(name)),
            ("kind"@, JsonView::Text("installed_missing"@)),
            ("reason"@, JsonView::Text(reason)),
        ],
    )
}

/// The buckets with what became of the package `name`.
pub open spec fn with_repair(b: RepairView, name: Seq<char>, o: RepairOutcome) -> RepairView {
    match o {
        RepairOutcome::Repaired { source } => RepairView {
            repaired: b.repaired.push(repaired_entry(name, source@)),
            ..b
        },
        RepairOutcome::Skipped => RepairView { skipped: b.skipped.push(skipped_entry(name)), ..b },
        RepairOutcome::Unrepairable { kind, reason, suggestion } => RepairView {
            unrepairable: b.unrepairable.push(fault_entry(name, kind@, reason@, suggestion@)),
            ..b
        },
        RepairOutcome::Failed { reason } => RepairView {
            failed: b.failed.push(failed_entry(name, reason@)),
            ..b
        },
    }
}

/// What became of a package, where the plan says that it is not installed, or
/// where it was and `installed` came of that. `shown` is its origin.
pub fn outcome_of(plan: RepairPlan, installed: Result<(), String>, shown: &str) -> (r: RepairOutcome)
    ensures
        match plan@ {
            PlanView::Skip => r is Skipped,
            PlanView::Unrepairable(k, a, b) => match r {
                RepairOutcome::Unrepairable { kind, reason, suggestion } => kind@ == k && reason@
                    == a && suggestion@ == b,
                _ => false,
            },
            _ => match installed {
                Ok(_) => match r {
                    RepairOutcome::Repaired { source } => source@ == shown@,
                    _ => false,
                },
                Err(e) => r == (RepairOutcome::Failed { reason: e }),
            },
        },
{
    match plan {
        RepairPlan::Skip => RepairOutcome::Skipped,
        RepairPlan::Unrepairable { kind, reason, suggestion } => RepairOutcome::Unrepairable {
            kind,
            reason,
            suggestion,
        },
        RepairPlan::Install(_) => match installed {
            Ok(_) => RepairOutcome::Repaired { source: shown.to_owned() },
            Err(e) => RepairOutcome::Failed { reason: e },
        },
    }
}

impl Buckets {
    pub fn new() -> (r: Buckets)
        ensures
            r@ == RepairView::empty(),
    {
        let r = Buckets {
            repaired: Vec::new(),
            skipped: Vec::new(),
            unrepairable: Vec::new(),
            failed: Vec::new(),
        };
        assert(r@ =~= RepairView::empty());
        r
    }

    /// Some bucket holds an entry.
    pub fn any_matched(&self) -> (r: bool)
        ensures
            r == self@.matched(),
    {
        assert(views(self.repaired@).len() == self.repaired@.len());
        assert(views(self.skipped@).len() == self.skipped@.len());
        assert(views(self.unrepairable@).len() == self.unrepairable@.len());
        assert(views(self.failed@).len() == self.failed@.len());
        self.repaired.len() > 0 || self.skipped.len() > 0 || self.unrepairable.len() > 0
            || self.failed.len() > 0
    }

    /// Takes what became of the package `name` into account.
    pub fn push_installed_outcome(&mut self, name: &str, outcome: RepairOutcome)
        ensures
            final(self)@ == with_repair(old(self)@, name@, outcome),
    {
        let ghost b0 = self@;
        let ghost o = outcome;
        match outcome {
            RepairOutcome::Repaired { source } => {
                let ghost sv = source@;
                let j = Json::object().with("name", Json::text(name)).with(
                    "kind",
                    Json::text("installed_missing"),
                ).with("action", Json::text("reinstall")).with("source", Json::Text(source));
                assert(j@.members() =~= repaired_entry(name@, sv).members());
                self.repaired.push(j);
            },
            RepairOutcome::Skipped => {
                let j = Json::object().with("name", Json::text(name)).with(
                    "reason",
                    Json::text("healthy"),
                );
                assert(j@.members() =~= skipped_entry(name@).members());
                self.skipped.push(j);
            },
            RepairOutcome::Unrepairable { kind, reason, suggestion } => {
                let ghost (a, b) = (reason@, suggestion@);
                let j = Json::object().with("name", Json::text(name)).with(
                    "kind",
                    Json::text(kind),
                ).with("reason", Json::Text(reason)).with("suggestion", Json::Text(suggestion));
                assert(j@.members() =~= fault_entry(name@, kind@, a, b).members());
                self.unrepairable.push(j);
            },
            RepairOutcome::Failed { reason } => {
                let ghost rv = reason@;
                let j = Json::object().with("name", Json::text(name)).with(
                    "kind",
                    Json::text("installed_missing"),
                ).with("reason", Json::Text(reason));
                assert(j@.members() =~= failed_entry(name@, rv).members());
                self.failed.push(j);
            },
        }
        assert(self@ =~= with_repair(b0, name@, o));
    }

    /// The report, with the links that nothing records and the declared
    /// directories that are gone, none of which can be healed. An error where a
    /// package that is asked for turns up nowhere.
    pub fn report(self, target: Option<&str>, dangling: &Vec<Finding>, gone: &Vec<Finding>) -> (r:
        Result<Json, String>)
        ensures
            match r {
                Ok(doc) => (target is None || completed(self@, dangling@, gone@).matched()) && doc@
                    == completed(self@, dangling@, gone@).json(),
                Err(m) => !completed(self@, dangling@, gone@).matched() && (match target {
                    Some(t) => m@ == not_found_text(t@),
                    None => false,
                }),
            },
    {
        let mut b = self;
        let ghost b0 = b@;
        add_findings(&mut b.unrepairable, dangling);
        add_findings(&mut b.unrepairable, gone);
        assert(b@ =~= completed(b0, dangling@, gone@));
        if let Some(t) = target {
            if !b.any_matched() {
                return Err(not_found(t));
            }
        }
        let ghost bv = b@;
        let r = Json::object().with("repaired", Json::array(b.repaired)).with(
            "skipped",
            Json::array(b.skipped),
        ).with("unrepairable", Json::array(b.unrepairable)).with("failed", Json::array(b.failed));
        assert(r@.members() =~= bv.json().members());
        Ok(r)
    }
}

/// The buckets with the findings that concern no record.
pub open spec fn completed(b: RepairView, dangling: Seq<Finding>, gone: Seq<Finding>) -> RepairView {
    RepairView {
        unrepairable: b.unrepairable + finding_docs(dangling) + finding_docs(gone),
        ..b
    }
}

// ─── Laws ───────────────────────────────────────────────────────

/// A package that is there is left alone, whatever its record says.
pub proof fn law_healthy_is_left_alone(
    name: Seq<char>,
    source: SourceView,
    place: PlaceFact,
    source_exists: bool,
    source_has_package: bool,
)
    requires
        place.alive,
    ensures
        repair_plan(name, source, place, source_exists, source_has_package) is Skip,
{
}

/// Only a package that is gone without a link in its place is installed again,
/// and only from a repository or from a directory that holds it.
pub proof fn law_install_only_where_it_can_succeed(
    name: Seq<char>,
    source: SourceView,
    place: PlaceFact,
    source_exists: bool,
    source_has_package: bool,
)
    requires
        ({
            let p = repair_plan(name, source, place, source_exists, source_has_package);
            p is InstallLocal || p is InstallGit
        }),
    ensures
        !place.alive,
        !place.is_symlink,
        source is Git || (source is Path && source_exists && source_has_package),
{
}

/// The URL from which a recorded repository is cloned again.
pub fn normalize_git_url(url: &str) -> (r: String)
    ensures
        r@ == with_scheme(url@),
{
    prefix_git_scheme_if_missing(url)
}

} // verus!
