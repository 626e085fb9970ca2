//! What messages and advice say.

use vstd::prelude::*;
use crate::doctor::{incomplete_advice, missing_advice, with_outcome, BucketsView, OutcomeView};
use crate::health::{
    dangling_advice, dangling_reason, gone_finding, stray_advice, PlaceFact, ProjectPathSource,
};
use crate::json::JsonView;
use crate::laws::tools::says;
use crate::repair::{
    bad_source_advice, repair_plan, with_repair, PlanView, RepairOutcome, RepairView,
};
use crate::sections::PackProfileError;
use crate::source::SourceView;
use crate::testing::{
    case_view, declared_paths, declared_warning, declared_warnings, dep_dir, installed_paths,
    installed_warnings, AutoSearchPathSource, Declarations, DeclaredFact, InstalledFact,
};
use crate::text::{decimal, quoted};
use crate::unpack::{fetch_failed, target_missing, unfetchable};

verus! {

/// What is told of a link that leads nowhere, and what to do about it.
pub proof fn law_dangling_links_are_told(name: Seq<char>, target: Seq<char>)
    ensures
        dangling_reason(Some(target)) == "symlink target missing: "@ + target,
        dangling_reason(None) == "symlink target missing: "@ + "<unknown>"@,
        dangling_advice(name) == "alc_pkg_unlink("@ + quoted(name)
            + ") then alc_pkg_link with the new path"@,
{
}

/// What to do about a package that is gone or not whole.
pub proof fn law_advice_about_packages(name: Seq<char>, source: SourceView)
    ensures
        incomplete_advice(name, true) == "Re-run alc_pkg_link <path> to re-link "@ + quoted(name)
            + " with the complete source directory"@,
        incomplete_advice(name, false) == "Run alc_pkg_install --force "@ + quoted(name)
            + " to reinstall "@ + quoted(name) + " with all submodule files"@,
        source is Bundled ==> missing_advice(name, source)
            == "alc_init (reinstalls bundled packages from the algocline binary)"@,
        source matches SourceView::Path(p) ==> missing_advice(name, source) == "alc_pkg_install("@
            + quoted(p) + ") to reinstall "@ + quoted(name) + " from local path"@,
        source matches SourceView::Git(u, _) ==> missing_advice(name, source) == "alc_pkg_install("@
            + quoted(u) + ") to reinstall "@ + quoted(name) + " from Git"@,
        source is Installed ==> missing_advice(name, source)
            == "alc_pkg_install <path-or-url> to re-record source for "@ + quoted(name)
            + " (legacy 'installed' marker carries no path)"@,
        source is Unknown ==> missing_advice(name, source)
            == "alc_hub_reindex then alc_pkg_install <path-or-url> for "@ + quoted(name)
            + " (source unknown — legacy entry)"@,
        bad_source_advice(name) == "alc_pkg_install from a valid source, or remove the '"@ + name
            + "' entry from ~/.algocline/installed.json"@,
{
}

/// What to do about a declared directory that is gone, by the file that declares it.
pub proof fn law_advice_about_declarations(name: Seq<char>, path: Seq<char>)
    ensures
        gone_finding(name, path, ProjectPathSource::Toml).suggestion
            == "update or remove [packages."@ + name + "] in alc.toml"@,
        gone_finding(name, path, ProjectPathSource::Local).suggestion == "alc_pkg_unlink("@ + quoted(
            name,
        ) + ") or update [packages."@ + name + "] in alc.local.toml"@,
{
}

/// What to do about a package that nothing records.
pub proof fn law_advice_about_strays(path: Seq<char>)
    ensures
        stray_advice(path)[0]
            == "If this pkg was scaffolded outside `alc_pkg_scaffold` and you want it installed: `alc_pkg_install --force "@
            + path + "` (re-copy + register in installed.json)"@,
        stray_advice(path)[1]
            == "If you are actively iterating on this pkg in-tree: `alc_pkg_link "@ + path
            + "` (symlink-based, no copy)"@,
        stray_advice(path)[2] == "If this dir is stale/abandoned: `rm -rf "@ + path
            + "` to clean it up"@,
        stray_advice(path)[3]
            == "Note: source is unknown — git URL cannot be inferred from the bare directory. Re-record via one of the above."@,
{
}

/// Why a package cannot be healed that was bundled, or whose origin is not recorded.
pub proof fn law_why_origins_cannot_be_healed_from(
    name: Seq<char>,
    source: SourceView,
    place: PlaceFact,
    a: bool,
    b: bool,
)
    requires
        !place.alive,
        !place.is_symlink,
    ensures
        source is Bundled ==> repair_plan(name, source, place, a, b) == PlanView::Unrepairable(
            "installed_missing"@,
            "bundled package — restore via `alc_init` or reinstall algocline"@,
            "alc_init (reinstalls bundled packages from the algocline binary)"@,
        ),
        source is Installed ==> repair_plan(name, source, place, a, b) == PlanView::Unrepairable(
            "installed_missing"@,
            "legacy 'installed' marker carries no source path"@,
            "alc_pkg_install <path-or-url> to re-record source, then alc_pkg_repair"@,
        ),
        source is Unknown ==> repair_plan(name, source, place, a, b) == PlanView::Unrepairable(
            "installed_missing"@,
            "source unknown (legacy entry; run alc_hub_reindex)"@,
            "alc_hub_reindex to rebuild the index, or alc_pkg_install <path-or-url> to re-record source"@,
        ),
{
}

/// Every entry of a diagnosis tells its kind.
pub proof fn law_diagnoses_tell_their_kind(b: BucketsView, name: Seq<char>, o: OutcomeView)
    ensures
        o is SymlinkDangling ==> says(
            with_outcome(b, name, o).symlink_dangling.last(),
            "kind"@,
            JsonView::Text("symlink_dangling"@),
        ),
        o is InstalledMissing ==> says(
            with_outcome(b, name, o).installed_missing.last(),
            "kind"@,
            JsonView::Text("installed_missing"@),
        ),
        o is IncompletePkg ==> says(
            with_outcome(b, name, o).incomplete_pkg.last(),
            "kind"@,
            JsonView::Text("incomplete_pkg"@),
        ),
{
    let r = with_outcome(b, name, o);
    if o is SymlinkDangling {
        assert(r.symlink_dangling.last().members()[1].0 == "kind"@);
    }
    if o is InstalledMissing {
        assert(r.installed_missing.last().members()[1].0 == "kind"@);
    }
    if o is IncompletePkg {
        assert(r.incomplete_pkg.last().members()[1].0 == "kind"@);
    }
}

/// Every entry of a repair tells its kind, or that the package was healthy.
pub proof fn law_repairs_tell_their_kind(b: RepairView, name: Seq<char>, o: RepairOutcome)
    ensures
        o is Repaired ==> says(
            with_repair(b, name, o).repaired.last(),
            "kind"@,
            JsonView::Text("installed_missing"@),
        ),
        o is Skipped ==> says(
            with_repair(b, name, o).skipped.last(),
            "reason"@,
            JsonView::Text("healthy"@),
        ),
        o is Failed ==> says(
            with_repair(b, name, o).failed.last(),
            "kind"@,
            JsonView::Text("installed_missing"@),
        ),
{
    let r = with_repair(b, name, o);
    if o is Repaired {
        assert(r.repaired.last().members()[1].0 == "kind"@);
    }
    if o is Skipped {
        assert(r.skipped.last().members()[1].0 == "reason"@);
    }
    if o is Failed {
        assert(r.failed.last().members()[1].0 == "kind"@);
    }
}

/// A selection of sections, and a profile, are refused with what is wrong.
pub proof fn law_refused_selections_are_told(e: PackProfileError)
    ensures
        e matches PackProfileError::UnknownSection { name, known } ==> e.message_view()
            == "unknown section '"@ + name@ + "' (known sections: "@ + known@ + ")"@,
        e is CoreExcluded ==> e.message_view()
            == "section 'core' cannot be excluded: a pack without it has no profile to unpack from"@,
        e matches PackProfileError::UnsupportedFormatVersion { path, found, supported }
            ==> e.message_view() == "pack profile at "@ + path@ + " declares format_version "@
            + decimal(found as nat) + ", but this build supports up to "@ + decimal(
            supported as nat,
        ) + ": upgrade algocline to unpack it"@,
{
}

/// What is told of what a restore could not resolve.
pub proof fn law_unresolved_things_are_told(name: Seq<char>, t: Seq<char>)
    ensures
        target_missing(name, t).kind == "link_target_missing"@,
        target_missing(name, t).detail == Some(
            "clone the repository to this path, or re-point the link with alc_pkg_link"@,
        ),
        unfetchable(name).kind == "source_not_refetchable"@,
        unfetchable(name).detail == Some(
            "declaration carries no fetchable origin; re-pack with packages_only to carry its bytes instead"@,
        ),
        fetch_failed(name, t).detail == Some(t),
{
}

/// A declared directory that cannot be resolved, and files and directories that
/// cannot be read, are told with the cause.
pub proof fn law_search_path_warnings(
    root: Seq<char>,
    source: AutoSearchPathSource,
    f: DeclaredFact,
    d: Declarations,
    found: Result<Vec<InstalledFact>, String>,
)
    ensures
        declared_warning(root, source, f) matches Some(w) ==> f.canonical is Err && dep_dir(
            root,
            f.dep,
        ) is Some && w == "cannot canonicalize "@ + source.name_view() + " path entry for '"@ + f.name@
            + "' ("@ + dep_dir(root, f.dep)->Some_0 + "): "@ + f.canonical->Err_0@,
        d matches Declarations::Failed(e) ==> declared_warnings(root, source, d) == seq![
            "failed to load "@ + source.name_view() + " at "@ + root + ": "@ + e@,
        ] && declared_paths(root, source, d).len() == 0,
        d is Missing ==> declared_warnings(root, source, d).len() == 0 && declared_paths(
            root,
            source,
            d,
        ).len() == 0,
        found is Ok ==> installed_warnings(root, found).len() == 0,
        found matches Err(e) ==> installed_warnings(root, found) == seq![
            "failed to read packages dir "@ + root + ": "@ + e@,
        ] && installed_paths(root, found).len() == 0,
        source == AutoSearchPathSource::Installed ==> source.name_view() == "installed"@,
        source == AutoSearchPathSource::AlcToml ==> source.name_view() == "alc.toml"@,
        source == AutoSearchPathSource::AlcLocalToml ==> source.name_view() == "alc.local.toml"@,
{
}

/// A test that ran is not pending, and one without an error tells none.
pub proof fn law_tests_that_ran_are_not_pending(
    suite: Seq<char>,
    name: Seq<char>,
    passed: bool,
    error: Option<Seq<char>>,
)
    ensures
        says(case_view(suite, name, passed, error), "pending"@, JsonView::Bool(false)),
        error is None ==> says(case_view(suite, name, passed, error), "error"@, JsonView::Null),
{
    let ms = case_view(suite, name, passed, error).members();
    assert(ms[3] == ("pending"@, JsonView::Bool(false)));
    assert(ms[4].0 == "error"@);
}

} // verus!
