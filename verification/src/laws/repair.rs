//! What repairing does, by what is recorded and found.

use vstd::prelude::*;
use crate::health::{dangling_advice, dangling_reason, finding_json, Finding, PlaceFact};
use crate::install::with_scheme;
use crate::json::JsonView;
use crate::laws::doctor::law_a_fault_is_told_whole;
use crate::laws::tools::says;
use crate::repair::{
    bad_source_advice, completed, repair_plan, with_repair, PlanView, RepairOutcome, RepairView,
};
use crate::source::SourceView;
use crate::text::opt_text;

verus! {

/// A package that is there is left alone; a link that leads nowhere cannot be
/// healed; a package that is gone is installed again from the repository that is
/// recorded, or from the directory that is recorded where that is there with the
/// package in it, and from nothing else.
pub proof fn law_what_is_gone_is_installed_again(
    name: Seq<char>,
    source: SourceView,
    place: PlaceFact,
    source_exists: bool,
    source_has_package: bool,
    from: Seq<char>,
)
    ensures
        ({
            let plan = repair_plan(name, source, place, source_exists, source_has_package);
            let gone = !place.alive && !place.is_symlink;
            &&& plan is Skip <==> place.alive
            &&& plan == PlanView::InstallGit(from) <==> gone && (source matches SourceView::Git(
                url,
                _,
            ) && from == with_scheme(url))
            &&& plan == PlanView::InstallLocal(from) <==> gone && source == SourceView::Path(from)
                && source_exists && source_has_package
            &&& plan is Unrepairable <==> (!place.alive && place.is_symlink) || (gone && !(source
                is Git) && !(source is Path && source_exists && source_has_package))
        }),
{
}

/// Why a package cannot be healed: a dangling link by where it led, a directory by
/// its path, whether it is gone or lacks the package, and the rest by its origin.
pub proof fn law_unrepairable_is_explained(
    name: Seq<char>,
    source: SourceView,
    place: PlaceFact,
    source_exists: bool,
    source_has_package: bool,
)
    ensures
        repair_plan(name, source, place, source_exists, source_has_package)
            matches PlanView::Unrepairable(kind, reason, advice) ==> {
            &&& place.is_symlink <==> kind == "symlink_dangling"@
            &&& !place.is_symlink <==> kind == "installed_missing"@
            &&& place.is_symlink ==> reason == dangling_reason(opt_text(place.link_target)) && advice
                == dangling_advice(name)
            &&& !place.is_symlink ==> (source matches SourceView::Path(p) ==> advice
                == bad_source_advice(name) && reason == (if source_exists {
                "source directory has no init.lua at root: "@
            } else {
                "source directory missing: "@
            }) + p)
            &&& !place.is_symlink && source is Bundled ==> "alc_init"@.is_prefix_of(advice)
            &&& !place.is_symlink && source is Installed ==> "alc_pkg_install"@.is_prefix_of(advice)
            &&& !place.is_symlink && source is Unknown ==> "alc_hub_reindex"@.is_prefix_of(advice)
        },
{
    reveal_strlit("symlink_dangling");
    reveal_strlit("installed_missing");
    reveal_strlit("alc_init");
    reveal_strlit("alc_init (reinstalls bundled packages from the algocline binary)");
    reveal_strlit("alc_pkg_install");
    reveal_strlit("alc_pkg_install <path-or-url> to re-record source, then alc_pkg_repair");
    reveal_strlit("alc_hub_reindex");
    reveal_strlit(
        "alc_hub_reindex to rebuild the index, or alc_pkg_install <path-or-url> to re-record source",
    );
    assert("symlink_dangling"@.len() == 16 && "installed_missing"@.len() == 17);
}

/// What became of a package goes to the list of its own, with the package's name
/// and what is to be told of it, and the other lists stay as they are.
pub proof fn law_repairs_go_to_their_lists(b: RepairView, name: Seq<char>, o: RepairOutcome)
    ensures
        ({
            let r = with_repair(b, name, o);
            let named = JsonView::Text(name);
            &&& o matches RepairOutcome::Repaired { source } ==> r.repaired.len() == b.repaired.len()
                + 1 && r.repaired.drop_last() == b.repaired && says(r.repaired.last(), "name"@, named)
                && says(r.repaired.last(), "source"@, JsonView::Text(source@)) && says(
                r.repaired.last(),
                "action"@,
                JsonView::Text("reinstall"@),
            )
            &&& !(o is Repaired) ==> r.repaired == b.repaired
            &&& o is Skipped ==> r.skipped.len() == b.skipped.len() + 1 && r.skipped.drop_last()
                == b.skipped && says(r.skipped.last(), "name"@, named)
            &&& !(o is Skipped) ==> r.skipped == b.skipped
            &&& o matches RepairOutcome::Unrepairable { kind, reason, suggestion }
                ==> r.unrepairable.len() == b.unrepairable.len() + 1 && r.unrepairable.drop_last()
                == b.unrepairable && says(r.unrepairable.last(), "name"@, named) && says(
                r.unrepairable.last(),
                "kind"@,
                JsonView::Text(kind@),
            ) && says(r.unrepairable.last(), "reason"@, JsonView::Text(reason@)) && says(
                r.unrepairable.last(),
                "suggestion"@,
                JsonView::Text(suggestion@),
            )
            &&& !(o is Unrepairable) ==> r.unrepairable == b.unrepairable
            &&& o matches RepairOutcome::Failed { reason } ==> r.failed.len() == b.failed.len() + 1
                && r.failed.drop_last() == b.failed && says(r.failed.last(), "name"@, named) && says(
                r.failed.last(),
                "reason"@,
                JsonView::Text(reason@),
            )
            &&& !(o is Failed) ==> r.failed == b.failed
        }),
{
    let r = with_repair(b, name, o);
    match o {
        RepairOutcome::Repaired { source } => {
            assert(r.repaired.drop_last() =~= b.repaired);
            let ms = r.repaired.last().members();
            assert(ms[0] == ("name"@, JsonView::Text(name)));
            assert(ms[2] == ("action"@, JsonView::Text("reinstall"@)));
            assert(ms[3] == ("source"@, JsonView::Text(source@)));
        },
        RepairOutcome::Skipped => {
            assert(r.skipped.drop_last() =~= b.skipped);
            assert(r.skipped.last().members()[0] == ("name"@, JsonView::Text(name)));
        },
        RepairOutcome::Unrepairable { kind, reason, suggestion } => {
            assert(r.unrepairable.drop_last() =~= b.unrepairable);
            law_a_fault_is_told_whole(name, kind@, reason@, suggestion@);
        },
        RepairOutcome::Failed { reason } => {
            assert(r.failed.drop_last() =~= b.failed);
            let ms = r.failed.last().members();
            assert(ms[0] == ("name"@, JsonView::Text(name)));
            assert(ms[2] == ("reason"@, JsonView::Text(reason@)));
        },
    }
}

/// The report has its four lists, with every finding that no record accounts for
/// among what cannot be healed; something was found exactly where one of the
/// lists is not empty.
pub proof fn law_a_repair_report_is_whole(b: RepairView, dangling: Seq<Finding>, gone: Seq<Finding>)
    ensures
        ({
            let c = completed(b, dangling, gone);
            &&& c.repaired == b.repaired && c.skipped == b.skipped && c.failed == b.failed
            &&& c.unrepairable == b.unrepairable + Seq::new(
                dangling.len(),
                |i: int| finding_json(dangling[i]@),
            ) + Seq::new(gone.len(), |i: int| finding_json(gone[i]@))
        }),
        says(b.json(), "repaired"@, JsonView::Array(b.repaired)),
        says(b.json(), "skipped"@, JsonView::Array(b.skipped)),
        says(b.json(), "unrepairable"@, JsonView::Array(b.unrepairable)),
        says(b.json(), "failed"@, JsonView::Array(b.failed)),
        !b.matched() <==> b.repaired.len() == 0 && b.skipped.len() == 0 && b.unrepairable.len() == 0
            && b.failed.len() == 0,
{
    let c = completed(b, dangling, gone);
    assert(c.unrepairable =~= b.unrepairable + Seq::new(
        dangling.len(),
        |i: int| finding_json(dangling[i]@),
    ) + Seq::new(gone.len(), |i: int| finding_json(gone[i]@)));
    let ms = b.json().members();
    assert(ms[0] == ("repaired"@, JsonView::Array(b.repaired)));
    assert(ms[1] == ("skipped"@, JsonView::Array(b.skipped)));
    assert(ms[2] == ("unrepairable"@, JsonView::Array(b.unrepairable)));
    assert(ms[3] == ("failed"@, JsonView::Array(b.failed)));
}

} // verus!
