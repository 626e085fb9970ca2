//! What running tests reports, and where modules are looked for.

use vstd::prelude::*;
use crate::json::{text_views, with_member, JsonView};
use crate::laws::tools::{lemma_filter_map_has, says};
use crate::list::VariantFact;
use crate::paths::{joined_path, parent_of};
use crate::read::variant_init;
use crate::source::PackageDep;
use crate::testing::{
    all_failed, all_passed, auto_paths, auto_warnings, case_view, cases_of, declared_path,
    declared_warning, dep_dir, installed_path, is_spec_file, package_path, report_view,
    resolved_json, run_view, spec_paths, tested_init, with_search_paths, AutoSearchPathSource,
    Declarations, DeclaredFact, InstalledFact, ResolvedView, SpecOutcome, SpecRun, TestProject,
};
use crate::text::{occurs_in, opt_text, trimmed_end_of};

verus! {

/// A file that ran to its end adds exactly its own counts to those of the others,
/// whatever they are; one that crashed adds one failure and nothing else.
pub proof fn law_every_test_counts(runs: Seq<SpecRun>, r: SpecRun)
    ensures
        all_passed(Seq::empty()) == 0,
        all_failed(Seq::empty()) == 0,
        match r.outcome {
            SpecOutcome::Ran { passed, failed, tests } => all_passed(runs.push(r)) == all_passed(
                runs,
            ) + passed && all_failed(runs.push(r)) == all_failed(runs) + failed,
            SpecOutcome::Crashed(_) => all_passed(runs.push(r)) == all_passed(runs) && all_failed(
                runs.push(r),
            ) == all_failed(runs) + 1,
        },
{
    assert(runs.push(r).drop_last() =~= runs);
}

/// In whatever order files are run, their counts add up alike.
pub proof fn law_counts_add_up(a: Seq<SpecRun>, b: Seq<SpecRun>)
    ensures
        all_passed(a + b) == all_passed(a) + all_passed(b),
        all_failed(a + b) == all_failed(a) + all_failed(b),
    decreases b.len(),
{
    if b.len() == 0 {
        assert(a + b =~= a);
    } else {
        law_counts_add_up(a, b.drop_last());
        assert((a + b).drop_last() =~= a + b.drop_last());
    }
}

/// The report gives the counts of all files, their sum, and each file in its
/// place.
pub proof fn law_test_report_says_what_ran(runs: Seq<SpecRun>, duration_ms: u64)
    ensures
        ({
            let doc = report_view(runs, duration_ms);
            &&& says(doc, "passed"@, JsonView::UInt(all_passed(runs) as u64))
            &&& says(doc, "failed"@, JsonView::UInt(all_failed(runs) as u64))
            &&& says(doc, "pending"@, JsonView::UInt(0))
            &&& says(doc, "total"@, JsonView::UInt((all_passed(runs) + all_failed(runs)) as u64))
            &&& says(doc, "duration_ms"@, JsonView::UInt(duration_ms))
            &&& says(
                doc,
                "spec_files"@,
                JsonView::Array(Seq::new(runs.len(), |i: int| run_view(runs[i]))),
            )
        }),
{
    let ms = report_view(runs, duration_ms).members();
    assert(ms[0].0 == "passed"@ && ms[1].0 == "failed"@ && ms[2].0 == "pending"@);
    assert(ms[3].0 == "total"@ && ms[4].0 == "duration_ms"@ && ms[5].0 == "spec_files"@);
    assert(Seq::new(runs.len(), |i: int| run_view(runs[i])) =~= runs.map_values(
        |r: SpecRun| run_view(r),
    ));
    assert(ms[0] == ("passed"@, JsonView::UInt(all_passed(runs) as u64)));
    assert(ms[1] == ("failed"@, JsonView::UInt(all_failed(runs) as u64)));
    assert(ms[2] == ("pending"@, JsonView::UInt(0)));
    assert(ms[3] == ("total"@, JsonView::UInt((all_passed(runs) + all_failed(runs)) as u64)));
    assert(ms[4] == ("duration_ms"@, JsonView::UInt(duration_ms)));
}

/// The entry of a file gives its own counts as they were found, their sum, its
/// path and time, and its tests.
pub proof fn law_file_entry_says_what_ran(r: SpecRun)
    ensures
        says(run_view(r), "path"@, JsonView::Text(r.path@)),
        says(run_view(r), "duration_ms"@, JsonView::UInt(r.duration_ms)),
        says(run_view(r), "tests"@, JsonView::Array(cases_of(r))),
        match r.outcome {
            SpecOutcome::Ran { passed, failed, tests } => says(
                run_view(r),
                "passed"@,
                JsonView::UInt(passed),
            ) && says(run_view(r), "failed"@, JsonView::UInt(failed)) && (passed + failed
                <= u64::MAX ==> says(
                run_view(r),
                "total"@,
                JsonView::UInt((passed + failed) as u64),
            )),
            SpecOutcome::Crashed(_) => says(run_view(r), "passed"@, JsonView::UInt(0)) && says(
                run_view(r),
                "failed"@,
                JsonView::UInt(1),
            ) && says(run_view(r), "total"@, JsonView::UInt(1)),
        },
{
    let ms = run_view(r).members();
    assert(ms[0] == ("path"@, JsonView::Text(r.path@)));
    assert(ms[1].0 == "passed"@ && ms[2].0 == "failed"@ && ms[3].0 == "total"@);
    assert(ms[4] == ("duration_ms"@, JsonView::UInt(r.duration_ms)));
    assert(ms[5] == ("tests"@, JsonView::Array(cases_of(r))));
    match r.outcome {
        SpecOutcome::Ran { passed, failed, tests } => {
            assert(ms[1] == ("passed"@, JsonView::UInt(passed)));
            assert(ms[2] == ("failed"@, JsonView::UInt(failed)));
            assert(ms[3] == ("total"@, JsonView::UInt((passed + failed) as u64)));
        },
        SpecOutcome::Crashed(_) => {
            assert(ms[1] == ("passed"@, JsonView::UInt(0)));
            assert(ms[2] == ("failed"@, JsonView::UInt(1)));
            assert(ms[3] == ("total"@, JsonView::UInt(1)));
        },
    }
}

/// Every test of a file is told, each with its suite, its name, whether it
/// passed and its error; a crash is told as one failed test with its cause.
pub proof fn law_every_test_is_told(r: SpecRun)
    ensures
        match r.outcome {
            SpecOutcome::Ran { passed, failed, tests } => cases_of(r).len() == tests@.len()
                && forall|i: int|
                0 <= i < tests@.len() ==> {
                    let t = #[trigger] tests@[i];
                    &&& says(cases_of(r)[i], "suite"@, JsonView::Text(t.suite@))
                    &&& says(cases_of(r)[i], "name"@, JsonView::Text(t.name@))
                    &&& says(cases_of(r)[i], "passed"@, JsonView::Bool(t.passed))
                    &&& t.error matches Some(e) ==> says(
                        cases_of(r)[i],
                        "error"@,
                        JsonView::Text(e@),
                    )
                },
            SpecOutcome::Crashed(e) => cases_of(r).len() == 1 && says(
                cases_of(r)[0],
                "suite"@,
                JsonView::Text(r.suite@),
            ) && says(cases_of(r)[0], "passed"@, JsonView::Bool(false)) && says(
                cases_of(r)[0],
                "error"@,
                JsonView::Text(e@),
            ),
        },
{
    match r.outcome {
        SpecOutcome::Ran { passed, failed, tests } => {
            assert forall|i: int| 0 <= i < tests@.len() implies {
                let t = #[trigger] tests@[i];
                &&& says(cases_of(r)[i], "suite"@, JsonView::Text(t.suite@))
                &&& says(cases_of(r)[i], "name"@, JsonView::Text(t.name@))
                &&& says(cases_of(r)[i], "passed"@, JsonView::Bool(t.passed))
                &&& t.error matches Some(e) ==> says(cases_of(r)[i], "error"@, JsonView::Text(e@))
            } by {
                let t = tests@[i];
                lemma_case_says(t.suite@, t.name@, t.passed, opt_text(t.error));
            }
        },
        SpecOutcome::Crashed(e) => {
            lemma_case_says(r.suite@, "<top-level>"@, false, Some(e@));
        },
    }
}

proof fn lemma_case_says(suite: Seq<char>, name: Seq<char>, passed: bool, error: Option<Seq<char>>)
    ensures
        says(case_view(suite, name, passed, error), "suite"@, JsonView::Text(suite)),
        says(case_view(suite, name, passed, error), "name"@, JsonView::Text(name)),
        says(case_view(suite, name, passed, error), "passed"@, JsonView::Bool(passed)),
        error matches Some(e) ==> says(
            case_view(suite, name, passed, error),
            "error"@,
            JsonView::Text(e),
        ),
{
    let ms = case_view(suite, name, passed, error).members();
    assert(ms[0] == ("suite"@, JsonView::Text(suite)));
    assert(ms[1] == ("name"@, JsonView::Text(name)));
    assert(ms[2] == ("passed"@, JsonView::Bool(passed)));
    assert(ms[4].0 == "error"@);
}

/// A file is run exactly where its name ends in `_spec.lua` and what is left of
/// it without that holds the filter, if there is one.
pub proof fn law_spec_files_are_chosen_by_name(
    dir: Seq<char>,
    names: Seq<String>,
    filter: Option<Seq<char>>,
    path: Seq<char>,
)
    ensures
        spec_paths(dir, names, filter).contains(path) <==> exists|i: int|
            0 <= i < names.len() && "_spec.lua"@.is_suffix_of((#[trigger] names[i])@) && (filter
                is None || occurs_in(trimmed_end_of(names[i]@, "_spec.lua"@), filter->0)) && path
                == joined_path(dir, names[i]@),
{
    let f = |n: String|
        if is_spec_file(n@, filter) {
            Some(joined_path(dir, n@))
        } else {
            None
        };
    lemma_filter_map_has(names, f, path);
    if spec_paths(dir, names, filter).contains(path) {
        let i = choose|i: int| 0 <= i < names.len() && f(#[trigger] names[i]) == Some(path);
        assert("_spec.lua"@.is_suffix_of(names[i]@));
    }
    if exists|i: int|
        0 <= i < names.len() && "_spec.lua"@.is_suffix_of((#[trigger] names[i])@) && (filter is None
            || occurs_in(trimmed_end_of(names[i]@, "_spec.lua"@), filter->0)) && path == joined_path(
            dir,
            names[i]@,
        ) {
        let i = choose|i: int|
            0 <= i < names.len() && "_spec.lua"@.is_suffix_of((#[trigger] names[i])@) && (filter
                is None || occurs_in(trimmed_end_of(names[i]@, "_spec.lua"@), filter->0)) && path
                == joined_path(dir, names[i]@);
        assert(f(names[i]) == Some(path));
    }
}

/// The package of the project is tested before a variant, and a variant before
/// what is installed.
pub proof fn law_the_nearest_package_is_tested(
    root: Option<Seq<char>>,
    in_project: bool,
    variants: Seq<VariantFact>,
    packages_dir: Seq<char>,
    name: Seq<char>,
)
    ensures
        ({
            let r = tested_init(root, in_project, variants, packages_dir, name);
            &&& root is Some && in_project ==> r == joined_path(
                joined_path(root->0, name),
                "init.lua"@,
            )
            &&& !(root is Some && in_project) && variant_init(variants, name) is Some ==> r
                == variant_init(variants, name)->0
            &&& !(root is Some && in_project) && variant_init(variants, name) is None ==> r
                == joined_path(joined_path(packages_dir, name), "init.lua"@)
        }),
{
}

/// A module is looked for in each directory before those that follow, as a file
/// and then as a directory, and last where it was looked for before; a slash at
/// the end of a directory makes no difference.
pub proof fn law_directories_are_searched_in_order(
    dirs: Seq<Seq<char>>,
    more: Seq<Seq<char>>,
    d: Seq<char>,
    current: Seq<char>,
)
    ensures
        package_path(Seq::empty(), current) == current,
        package_path(dirs + more, current) == package_path(dirs, package_path(more, current)),
        ({
            let t = trimmed_end_of(d, "/"@);
            package_path(seq![d], current) == t + "/?.lua;"@ + t + "/?/init.lua;"@ + current
        }),
    decreases dirs.len(),
{
    assert(seq![d].drop_first() =~= Seq::<Seq<char>>::empty());
    if dirs.len() == 0 {
        assert(dirs + more =~= more);
    } else {
        law_directories_are_searched_in_order(dirs.drop_first(), more, d, current);
        assert((dirs + more).drop_first() =~= dirs.drop_first() + more);
    }
}

/// The declared package `f` leads to a directory that is there.
pub open spec fn leads_to_dir(f: DeclaredFact) -> bool {
    f.dep is Path && f.canonical is Ok
}

/// A package of the packages directory is found there exactly where it is a
/// directory with an `init.lua`.
pub proof fn law_installed_packages_are_searched(dir: Seq<char>, f: InstalledFact)
    ensures
        installed_path(dir, f) is Some <==> f.is_dir && f.has_init,
        installed_path(dir, f) matches Some(p) ==> p.name == f.name@ && p.search_dir == dir
            && p.source == AutoSearchPathSource::Installed,
{
}

/// A declared directory is searched by what holds it, exactly where it can be
/// resolved; where it cannot, a warning tells so; what declares no directory is
/// passed over in silence.
pub proof fn law_declared_directories_are_searched(
    root: Seq<char>,
    source: AutoSearchPathSource,
    f: DeclaredFact,
)
    ensures
        declared_path(root, source, f) is Some <==> leads_to_dir(f),
        declared_path(root, source, f) matches Some(p) ==> p.name == f.name@ && p.source == source
            && p.search_dir == (match parent_of(f.canonical->Ok_0@) {
            Some(t) => t,
            None => f.canonical->Ok_0@,
        }),
        declared_warning(root, source, f) is Some <==> f.dep is Path && f.canonical is Err,
        dep_dir(root, f.dep) is Some <==> f.dep is Path,
        f.dep matches PackageDep::Path { path, version } ==> dep_dir(root, f.dep) == Some(
            joined_path(root, path@),
        ),
{
}

/// What is installed is searched first, then what `alc.toml` declares, then what
/// `alc.local.toml` declares; a directory or file that cannot be read gives a
/// warning and no path, and without a project only what is installed counts.
pub proof fn law_sources_are_searched_in_order(
    dir: Seq<char>,
    found: Result<Vec<InstalledFact>, String>,
    p: TestProject,
)
    ensures
        auto_paths(dir, found, Some(p)).len() >= auto_paths(dir, found, None).len(),
        auto_paths(dir, found, None).is_prefix_of(auto_paths(dir, found, Some(p))),
        auto_warnings(dir, found, None).is_prefix_of(auto_warnings(dir, found, Some(p))),
        found is Err ==> auto_paths(dir, found, None).len() == 0 && auto_warnings(
            dir,
            found,
            None,
        ).len() == 1,
        found is Ok ==> auto_warnings(dir, found, None).len() == 0,
        found matches Ok(v) ==> auto_paths(dir, found, None) == v@.filter_map(
            |f: InstalledFact| installed_path(dir, f),
        ),
        p.toml is Missing && p.local is Missing ==> auto_paths(dir, found, Some(p)) == auto_paths(
            dir,
            found,
            None,
        ),
        p.toml is Failed && p.local is Failed ==> auto_paths(dir, found, Some(p)) == auto_paths(
            dir,
            found,
            None,
        ) && auto_warnings(dir, found, Some(p)).len() == auto_warnings(dir, found, None).len() + 2,
        p.toml matches Declarations::Loaded(t) ==> p.local matches Declarations::Loaded(l)
            ==> auto_paths(dir, found, Some(p)) == auto_paths(dir, found, None) + t@.filter_map(
            |f: DeclaredFact| declared_path(p.root@, AutoSearchPathSource::AlcToml, f),
        ) + l@.filter_map(
            |f: DeclaredFact| declared_path(p.root@, AutoSearchPathSource::AlcLocalToml, f),
        ),
{
    let few = auto_paths(dir, found, None);
    let all = auto_paths(dir, found, Some(p));
    assert(few =~= all.take(few.len() as int));
    let w = auto_warnings(dir, found, None);
    assert(w =~= auto_warnings(dir, found, Some(p)).take(w.len() as int));
    if p.toml is Missing && p.local is Missing || p.toml is Failed && p.local is Failed {
        assert(all =~= few);
    }
    if let Declarations::Loaded(t) = p.toml {
        if let Declarations::Loaded(l) = p.local {
            assert(all =~= few + t@.filter_map(
                |f: DeclaredFact| declared_path(p.root@, AutoSearchPathSource::AlcToml, f),
            ) + l@.filter_map(
                |f: DeclaredFact| declared_path(p.root@, AutoSearchPathSource::AlcLocalToml, f),
            ));
        }
    }
    if found is Ok {
        assert(few =~= found->Ok_0@.filter_map(|f: InstalledFact| installed_path(dir, f)));
    }
}

/// A result is given the search paths, each told whole, and the warnings exactly
/// where there are any; anything but an object stays as it is.
pub proof fn law_search_paths_are_told(
    ms: Seq<(Seq<char>, JsonView)>,
    resolved: Seq<ResolvedView>,
    warnings: Seq<Seq<char>>,
)
    ensures
        ({
            let doc = with_search_paths(JsonView::Object(ms), resolved, warnings);
            let paths = JsonView::Array(
                Seq::new(resolved.len(), |i: int| resolved_json(resolved[i])),
            );
            let with_paths = with_member(ms, "resolved_search_paths"@, paths);
            &&& warnings.len() == 0 ==> doc == JsonView::Object(with_paths)
            &&& warnings.len() > 0 ==> doc == JsonView::Object(
                with_member(
                    with_paths,
                    "search_path_warnings"@,
                    JsonView::Array(text_views(warnings)),
                ),
            )
        }),
        with_search_paths(JsonView::Null, resolved, warnings) == JsonView::Null,
{
    assert(Seq::new(resolved.len(), |i: int| resolved_json(resolved[i])) =~= resolved.map_values(
        |r: ResolvedView| resolved_json(r),
    ));
}

/// A search path is told with its package, its directory and where it was taken
/// from.
pub proof fn law_a_search_path_is_told_whole(r: ResolvedView)
    ensures
        says(resolved_json(r), "name"@, JsonView::Text(r.name)),
        says(resolved_json(r), "search_dir"@, JsonView::Text(r.search_dir)),
        says(resolved_json(r), "source"@, JsonView::Text(r.source.name_view())),
{
    let ms = resolved_json(r).members();
    assert(ms[0] == ("name"@, JsonView::Text(r.name)));
    assert(ms[1] == ("search_dir"@, JsonView::Text(r.search_dir)));
    assert(ms[2] == ("source"@, JsonView::Text(r.source.name_view())));
}

} // verus!
