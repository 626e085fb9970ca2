use algocline_app::json::Json;
use algocline_app::list::VariantFact;
use algocline_app::source::PackageDep;
use algocline_app::testing::{
    attach_resolved_meta, choose_input, collect_auto_search_paths, collect_spec_files, dir_of_file,
    dirs_of, locate_package, package_missing, prepend_search_paths, report, search_order,
    spec_file, AutoSearchPathSource, DeclaredFact, Declarations, InstalledFact, ResolvedSearchPath,
    SpecOutcome, SpecRun, TestCase, TestInput, TestProject,
};

fn value(j: &Json) -> serde_json::Value {
    serde_json::from_str(&j.render()).unwrap()
}

fn run_of(path: &str, outcome: SpecOutcome) -> SpecRun {
    SpecRun {
        path: path.to_string(),
        suite: "inline".to_string(),
        outcome,
        duration_ms: 2,
    }
}

fn case(name: &str, passed: bool) -> TestCase {
    TestCase {
        suite: "suite".to_string(),
        name: name.to_string(),
        passed,
        error: if passed { None } else { Some("1 ~= 2".to_string()) },
    }
}

#[test]
fn inline_passing_test_returns_passed_one() {
    let runs = vec![run_of(
        "<inline>",
        SpecOutcome::Ran {
            passed: 1,
            failed: 0,
            tests: vec![case("passes", true)],
        },
    )];
    let json = value(&report(&runs, 3).unwrap());
    assert_eq!(json["passed"], 1, "expected 1 passed: {json}");
    assert_eq!(json["failed"], 0, "expected 0 failed: {json}");
    assert_eq!(json["pending"], 0, "expected 0 pending: {json}");
    assert_eq!(json["duration_ms"], 3);
    assert_eq!(json["spec_files"][0]["tests"][0]["name"], "passes");
    assert!(json["spec_files"][0]["tests"][0]["error"].is_null());
}

#[test]
fn inline_failing_test_absorbed_returns_ok() {
    let runs = vec![run_of(
        "<inline>",
        SpecOutcome::Ran {
            passed: 0,
            failed: 1,
            tests: vec![case("fails", false)],
        },
    )];
    let json = value(&report(&runs, 3).unwrap());
    assert_eq!(json["failed"], 1, "expected 1 failed: {json}");
    assert_eq!(json["passed"], 0, "expected 0 passed: {json}");
}

#[test]
fn crashes_count_as_one_failure() {
    let runs = vec![
        run_of("a_spec.lua", SpecOutcome::Crashed("boom".to_string())),
        run_of(
            "b_spec.lua",
            SpecOutcome::Ran {
                passed: 2,
                failed: 0,
                tests: Vec::new(),
            },
        ),
    ];
    let json = value(&report(&runs, 9).unwrap());
    assert_eq!(json["failed"], 1);
    assert_eq!(json["passed"], 2);
    assert_eq!(json["total"], 3);
    let t = &json["spec_files"][0]["tests"][0];
    assert_eq!(t["name"], "<top-level>");
    assert_eq!(t["passed"], false);
    assert_eq!(t["error"], "boom");
}

#[test]
fn counts_that_do_not_fit_give_no_report() {
    let many = || SpecOutcome::Ran {
        passed: u64::MAX,
        failed: 0,
        tests: Vec::new(),
    };
    let runs = vec![run_of("a", many()), run_of("b", many())];
    assert!(report(&runs, 0).is_none());
}

#[test]
fn zero_inputs_returns_exclusivity_error() {
    let err = choose_input(None, None, None).expect_err("should return Err for zero inputs");
    assert_eq!(err, "pkg_test: provide exactly one of pkg, code_file, code");
}

#[test]
fn multiple_inputs_returns_exclusivity_error() {
    let err = choose_input(Some("mypkg".into()), None, Some("return 1".into()))
        .expect_err("should return Err for multiple inputs");
    assert_eq!(err, "pkg_test: provide exactly one of pkg, code_file, code");
    assert!(matches!(
        choose_input(None, Some("/x_spec.lua".into()), None),
        Ok(TestInput::CodeFile(p)) if p == "/x_spec.lua"
    ));
    assert!(matches!(
        choose_input(None, None, Some("c".into())),
        Ok(TestInput::Code(_))
    ));
    assert!(matches!(
        choose_input(Some("p".into()), None, None),
        Ok(TestInput::Pkg(_))
    ));
}

#[test]
fn auto_search_paths_false_returns_empty_resolved_mapping() {
    let result = attach_resolved_meta(r#"{"passed":1}"#, &Vec::new(), &Vec::new());
    let json: serde_json::Value = serde_json::from_str(&result).unwrap();
    assert!(
        json["resolved_search_paths"].is_array(),
        "resolved_search_paths must be present: {result}"
    );
    assert_eq!(
        json["resolved_search_paths"].as_array().unwrap().len(),
        0,
        "resolved_search_paths must be empty when auto_search_paths=false: {result}"
    );
    assert!(
        json.get("resolved_search_paths").is_some(),
        "resolved_search_paths key must be present: {result}"
    );
    assert!(json.get("search_path_warnings").is_none());
}

fn installed(name: &str) -> InstalledFact {
    InstalledFact {
        name: name.to_string(),
        is_dir: true,
        has_init: true,
    }
}

fn declared(name: &str, path: &str, canonical: &str) -> DeclaredFact {
    DeclaredFact {
        name: name.to_string(),
        dep: PackageDep::Path {
            path: path.to_string(),
            version: None,
        },
        canonical: Ok(canonical.to_string()),
    }
}

fn row<'a>(rows: &'a [ResolvedSearchPath], name: &str) -> &'a ResolvedSearchPath {
    rows.iter().find(|r| r.name == name).expect("row")
}

#[test]
fn installed_pkg_appears_in_resolved_search_paths() {
    let (rows, _) = collect_auto_search_paths("/app/packages", &Ok(vec![installed("mypkg")]), &None);
    let result = attach_resolved_meta("{}", &rows, &Vec::new());
    let json: serde_json::Value = serde_json::from_str(&result).unwrap();
    let r = &json["resolved_search_paths"][0];
    assert_eq!(r["source"], "installed");
    assert_eq!(r["name"], "mypkg");
    assert_eq!(
        r["search_dir"], "/app/packages",
        "search_dir must be the packages/ parent dir: {result}"
    );
}

#[test]
fn alc_toml_path_entry_appears_in_resolved_search_paths() {
    let project = Some(TestProject {
        root: "/p".to_string(),
        toml: Declarations::Loaded(vec![declared(
            "ext_pkg",
            "ext_pkgs/ext_pkg",
            "/p/ext_pkgs/ext_pkg",
        )]),
        local: Declarations::Missing,
    });
    let (rows, warnings) = collect_auto_search_paths("/app/packages", &Ok(Vec::new()), &project);
    assert!(warnings.is_empty());
    let r = row(&rows, "ext_pkg");
    assert_eq!(r.source.as_str(), "alc.toml");
    assert_eq!(
        r.search_dir, "/p/ext_pkgs",
        "search_dir must be the canonicalized parent of the pkg dir"
    );
}

#[test]
fn alc_local_toml_path_entry_appears_in_resolved_search_paths() {
    let project = Some(TestProject {
        root: "/p".to_string(),
        toml: Declarations::Missing,
        local: Declarations::Loaded(vec![declared(
            "variant_pkg",
            "variant_pkgs/variant_pkg",
            "/p/variant_pkgs/variant_pkg",
        )]),
    });
    let (rows, _) = collect_auto_search_paths("/app/packages", &Ok(Vec::new()), &project);
    let r = row(&rows, "variant_pkg");
    assert_eq!(r.source.as_str(), "alc.local.toml");
    assert_eq!(
        r.search_dir, "/p/variant_pkgs",
        "search_dir must be the canonicalized parent"
    );
}

#[test]
fn auto_paths_prepended_before_caller_search_paths() {
    let (mapping, warnings) =
        collect_auto_search_paths("/app/packages", &Ok(vec![installed("autopkg")]), &None);
    assert!(warnings.is_empty(), "no warnings expected: {warnings:?}");
    let r = row(&mapping, "autopkg");
    assert_eq!(
        r.search_dir, "/app/packages",
        "search_dir must be packages/ parent: {r:?}"
    );
    let order = search_order(None, &dirs_of(&mapping), &vec!["/caller".to_string()]);
    assert_eq!(order, ["/app/packages", "/caller"]);
    let order = search_order(Some("/own"), &dirs_of(&mapping), &Vec::new());
    assert_eq!(order, ["/own", "/app/packages"]);
}

#[test]
fn unreadable_places_become_warnings() {
    let mut bad = declared("x", "gone/x", "");
    bad.canonical = Err("No such file".to_string());
    let project = Some(TestProject {
        root: "/p".to_string(),
        toml: Declarations::Failed("syntax".to_string()),
        local: Declarations::Loaded(vec![bad]),
    });
    let (rows, warnings) =
        collect_auto_search_paths("/app/packages", &Err("denied".to_string()), &project);
    assert!(rows.is_empty());
    assert_eq!(warnings.len(), 3);
    assert!(warnings[0].contains("denied"), "{warnings:?}");
    assert!(warnings[1].contains("failed to load alc.toml"), "{warnings:?}");
    assert!(warnings[2].contains("No such file"), "{warnings:?}");
    let result = attach_resolved_meta("{}", &rows, &warnings);
    let json: serde_json::Value = serde_json::from_str(&result).unwrap();
    assert_eq!(json["search_path_warnings"].as_array().unwrap().len(), 3);
    assert_eq!(AutoSearchPathSource::Installed.as_str(), "installed");
}

#[test]
fn spec_files_are_found_sorted_and_filtered() {
    let names: Vec<String> = ["b_spec.lua", "a_spec.lua", "init.lua", "c_spec.txt"]
        .iter()
        .map(|s| s.to_string())
        .collect();
    assert_eq!(
        collect_spec_files("/p/spec", &names, None).unwrap(),
        ["/p/spec/a_spec.lua", "/p/spec/b_spec.lua"]
    );
    assert_eq!(
        collect_spec_files("/p/spec", &names, Some("b")).unwrap(),
        ["/p/spec/b_spec.lua"]
    );
    assert_eq!(
        collect_spec_files("/p/spec", &names, Some("zzz")).unwrap_err(),
        "pkg_test: no spec files found in /p/spec (looked for *_spec.lua)"
    );
    // The ending is no part of what the filter sees.
    assert!(!spec_file("a_spec.lua", Some("spec")));
    assert!(spec_file("my_spec_x_spec.lua", Some("spec")));
}

#[test]
fn package_path_puts_the_directories_first() {
    assert_eq!(
        prepend_search_paths(&vec!["/a/".to_string(), "/b".to_string()], "./?.lua"),
        "/a/?.lua;/a/?/init.lua;/b/?.lua;/b/?/init.lua;./?.lua"
    );
    assert_eq!(prepend_search_paths(&Vec::new(), "./?.lua"), "./?.lua");
    assert_eq!(dir_of_file("/a/b_spec.lua"), "/a");
}

#[test]
fn tested_packages_are_looked_up_in_order() {
    let variants = vec![VariantFact {
        name: "v".to_string(),
        pkg_dir: "/w/v".to_string(),
    }];
    let at = |root: Option<&str>, here: bool, name: &str| {
        locate_package(root, here, &variants, "/home/packages", name)
    };
    assert_eq!(at(Some("/p"), true, "v"), "/p/v/init.lua");
    assert_eq!(at(Some("/p"), false, "v"), "/w/v/init.lua");
    assert_eq!(at(None, false, "x"), "/home/packages/x/init.lua");
    assert!(package_missing("x").contains("'x' not found"));
}
