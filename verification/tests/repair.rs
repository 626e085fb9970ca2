use algocline_app::health::{
    alive_bucket, collect_path_missing, collect_strays, collect_unattached_dangling_symlinks,
    make_kind_code, meant, not_found, paths_to_check, reason_for_dangling,
    symlink_dangling_suggestion, unregistered_json, AliveBucket, EntryKind, Finding, PathCheck, PlaceEntry, PlaceFact,
    ProjectPathSource, StrayEntry,
};
use algocline_app::json::Json;
use algocline_app::repair::{
    normalize_git_url, outcome_of, plan_repair, Buckets, RepairOutcome, RepairPlan,
};
use algocline_app::source::{InstallSource, LockPackage, PackageDep, PackageSource};

fn value(j: &Json) -> serde_json::Value {
    serde_json::from_str(&j.render()).unwrap()
}

fn place(is_symlink: bool, alive: bool, target: Option<&str>) -> PlaceFact {
    PlaceFact {
        is_symlink,
        alive,
        link_target: target.map(|t| t.to_string()),
    }
}

fn from_path(path: &str) -> PackageSource {
    PackageSource::Path {
        path: path.to_string(),
    }
}

fn path_dep(path: &str) -> PackageDep {
    PackageDep::Path {
        path: path.to_string(),
        version: None,
    }
}

/// Repairs one package; the installation, where there is one, succeeds.
fn repair(name: &str, source: PackageSource, at: PlaceFact) -> serde_json::Value {
    let plan = plan_repair(name, &source, &at, true, true);
    let mut b = Buckets::new();
    b.push_installed_outcome(name, outcome_of(plan, Ok(()), "shown"));
    value(&b.report(None, &Vec::new(), &Vec::new()).unwrap())
}

#[test]
fn pkg_repair_reinstalls_missing_installed_dir() {
    let json = repair("repair_pkg", from_path("/src_repo/repair_pkg"), place(false, false, None));
    let repaired = json["repaired"].as_array().expect("repaired array");
    assert_eq!(repaired.len(), 1, "exactly one repair, got: {json}");
    assert_eq!(repaired[0]["name"], "repair_pkg");
    assert_eq!(repaired[0]["kind"], "installed_missing");
    assert_eq!(repaired[0]["action"], "reinstall");
}

#[test]
fn pkg_repair_skips_healthy_pkg() {
    let json = repair("healthy_pkg", from_path("/src_repo/healthy_pkg"), place(false, true, None));
    assert!(
        json["repaired"].as_array().unwrap().is_empty(),
        "no repair expected"
    );
    let skipped = json["skipped"].as_array().unwrap();
    assert!(
        skipped.iter().any(|e| e["name"] == "healthy_pkg"),
        "healthy_pkg must be in skipped, got: {json}"
    );
}

#[test]
fn pkg_repair_reports_dangling_symlink_as_unrepairable() {
    let entries = vec![PlaceEntry {
        name: "dangling_pkg".to_string(),
        place: place(true, false, Some("/does_not_exist")),
    }];
    let dangling = collect_unattached_dangling_symlinks(&entries, None, &Vec::new());
    let json = value(&Buckets::new().report(None, &dangling, &Vec::new()).unwrap());
    let unrepairable = json["unrepairable"].as_array().expect("unrepairable array");
    let entry = unrepairable
        .iter()
        .find(|e| e["name"] == "dangling_pkg")
        .expect("dangling_pkg must surface as unrepairable");
    assert_eq!(entry["kind"], "symlink_dangling");
    assert!(
        entry["suggestion"]
            .as_str()
            .unwrap()
            .contains("alc_pkg_unlink"),
        "suggestion should mention alc_pkg_unlink"
    );
}

#[test]
fn pkg_repair_reports_project_path_missing_as_unrepairable() {
    let deps = vec![("ghost".to_string(), path_dep("missing_dir"))];
    let checks = paths_to_check("/proj", None, &Vec::new(), &deps);
    assert_eq!(checks.len(), 1);
    assert_eq!(checks[0].path, "/proj/missing_dir");
    let gone = collect_path_missing(&checks, &vec![false], ProjectPathSource::Toml);
    let json = value(&Buckets::new().report(None, &Vec::new(), &gone).unwrap());
    let unrepairable = json["unrepairable"].as_array().unwrap();
    let entry = unrepairable
        .iter()
        .find(|e| e["name"] == "ghost" && e["scope"] == "project")
        .unwrap_or_else(|| panic!("ghost must surface as project path_missing, got: {json}"));
    assert_eq!(entry["kind"], "path_missing");
    assert!(entry["suggestion"].as_str().unwrap().contains("alc.toml"));
}

#[test]
fn pkg_repair_reports_variant_path_missing_as_unrepairable() {
    let deps = vec![("nope_pkg".to_string(), path_dep("/proj/nope_pkg"))];
    let checks = paths_to_check("/proj", None, &Vec::new(), &deps);
    let gone = collect_path_missing(&checks, &vec![false], ProjectPathSource::Local);
    let json = value(&Buckets::new().report(None, &Vec::new(), &gone).unwrap());
    let unrepairable = json["unrepairable"].as_array().unwrap();
    let entry = unrepairable
        .iter()
        .find(|e| e["name"] == "nope_pkg" && e["scope"] == "variant")
        .expect("nope_pkg must surface as variant path_missing");
    assert_eq!(entry["kind"], "path_missing");
    assert!(entry["suggestion"]
        .as_str()
        .unwrap()
        .contains("alc_pkg_unlink"));
}

#[test]
fn pkg_repair_unknown_name_returns_error() {
    let err = Buckets::new()
        .report(Some("nonexistent_pkg"), &Vec::new(), &Vec::new())
        .unwrap_err();
    assert!(
        err.contains("nonexistent_pkg"),
        "error should mention the missing name, got: {err}"
    );
    assert_eq!(err, not_found("nonexistent_pkg"));
}

#[test]
fn repairs_follow_the_recorded_source() {
    let gone = || place(false, false, None);
    let git = PackageSource::Git {
        url: "github.com/foo/bar".to_string(),
        rev: None,
    };
    assert!(matches!(
        plan_repair("p", &git, &gone(), true, true),
        RepairPlan::Install(InstallSource::GitUrl(u)) if u == "https://github.com/foo/bar"
    ));
    assert!(matches!(
        plan_repair("p", &from_path("/src/p"), &gone(), true, true),
        RepairPlan::Install(InstallSource::LocalPath(p)) if p == "/src/p"
    ));
    for (exists, holds, words) in [
        (false, false, "source directory missing: /src/p"),
        (true, false, "source directory has no init.lua at root: /src/p"),
    ] {
        match plan_repair("p", &from_path("/src/p"), &gone(), exists, holds) {
            RepairPlan::Unrepairable { kind, reason, .. } => {
                assert_eq!(kind, "installed_missing");
                assert_eq!(reason, words);
            }
            other => panic!("expected Unrepairable, got {other:?}"),
        }
    }
    for source in [
        PackageSource::Bundled { collection: None },
        PackageSource::Installed,
        PackageSource::Unknown,
    ] {
        assert!(matches!(
            plan_repair("p", &source, &gone(), true, true),
            RepairPlan::Unrepairable {
                kind: "installed_missing",
                ..
            }
        ));
    }
    assert!(matches!(
        plan_repair("p", &git, &place(true, false, Some("/x")), true, true),
        RepairPlan::Unrepairable {
            kind: "symlink_dangling",
            ..
        }
    ));
}

#[test]
fn failed_installations_are_reported() {
    let plan = plan_repair("p", &from_path("/src/p"), &place(false, false, None), true, true);
    let outcome = outcome_of(plan, Err("no space".to_string()), "/src/p");
    assert!(matches!(&outcome, RepairOutcome::Failed { reason } if reason == "no space"));
    let mut b = Buckets::new();
    assert!(!b.any_matched());
    b.push_installed_outcome("p", outcome);
    assert!(b.any_matched());
    let v = value(&b.report(Some("p"), &Vec::new(), &Vec::new()).unwrap());
    assert_eq!(v["failed"][0]["name"], "p");
    assert_eq!(v["failed"][0]["reason"], "no space");
}

#[test]
fn git_urls_get_a_scheme() {
    assert_eq!(normalize_git_url("github.com/a/b"), "https://github.com/a/b");
    assert_eq!(normalize_git_url("git@host:a/b"), "git@host:a/b");
}

fn stray(name: &str, kind: EntryKind, canonical: &str) -> StrayEntry {
    StrayEntry {
        name: name.to_string(),
        path: format!("/packages/{name}"),
        kind,
        has_init: true,
        canonical: Ok(canonical.to_string()),
    }
}

/// The names of the live links that nothing accounts for.
fn live(entries: Vec<StrayEntry>, registered: &[&str], declared: &[&str], t: Option<&str>) -> Vec<String> {
    let registered = registered.iter().map(|s| s.to_string()).collect();
    let declared = declared.iter().map(|s| s.to_string()).collect();
    collect_strays(&entries, EntryKind::LiveLink, &registered, &declared, t)
        .expect("helper should not error")
        .into_iter()
        .map(|i| entries[i].name.clone())
        .collect()
}

#[test]
fn dangling_symlink_excluded() {
    let result = live(vec![stray("ghost_pkg", EntryKind::Other, "")], &[], &[], None);
    assert!(
        result.is_empty(),
        "dangling symlink must not appear in result"
    );
}

#[test]
fn alive_unregistered_auto_library_routes_to_unmarked_library() {
    let result = live(
        vec![stray("my_lib", EntryKind::LiveLink, "/real/my_lib")],
        &[],
        &[],
        None,
    );
    assert_eq!(result, vec!["my_lib"]);
    let meta = Json::parse(r#"{"type":"library","type_source":"auto_detected_library"}"#).unwrap();
    assert_eq!(alive_bucket(Some(&meta)), AliveBucket::UnmarkedLibrary);
}

#[test]
fn alive_unregistered_explicit_type_routes_to_unregistered() {
    let result = live(
        vec![stray("explicit_lib", EntryKind::LiveLink, "/real/explicit_lib")],
        &[],
        &[],
        None,
    );
    assert_eq!(result, vec!["explicit_lib"]);
    let meta = Json::parse(r#"{"type":"library","type_source":"explicit"}"#).unwrap();
    assert_eq!(alive_bucket(Some(&meta)), AliveBucket::Unregistered);
    assert_eq!(alive_bucket(None), AliveBucket::Unregistered);
}

#[test]
fn alive_registered_pkg_excluded() {
    let result = live(
        vec![stray("known_pkg", EntryKind::LiveLink, "/real/known_pkg")],
        &["known_pkg"],
        &[],
        None,
    );
    assert!(
        result.is_empty(),
        "registered pkg must not appear in result"
    );
}

#[test]
fn target_filter_restricts_output() {
    let result = live(
        vec![
            stray("lib_a", EntryKind::LiveLink, "/real/lib_a"),
            stray("lib_b", EntryKind::LiveLink, "/real/lib_b"),
        ],
        &[],
        &[],
        Some("lib_a"),
    );
    assert_eq!(result, vec!["lib_a"]);
}

#[test]
fn registered_path_dep_excluded() {
    let result = live(
        vec![stray("path_dep_lib", EntryKind::LiveLink, "/real/path_dep_lib")],
        &[],
        &["/real/path_dep_lib"],
        None,
    );
    assert!(
        result.is_empty(),
        "path-dep registered entry must not appear in result"
    );
}

#[test]
fn strays_need_an_init_and_a_canonical_path() {
    let mut bare = stray("bare", EntryKind::Directory, "/packages/bare");
    bare.has_init = false;
    let entries = vec![bare, stray("held", EntryKind::Directory, "/packages/held")];
    let none = Vec::new();
    let r = collect_strays(&entries, EntryKind::Directory, &none, &none, None).unwrap();
    assert_eq!(r, vec![1]);

    let mut bad = stray("bad", EntryKind::Directory, "");
    bad.canonical = Err("denied".to_string());
    let err = collect_strays(&vec![bad], EntryKind::Directory, &none, &none, None).unwrap_err();
    assert!(err.contains("/packages/bad"), "{err}");
    assert!(err.contains("denied"), "{err}");
}

#[test]
fn unregistered_packages_come_with_advice() {
    let v = value(&unregistered_json("p", "/packages/p"));
    assert_eq!(v["name"], "p");
    assert_eq!(v["kind"], "unregistered_pkg");
    assert_eq!(v["suggestion"].as_array().unwrap().len(), 4);
    assert!(v["suggestion"][1].as_str().unwrap().contains("alc_pkg_link /packages/p"));
}

#[test]
fn locked_paths_that_exist_are_not_reported() {
    let lock = vec![
        LockPackage {
            name: "a".to_string(),
            version: None,
            source: from_path("vendor/a"),
        },
        LockPackage {
            name: "b".to_string(),
            version: None,
            source: PackageSource::Installed,
        },
    ];
    let deps = vec![
        ("a".to_string(), path_dep("old/a")),
        ("b".to_string(), PackageDep::Version("*".to_string())),
    ];
    let checks = paths_to_check("/proj", None, &lock, &deps);
    assert_eq!(checks.len(), 1);
    assert_eq!(checks[0].name, "a");
    // The lock knows better than the declaration.
    assert_eq!(checks[0].path, "/proj/vendor/a");
    assert!(collect_path_missing(&checks, &vec![true], ProjectPathSource::Toml).is_empty());
    assert!(paths_to_check("/proj", Some("z"), &lock, &deps).is_empty());
}

#[test]
fn findings_spell_reason_and_advice() {
    let checks = vec![PathCheck {
        name: "g".to_string(),
        path: "/proj/g".to_string(),
    }];
    let f: Vec<Finding> = collect_path_missing(&checks, &vec![false], ProjectPathSource::Toml);
    assert_eq!(f[0].reason, "declared path does not exist: /proj/g");
    assert_eq!(f[0].suggestion, "update or remove [packages.g] in alc.toml");
    assert_eq!(reason_for_dangling(&None), "symlink target missing: <unknown>");
    assert_eq!(
        symlink_dangling_suggestion("a\"b"),
        "alc_pkg_unlink(\"a\\\"b\") then alc_pkg_link with the new path"
    );
    assert!(meant(None, "x") && meant(Some("x"), "x") && !meant(Some("y"), "x"));
}

#[test]
fn linked_packages_are_asked_what_they_are() {
    assert_eq!(
        make_kind_code("p-1", "detect(meta)").as_deref(),
        Some(
            "package.loaded[\"p-1\"] = nil\nlocal pkg = require(\"p-1\")\nlocal meta = pkg.meta or { name = \"p-1\" }\ndetect(meta)\nreturn meta"
        )
    );
    assert_eq!(make_kind_code("a\"b", "detect(meta)"), None);
    assert_eq!(make_kind_code("", "detect(meta)"), None);
}
