use algocline_app::json::Json;
use algocline_app::list::VariantFact;
use algocline_app::manifest::Manifest;
use algocline_app::name_map::NameMap;
use algocline_app::read::{init_path, make_narrative_code, narrative_path, InitPath};
use algocline_app::remove::{
    both_answer, determine_remove_scope, global_answer, no_project, parse_remove_scope,
    remove_from_lock, remove_from_manifest, EffectiveScope, RemoveScope,
};
use algocline_app::scenarios::{
    display_name, list_scenarios, listing_answer, resolve_scenario_code, resolve_scenario_source,
    scenario_origin, scenario_path, show_answer, InstallStep, ScenarioEntry, ScenarioOrigin,
    ScenarioReport, ScenarioSource, SourceEntry,
};
use algocline_app::source::{LockPackage, PackageSource};

fn value(j: &Json) -> serde_json::Value {
    serde_json::from_str(&j.render()).unwrap()
}

#[test]
fn scenarios_are_given_in_one_way() {
    let s = |t: &str| Some(t.to_string());
    assert!(matches!(
        resolve_scenario_code("/d", s("code"), None, None),
        Ok(ScenarioSource::Inline(c)) if c == "code"
    ));
    assert!(matches!(
        resolve_scenario_code("/d", None, s("/f.lua"), None),
        Ok(ScenarioSource::File(p)) if p == "/f.lua"
    ));
    assert!(matches!(
        resolve_scenario_code("/d", None, None, s("n")),
        Ok(ScenarioSource::Named { path, .. }) if path == "/d/n.lua"
    ));
    assert_eq!(
        resolve_scenario_code("/d", None, None, None).unwrap_err(),
        "Provide one of: scenario, scenario_file, or scenario_name."
    );
    assert!(resolve_scenario_code("/d", s("a"), s("b"), None)
        .unwrap_err()
        .contains("only one of"));
    assert!(resolve_scenario_code("/d", None, None, s("../x"))
        .unwrap_err()
        .contains("path traversal"));
    assert_eq!(scenario_path("/d", "a/b").unwrap(), "/d/a/b.lua");
}

#[test]
fn scenario_sources_are_directories_or_repositories() {
    assert_eq!(resolve_scenario_source("/r", true), "/r/scenarios");
    assert_eq!(resolve_scenario_source("/r", false), "/r");
    assert!(matches!(scenario_origin("/r", true), ScenarioOrigin::Directory(d) if d == "/r"));
    assert!(
        matches!(scenario_origin("github.com/u/r", false), ScenarioOrigin::Repository(u) if u == "https://github.com/u/r")
    );
}

#[test]
fn lua_files_are_listed_by_name() {
    let file = |name: &str| ScenarioEntry::File {
        name: name.to_string(),
        path: format!("/d/{name}"),
        size_bytes: 4,
    };
    let entries = vec![
        file("b.lua"),
        file("notes.txt"),
        ScenarioEntry::Unreadable("denied".to_string()),
        file("a.lua"),
    ];
    let (found, failures) = list_scenarios(&entries);
    let v = value(&listing_answer(&found, &failures));
    assert_eq!(v["scenarios"][0]["name"], "a");
    assert_eq!(v["scenarios"][1]["name"], "b");
    assert_eq!(v["scenarios"][1]["path"], "/d/b.lua");
    assert_eq!(v["scenarios"][1]["size_bytes"], 4);
    assert_eq!(v["failures"][0], "readdir entry: denied");
    assert_eq!(value(&show_answer("a", "/d/a.lua", "return 1"))["content"], "return 1");
    assert_eq!(display_name("/d/a.lua", "a.lua"), "a");
}

#[test]
fn installed_scenarios_are_never_replaced() {
    let item = |name: &str, dest_exists: bool| SourceEntry::Item {
        name: name.to_string(),
        is_file: true,
        dest_exists,
    };
    let mut r = ScenarioReport::new();
    assert_eq!(r.next(&item("a.lua", false)), InstallStep::Copy);
    r.copied("a", "/d/a.lua", Ok(()));
    assert_eq!(r.next(&item("b.lua", true)), InstallStep::Skip);
    assert_eq!(r.next(&item("readme.md", false)), InstallStep::Ignore);
    assert_eq!(r.next(&item("c.lua", false)), InstallStep::Copy);
    r.copied("c", "/d/c.lua", Err("disk full".to_string()));
    let v = value(&r.answer().unwrap());
    assert_eq!(v["installed"].as_array().unwrap().len(), 1);
    assert_eq!(v["installed"][0], "a");
    assert_eq!(v["skipped"].as_array().unwrap().len(), 1);
    assert_eq!(v["failures"][0], "/d/c.lua: disk full");
    assert_eq!(
        ScenarioReport::new().answer().unwrap_err(),
        "No .lua scenario files found in source."
    );
}

#[test]
fn read_global_pkg_ok() {
    let variants = vec![VariantFact {
        name: "other".to_string(),
        pkg_dir: "/v/other".to_string(),
    }];
    assert!(matches!(
        init_path(&variants, "/packages", "mypkg"),
        InitPath::Global(p) if p == "/packages/mypkg/init.lua"
    ));
    assert!(matches!(
        init_path(&variants, "/packages", "other"),
        InitPath::Variant(p) if p == "/v/other/init.lua"
    ));
}

#[test]
fn narratives_stay_below_the_package() {
    assert!(make_narrative_code("my_pkg").unwrap().contains("require(\"my_pkg\")"));
    assert!(make_narrative_code("my-pkg").is_err());
    assert_eq!(narrative_path("p", &Json::Null), Ok(None));
    assert_eq!(
        narrative_path("p", &Json::text("docs/n.md")),
        Ok(Some("docs/n.md".to_string()))
    );
    assert!(narrative_path("p", &Json::text("../n.md")).is_err());
    assert!(narrative_path("p", &Json::text("/n.md")).is_err());
    assert_eq!(
        narrative_path("p", &Json::parse("[7]").unwrap()).unwrap_err(),
        "pkg_resolve_narrative_path: pkg 'p' M.docs.narrative must be a string (got Array [Number(7)])"
    );
}

fn locked(name: &str, version: Option<&str>) -> LockPackage {
    LockPackage {
        name: name.to_string(),
        version: version.map(|v| v.to_string()),
        source: PackageSource::Installed,
    }
}

#[test]
fn removal_is_scoped() {
    assert!(matches!(parse_remove_scope(None), Ok(RemoveScope::Project)));
    assert!(matches!(parse_remove_scope(Some("global")), Ok(RemoveScope::Global)));
    assert!(matches!(parse_remove_scope(Some("all")), Ok(RemoveScope::All)));
    assert!(parse_remove_scope(Some("x")).unwrap_err().contains("expected one of"));
    assert!(no_project("p").contains("without a project root"));
    assert!(matches!(
        determine_remove_scope(true, None, Some("/p"), false),
        EffectiveScope::Project(r) if r == "/p"
    ));
    assert!(matches!(
        determine_remove_scope(false, None, Some("/p"), false),
        EffectiveScope::Global
    ));
    assert!(matches!(
        determine_remove_scope(false, None, Some("/p"), true),
        EffectiveScope::Project(_)
    ));
    assert!(matches!(
        determine_remove_scope(true, Some("global"), Some("/p"), true),
        EffectiveScope::Global
    ));
}

#[test]
fn removal_takes_the_named_package_and_version() {
    let lock = vec![locked("a", Some("1")), locked("a", Some("2")), locked("b", None)];
    let left = remove_from_lock(Some(lock), "a", Some("1"), "/p/alc.lock").unwrap();
    let names: Vec<(&str, Option<&str>)> = left
        .iter()
        .map(|p| (p.name.as_str(), p.version.as_deref()))
        .collect();
    assert_eq!(names, [("a", Some("2")), ("b", None)]);
    let err = remove_from_lock(Some(vec![locked("b", None)]), "a", None, "/p/alc.lock").unwrap_err();
    assert_eq!(err, "Package 'a' not found in alc.lock at /p/alc.lock");
    assert!(remove_from_lock(None, "a", None, "/p/alc.lock").is_err());
}

#[test]
fn removal_from_the_manifest_needs_a_record() {
    let mut m = Manifest {
        packages: NameMap::new(),
    };
    m.install_at("a", None, PackageSource::Installed, "2026-01-01T00:00:00Z");
    assert!(remove_from_manifest(&mut m, "z").is_err());
    assert_eq!(m.packages.len(), 1);
    assert!(remove_from_manifest(&mut m, "a").is_ok());
    assert_eq!(m.packages.len(), 0);
    assert_eq!(value(&global_answer("a", "/i.json"))["scope"], "global");
}

#[test]
fn removal_from_both_fails_only_where_both_fail() {
    let v = value(&both_answer("a", Some("no project".to_string()), None).unwrap());
    assert_eq!(v["project_removed"], false);
    assert_eq!(v["global_removed"], true);
    assert_eq!(v["project_note"], "no project");
    let err = both_answer("a", Some("p".to_string()), Some("g".to_string())).unwrap_err();
    assert_eq!(
        err,
        "Package 'a' not found in any scope:\n  project: p\n  global: g"
    );
}

#[test]
fn only_the_last_extension_is_left_out() {
    let mut r = ScenarioReport::new();
    r.copied("a.b.lua", "/d/a.b.lua", Ok(()));
    assert_eq!(r.installed, vec!["a.b"]);
}
