use algocline_app::json::Json;
use algocline_app::link::{
    check_unlink, clear_for_link, collect_targets, detect_mode, link_answer, link_source,
    parse_scope, single_name, sort_targets, target_names, unlink_answer, variants_to_add, Clearing,
    DestFact, LinkEntry, LinkScope, LinkTarget, PackageMode,
};

fn value(j: &Json) -> serde_json::Value {
    serde_json::from_str(&j.render()).unwrap()
}

fn package(name: &str) -> LinkEntry {
    LinkEntry {
        name: name.to_string(),
        is_dir: true,
        has_init: true,
        refused: None,
    }
}

fn target(name: &str, path: &str) -> LinkTarget {
    LinkTarget {
        name: name.to_string(),
        path: path.to_string(),
    }
}

#[test]
fn pkg_link_single_creates_symlink() {
    assert!(matches!(
        detect_mode("/h/my_pkg", true, &Vec::new()),
        Ok(PackageMode::Single)
    ));
    let name = single_name("/h/my_pkg", None).unwrap();
    assert_eq!(name, "my_pkg");
    let targets = vec![target(&name, "/h/my_pkg")];
    let json = value(&link_answer(&vec![name], PackageMode::Single, &targets, None));
    assert_eq!(json["mode"], "single");
    assert_eq!(json["linked"][0], "my_pkg");
    assert_eq!(json["linked"].as_array().unwrap().len(), 1);
    assert_eq!(json["targets"]["my_pkg"], "/h/my_pkg");
}

#[test]
fn pkg_link_collection_creates_symlinks() {
    let entries = vec![package("pkg_b"), package("pkg_a")];
    assert!(matches!(
        detect_mode("/h/collection", false, &entries),
        Ok(PackageMode::Collection)
    ));
    let (targets, refused) = collect_targets("/h/collection", &entries);
    assert_eq!(refused, None);
    let targets = sort_targets(targets);
    assert_eq!(target_names(&targets), ["pkg_a", "pkg_b"]);
    assert_eq!(targets[0].path, "/h/collection/pkg_a");
    let json = value(&link_answer(
        &target_names(&targets),
        PackageMode::Collection,
        &targets,
        None,
    ));
    assert_eq!(json["mode"], "collection");
}

#[test]
fn pkg_link_overwrites_existing_symlink() {
    assert!(matches!(
        clear_for_link("/packages/my_pkg", DestFact::Symlink, false),
        Ok(Clearing::File)
    ));
}

#[test]
fn pkg_link_real_dir_requires_force() {
    let err = clear_for_link("/packages/my_pkg", DestFact::Directory, false).unwrap_err();
    assert!(
        err.contains("real directory"),
        "expected real directory error, got: {err}"
    );
    assert!(matches!(
        clear_for_link("/packages/my_pkg", DestFact::Directory, true),
        Ok(Clearing::Tree)
    ));
    assert!(matches!(
        clear_for_link("/packages/my_pkg", DestFact::Absent, true),
        Ok(Clearing::Nothing)
    ));
}

#[test]
fn pkg_link_scope_variant_appends_to_alc_local_toml() {
    let targets = vec![target("my_pkg", "/h/my_pkg")];
    let linked = variants_to_add(&Vec::new(), &targets);
    let json = value(&link_answer(
        &linked,
        PackageMode::Single,
        &targets,
        Some("/proj/alc.local.toml"),
    ));
    assert_eq!(json["scope"], "variant");
    assert_eq!(json["mode"], "single");
    assert_eq!(json["linked"][0], "my_pkg");
    assert_eq!(json["alc_local_toml"], "/proj/alc.local.toml");
}

#[test]
fn pkg_link_scope_variant_second_call_is_noop_for_existing_entry() {
    let targets = vec![target("my_pkg", "/h/my_pkg")];
    let linked = variants_to_add(&vec!["my_pkg".to_string()], &targets);
    let json = value(&link_answer(
        &linked,
        PackageMode::Single,
        &targets,
        Some("/proj/alc.local.toml"),
    ));
    assert!(json["linked"].as_array().unwrap().is_empty());
    assert_eq!(json["targets"]["my_pkg"], "/h/my_pkg");
}

#[test]
fn pkg_link_invalid_scope_returns_error() {
    let err = parse_scope(Some("unknown")).unwrap_err();
    assert!(err.contains("invalid scope"), "got: {err}");
    assert!(matches!(parse_scope(Some("variant")), Ok(LinkScope::Variant)));
}

#[test]
fn pkg_link_scope_global_default_matches_existing_behavior() {
    assert!(matches!(parse_scope(Some("global")), Ok(LinkScope::Global)));
    assert!(matches!(parse_scope(None), Ok(LinkScope::Global)));
    let targets = vec![target("my_pkg", "/h/my_pkg")];
    let json = value(&link_answer(
        &target_names(&targets),
        PackageMode::Single,
        &targets,
        None,
    ));
    assert_eq!(json["scope"], "global");
    assert_eq!(json["linked"][0], "my_pkg");
}

#[test]
fn pkg_link_scope_variant_collection_appends_all() {
    let (targets, _) = collect_targets("/h/collection", &vec![package("pkg_b"), package("pkg_a")]);
    let targets = sort_targets(targets);
    let linked = variants_to_add(&Vec::new(), &targets);
    let json = value(&link_answer(
        &linked,
        PackageMode::Collection,
        &targets,
        Some("/proj/alc.local.toml"),
    ));
    assert_eq!(json["scope"], "variant");
    assert_eq!(json["mode"], "collection");
    let names: Vec<&str> = json["linked"]
        .as_array()
        .unwrap()
        .iter()
        .map(|v| v.as_str().unwrap())
        .collect();
    assert_eq!(names, ["pkg_a", "pkg_b"]);
}

#[test]
fn nothing_to_link_is_an_error() {
    let plain = LinkEntry {
        name: "docs".to_string(),
        is_dir: true,
        has_init: false,
        refused: None,
    };
    let entries = vec![plain];
    let err = detect_mode("/h/x", false, &entries).unwrap_err();
    assert_eq!(err, "No init.lua found in /h/x or any of its subdirectories");
    let (targets, m) = collect_targets("/h/x", &entries);
    assert!(targets.is_empty());
    assert_eq!(
        m.as_deref(),
        Some("No init.lua found in any subdirectory of: /h/x")
    );
    assert!(single_name("/", None).is_err());
    assert_eq!(single_name("/", Some("n")).unwrap(), "n");
}

#[test]
fn refused_names_stop_the_linking() {
    let mut bad = package("b/d");
    bad.refused = Some("bad name".to_string());
    let entries = vec![package("a"), bad, package("c")];
    let (targets, m) = collect_targets("/h/x", &entries);
    assert_eq!(m.as_deref(), Some("bad name"));
    assert_eq!(target_names(&targets), ["a"]);
}

#[test]
fn relative_sources_start_at_the_working_directory() {
    assert_eq!(link_source("/abs/p", "/cwd"), "/abs/p");
    assert_eq!(link_source("p", "/cwd"), "/cwd/p");
}

#[test]
fn pkg_unlink_removes_symlink() {
    assert!(check_unlink("my_pkg", DestFact::Symlink).is_ok());
    assert_eq!(value(&unlink_answer("my_pkg"))["unlinked"], "my_pkg");
}

#[test]
fn pkg_unlink_real_dir_returns_error() {
    let err = check_unlink("my_pkg", DestFact::Directory).unwrap_err();
    assert!(err.contains("not a symlink"), "got: {err}");
}

#[test]
fn pkg_unlink_not_installed_returns_error() {
    let err = check_unlink("nonexistent", DestFact::Absent).unwrap_err();
    assert!(err.contains("not installed"), "got: {err}");
}
