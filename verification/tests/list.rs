use algocline_app::json::Json;
use algocline_app::list::{
    draft_list, find_packages, list_response, lock_by_name, order_packages, recorded_packages,
    resolve_project_pkg_info, DirFact, ProjectFacts, ProjectToml, RecordedKind, RecordedPackage,
    ResolvedSourceKind, Scope, SearchDir, VariantFact,
};
use algocline_app::manifest::Manifest;
use algocline_app::name_map::NameMap;
use algocline_app::remove::{project_answer, remove_from_lock};
use algocline_app::source::{LockPackage, PackageDep, PackageSource};

const PACKAGES_DIR: &str = "/home/u/.algocline/packages";

fn locked(name: &str, source: PackageSource) -> LockPackage {
    LockPackage {
        name: name.to_string(),
        version: None,
        source,
    }
}

fn at_path(path: &str) -> PackageSource {
    PackageSource::Path {
        path: path.to_string(),
    }
}

fn path_dep(path: &str) -> PackageDep {
    PackageDep::Path {
        path: path.to_string(),
        version: None,
    }
}

fn any_version() -> PackageDep {
    PackageDep::Version("*".to_string())
}

/// A package directory with an `init.lua`.
fn package(name: &str) -> DirFact {
    DirFact {
        name: name.to_string(),
        is_symlink: false,
        link_target: None,
        exists: true,
        is_dir: true,
        has_init: true,
        meta: Some(Json::object()),
    }
}

fn link(name: &str, target: &str, exists: bool) -> DirFact {
    DirFact {
        name: name.to_string(),
        is_symlink: true,
        link_target: Some(target.to_string()),
        exists,
        is_dir: exists,
        has_init: exists,
        meta: if exists { Some(Json::object()) } else { None },
    }
}

fn dir(path: &str, items: Vec<DirFact>) -> SearchDir {
    SearchDir {
        path: path.to_string(),
        items: Some(items),
    }
}

fn project(
    lock: Vec<LockPackage>,
    deps: Vec<(&str, PackageDep)>,
    variants: &[(&str, &str)],
) -> Option<ProjectFacts> {
    Some(ProjectFacts {
        root: "/p".to_string(),
        variants: variants
            .iter()
            .map(|(n, d)| VariantFact {
                name: n.to_string(),
                pkg_dir: d.to_string(),
            })
            .collect(),
        lock: lock_by_name(&lock),
        toml: ProjectToml::Loaded(deps.into_iter().map(|(n, d)| (n.to_string(), d)).collect()),
    })
}

/// Where a path leads: `links` names the links, `gone` the paths that do not exist.
fn canonical(path: &str, links: &[(&str, &str)], gone: &[&str]) -> Option<String> {
    if gone.contains(&path) {
        return None;
    }
    for (from, to) in links {
        if *from == path {
            return Some(to.to_string());
        }
    }
    Some(path.to_string())
}

fn listed(
    project: Option<ProjectFacts>,
    dirs: Vec<SearchDir>,
    recorded: &NameMap<RecordedPackage>,
    links: &[(&str, &str)],
    gone: &[&str],
) -> Vec<serde_json::Value> {
    let found = find_packages(dirs);
    let drafts = draft_list(&project, &Ok(PACKAGES_DIR.to_string()), &found, recorded);
    drafts
        .into_iter()
        .map(|d| {
            let resolved = d.candidate.as_ref().and_then(|c| canonical(c, links, gone));
            let shadows = d.shadowed.iter().map(|s| canonical(s, links, gone)).collect();
            serde_json::from_str(&d.finish(resolved, &shadows).to_json().render()).unwrap()
        })
        .collect()
}

fn entry<'a>(all: &'a [serde_json::Value], name: &str, scope: &str) -> &'a serde_json::Value {
    all.iter()
        .find(|p| p["name"] == name && p["scope"] == scope)
        .expect("entry not found")
}

#[test]
fn tests_pkg_list_with_project() {
    let p = project(
        vec![locked("my_local_pkg", at_path("my_local_pkg"))],
        vec![("my_local_pkg", any_version())],
        &[],
    );
    let all = listed(p, Vec::new(), &NameMap::new(), &[], &[]);
    let e = entry(&all, "my_local_pkg", "project");
    assert_eq!(e["scope"], "project");
    assert_eq!(e["source_type"], "path");
    assert_eq!(e["active"], true);

    let response = list_response(Vec::new(), None, &Vec::new(), Some(("/p", "/p/alc.lock")));
    let json: serde_json::Value = serde_json::from_str(&response.render()).unwrap();
    assert_eq!(json["project_root"], "/p");
    assert_eq!(json["lockfile_path"], "/p/alc.lock");
}

#[test]
fn tests_pkg_list_no_project_root() {
    let all = listed(None, Vec::new(), &NameMap::new(), &[], &[]);
    assert!(all.is_empty());
    let response = list_response(Vec::new(), None, &Vec::new(), None);
    let json: serde_json::Value = serde_json::from_str(&response.render()).unwrap();
    assert!(json["packages"].is_array());
    assert!(json.get("project_root").is_none());
}

#[test]
fn tests_pkg_remove_project_scope() {
    let lock = vec![locked("my_local_pkg", at_path("my_local_pkg"))];
    let lock_after = remove_from_lock(Some(lock), "my_local_pkg", None, "/p/alc.lock").unwrap();
    assert!(
        lock_after.is_empty(),
        "alc.lock still contains the entry"
    );
    let answer = project_answer("my_local_pkg", "/p/alc.toml", "/p/alc.lock");
    let json: serde_json::Value = serde_json::from_str(&answer.render()).unwrap();
    assert_eq!(json["removed"], "my_local_pkg");
    assert!(json["alc_toml"].is_string());
    assert!(json["alc_lock"].is_string());
}

#[test]
fn tests_pkg_remove_project_scope_not_found_returns_error() {
    let lock = vec![locked("other_pkg", PackageSource::Installed)];
    let result = remove_from_lock(Some(lock), "nonexistent_pkg", None, "/p/alc.lock");
    assert!(result.is_err());
    assert!(result.unwrap_err().contains("not found in alc.lock"));
}

#[test]
fn pkg_list_project_path_entry_has_resolved_source() {
    let p = project(
        vec![locked("my_vendor_pkg", at_path("my_vendor_pkg"))],
        vec![("my_vendor_pkg", path_dep("my_vendor_pkg"))],
        &[],
    );
    let all = listed(p, Vec::new(), &NameMap::new(), &[], &[]);
    let e = entry(&all, "my_vendor_pkg", "project");
    assert_eq!(e["resolved_source_path"].as_str().unwrap(), "/p/my_vendor_pkg");
    assert_eq!(e["resolved_source_kind"], "local_path");
}

#[test]
fn pkg_list_project_path_with_symlink_vendor_follows_target() {
    let p = project(
        vec![locked("sym_vendor_pkg", at_path("sym_vendor_pkg"))],
        vec![("sym_vendor_pkg", path_dep("sym_vendor_pkg"))],
        &[],
    );
    let links = [("/p/sym_vendor_pkg", "/real_pkg_dir")];
    let all = listed(p, Vec::new(), &NameMap::new(), &links, &[]);
    let e = entry(&all, "sym_vendor_pkg", "project");
    assert_eq!(e["resolved_source_path"].as_str().unwrap(), "/real_pkg_dir");
    assert_eq!(e["resolved_source_kind"], "local_path");
}

#[test]
fn pkg_list_project_installed_entry_has_resolved_source() {
    let p = project(
        vec![locked("installed_pkg", PackageSource::Installed)],
        vec![("installed_pkg", any_version())],
        &[],
    );
    let all = listed(p, Vec::new(), &NameMap::new(), &[], &[]);
    let e = entry(&all, "installed_pkg", "project");
    assert_eq!(
        e["resolved_source_path"].as_str().unwrap(),
        "/home/u/.algocline/packages/installed_pkg"
    );
    assert_eq!(e["resolved_source_kind"], "installed");
}

#[test]
fn pkg_list_project_installed_resolves_through_linked_pkg() {
    let p = project(
        vec![locked("linked_pkg", PackageSource::Installed)],
        vec![("linked_pkg", any_version())],
        &[],
    );
    let links = [(
        "/home/u/.algocline/packages/linked_pkg",
        "/home/u/dev/linked_pkg_real",
    )];
    let all = listed(p, Vec::new(), &NameMap::new(), &links, &[]);
    let e = entry(&all, "linked_pkg", "project");
    assert_eq!(
        e["resolved_source_path"].as_str().unwrap(),
        "/home/u/dev/linked_pkg_real"
    );
    assert_eq!(e["resolved_source_kind"], "installed");
}

#[test]
fn pkg_list_global_regular_pkg_has_resolved_source() {
    let dirs = vec![dir("/pkgs", vec![package("regular_pkg")])];
    let all = listed(None, dirs, &NameMap::new(), &[], &[]);
    let e = entry(&all, "regular_pkg", "global");
    assert_eq!(e["resolved_source_path"].as_str().unwrap(), "/pkgs/regular_pkg");
    assert_eq!(e["resolved_source_kind"], "installed");
}

#[test]
fn pkg_list_global_linked_pkg_resolves_to_link_target() {
    let dirs = vec![dir("/pkgs", vec![link("linked_global_pkg", "/my_dev_pkg", true)])];
    let links = [("/pkgs/linked_global_pkg", "/my_dev_pkg")];
    let all = listed(None, dirs, &NameMap::new(), &links, &[]);
    let e = entry(&all, "linked_global_pkg", "global");
    assert_eq!(e["resolved_source_path"].as_str().unwrap(), "/my_dev_pkg");
    assert_eq!(e["resolved_source_kind"], "linked");
    assert_eq!(e["linked"], true);
    assert_eq!(e["link_target"], "/my_dev_pkg");
}

#[test]
fn pkg_list_global_linked_broken_omits_resolved_source() {
    let dirs = vec![dir("/pkgs", vec![link("broken_pkg", "/this_does_not_exist", false)])];
    let gone = ["/pkgs/broken_pkg", "/this_does_not_exist"];
    let all = listed(None, dirs, &NameMap::new(), &[], &gone);
    let e = entry(&all, "broken_pkg", "global");
    assert!(
        e.get("resolved_source_path").is_none() || e["resolved_source_path"].is_null(),
        "resolved_source_path must be absent for broken symlink"
    );
    assert_eq!(e["resolved_source_kind"], "linked");
    assert_eq!(e["broken"], true);
}

#[test]
fn pkg_list_override_paths_global_shadow() {
    let dirs = vec![
        dir("/pkgs1", vec![package("dup_pkg")]),
        dir("/pkgs2", vec![package("dup_pkg")]),
    ];
    let all = listed(None, dirs, &NameMap::new(), &[], &[]);
    let active = all
        .iter()
        .find(|p| p["name"] == "dup_pkg" && p["active"] == true)
        .expect("active dup_pkg not found");
    let override_paths = active["override_paths"]
        .as_array()
        .expect("override_paths should be an array on active entry");
    assert_eq!(override_paths.len(), 1, "should have exactly one shadowed entry");
    assert_eq!(override_paths[0].as_str().unwrap(), "/pkgs2/dup_pkg");
    assert_eq!(all.iter().filter(|p| p["active"] == true).count(), 1);
}

#[test]
fn pkg_list_override_paths_project_shadows_global() {
    let p = project(
        vec![locked("shared_pkg", at_path("shared_pkg"))],
        vec![("shared_pkg", path_dep("shared_pkg"))],
        &[],
    );
    let dirs = vec![dir("/global_pkgs", vec![package("shared_pkg")])];
    let all = listed(p, dirs, &NameMap::new(), &[], &[]);
    let e = entry(&all, "shared_pkg", "project");
    let override_paths = e["override_paths"]
        .as_array()
        .expect("project entry should have override_paths listing shadowed global");
    assert!(override_paths
        .iter()
        .any(|p| p.as_str().unwrap() == "/global_pkgs/shared_pkg"));

    let global_entry = entry(&all, "shared_pkg", "global");
    assert_eq!(global_entry["active"], false, "global entry should be inactive");
    let global_map = global_entry.as_object().expect("global entry must be object");
    assert!(
        !global_map.contains_key("override_paths"),
        "inactive global entry must not have override_paths, got: {:?}",
        global_map.get("override_paths")
    );
}

#[test]
fn pkg_list_project_installed_does_not_self_shadow() {
    let p = project(
        vec![locked("self_shadow_pkg", PackageSource::Installed)],
        vec![("self_shadow_pkg", any_version())],
        &[],
    );
    let dirs = vec![dir(PACKAGES_DIR, vec![package("self_shadow_pkg")])];
    let all = listed(p, dirs, &NameMap::new(), &[], &[]);
    let e = entry(&all, "self_shadow_pkg", "project");
    let map = e.as_object().expect("project entry must be object");
    assert!(
        !map.contains_key("override_paths"),
        "project `installed` entry must not list its own backing dir as override_paths, got: {:?}",
        map.get("override_paths")
    );
}

#[test]
fn tests_pkg_list_global_unregistered_has_no_source_type() {
    let mut p = package("hand_copied_pkg");
    p.meta = Some(Json::parse(r#"{"name":"hand_copied_pkg"}"#).unwrap());
    let all = listed(None, vec![dir("/pkgs", vec![p])], &NameMap::new(), &[], &[]);
    let e = entry(&all, "hand_copied_pkg", "global");
    let map = e.as_object().expect("package entry must be a JSON object");
    assert!(
        !map.contains_key("source_type"),
        "source_type should be absent for unregistered package, got: {:?}",
        map.get("source_type")
    );
    assert_eq!(e["scope"], "global");
    assert_eq!(e["active"], true);
    assert_eq!(e["resolved_source_path"].as_str().unwrap(), "/pkgs/hand_copied_pkg");
    assert_eq!(
        e["resolved_source_kind"], "installed",
        "unregistered global package should default to installed kind"
    );
}

#[test]
fn pkg_list_variant_pkg_appears_with_variant_scope() {
    let p = project(
        Vec::new(),
        Vec::new(),
        &[("my_variant_pkg", "/variant_src/my_variant_pkg")],
    );
    let all = listed(p, Vec::new(), &NameMap::new(), &[], &[]);
    let e = entry(&all, "my_variant_pkg", "variant");
    assert_eq!(e["scope"], "variant");
    assert_eq!(e["active"], true);
    assert_eq!(e["source_type"], "path");
    assert_eq!(e["resolved_source_kind"], "variant");
    assert_eq!(
        e["resolved_source_path"].as_str().unwrap(),
        "/variant_src/my_variant_pkg"
    );
    assert_eq!(e["path"].as_str().unwrap(), "/variant_src/my_variant_pkg");
}

#[test]
fn pkg_list_variant_shadows_global() {
    let p = project(Vec::new(), Vec::new(), &[("shared", "/variant_src/shared")]);
    let dirs = vec![dir("/global_pkgs", vec![package("shared")])];
    let all = listed(p, dirs, &NameMap::new(), &[], &[]);
    assert_eq!(entry(&all, "shared", "variant")["active"], true);
    assert_eq!(
        entry(&all, "shared", "global")["active"],
        false,
        "global entry must be demoted when shadowed by variant"
    );
}

#[test]
fn pkg_list_variant_shadows_project() {
    let p = project(
        vec![locked("shared", at_path("shared"))],
        vec![("shared", path_dep("shared"))],
        &[("shared", "/variant_src/shared")],
    );
    let all = listed(p, Vec::new(), &NameMap::new(), &[], &[]);
    assert_eq!(entry(&all, "shared", "variant")["active"], true);
    assert_eq!(
        entry(&all, "shared", "project")["active"],
        false,
        "project entry must be demoted when shadowed by variant"
    );
}

#[test]
fn recorded_packages_show_how_they_came() {
    let mut recorded = NameMap::new();
    recorded.insert(
        "b".to_string(),
        RecordedPackage {
            kind: RecordedKind::Bundled,
            source: "bundled".to_string(),
            installed_at: "2026-01-01T00:00:00Z".to_string(),
            updated_at: "2026-01-02T00:00:00Z".to_string(),
        },
    );
    let mut b = package("b");
    b.meta = Some(Json::parse(r#"{"name":"other","version":"1.2.3","kind":"x"}"#).unwrap());
    let all = listed(None, vec![dir("/pkgs", vec![b])], &recorded, &[], &[]);
    let e = entry(&all, "b", "global");
    assert_eq!(e["source_type"], "bundled");
    assert_eq!(e["resolved_source_kind"], "bundled");
    assert_eq!(e["installed_at"], "2026-01-01T00:00:00Z");
    assert_eq!(e["updated_at"], "2026-01-02T00:00:00Z");
    // The metadata adds members and overrides none.
    assert_eq!(e["name"], "b");
    assert_eq!(e["kind"], "x");
}

#[test]
fn packages_without_metadata_carry_an_error() {
    let mut b = package("b");
    b.meta = None;
    let all = listed(None, vec![dir("/pkgs", vec![b])], &NameMap::new(), &[], &[]);
    assert_eq!(entry(&all, "b", "global")["error"], "failed to load meta");
}

#[test]
fn directories_without_init_are_not_listed() {
    let mut no_init = package("a");
    no_init.has_init = false;
    let mut file = package("b");
    file.is_dir = false;
    file.has_init = false;
    let unreadable = SearchDir {
        path: "/gone".to_string(),
        items: None,
    };
    let dirs = vec![unreadable, dir("/pkgs", vec![no_init, file])];
    assert!(listed(None, dirs, &NameMap::new(), &[], &[]).is_empty());
}

#[test]
fn locked_packages_are_listed_where_nothing_is_declared() {
    let mut p = project(vec![locked("a", at_path("sub/a"))], Vec::new(), &[]).unwrap();
    p.toml = ProjectToml::Missing;
    let all = listed(Some(p), Vec::new(), &NameMap::new(), &[], &[]);
    let e = entry(&all, "a", "project");
    assert_eq!(e["path"], "/p/sub/a");
    let mut p = project(vec![locked("a", at_path("sub/a"))], Vec::new(), &[]).unwrap();
    p.toml = ProjectToml::Failed;
    assert!(listed(Some(p), Vec::new(), &NameMap::new(), &[], &[]).is_empty());
}

#[test]
fn declared_packages_take_what_the_lock_says() {
    let mut l = locked("a", at_path("/abs/a"));
    l.version = Some("2.0".to_string());
    let lock = lock_by_name(&vec![l]);
    let info = resolve_project_pkg_info("a", &any_version(), &lock, "/p");
    assert_eq!(info.version.as_deref(), Some("2.0"));
    assert_eq!(info.source_type, "path");
    assert_eq!(info.path.as_deref(), Some("/abs/a"));
    let info = resolve_project_pkg_info("b", &path_dep("vendor/b"), &lock, "/p");
    assert_eq!(info.version, None);
    assert_eq!(info.source_type, "path");
    let git = PackageDep::Git {
        url: "u".to_string(),
        rev: None,
    };
    assert_eq!(resolve_project_pkg_info("c", &git, &lock, "/p").source_type, "git");
}

#[test]
fn scopes_and_kinds_have_names() {
    assert_eq!(Scope::Variant.as_str(), "variant");
    assert_eq!(Scope::Project.as_str(), "project");
    assert_eq!(Scope::Global.as_str(), "global");
    assert_eq!(ResolvedSourceKind::LocalPath.as_str(), "local_path");
    assert_eq!(ResolvedSourceKind::Linked.as_str(), "linked");
}

#[test]
fn no_more_packages_are_listed_than_asked_for() {
    let many = || (0..60).map(|i: u64| Json::UInt(i)).collect::<Vec<Json>>();
    let count = |limit: Option<usize>| {
        let r = list_response(many(), limit, &Vec::new(), None);
        let json: serde_json::Value = serde_json::from_str(&r.render()).unwrap();
        json["packages"].as_array().unwrap().len()
    };
    assert_eq!(count(None), 50);
    assert_eq!(count(Some(2)), 2);
    assert_eq!(count(Some(0)), 0);
    assert_eq!(count(Some(100)), 60);
}

#[test]
fn packages_of_a_marker_show_where_they_came_from() {
    let mut recorded = NameMap::new();
    recorded.insert(
        "b".to_string(),
        RecordedPackage {
            kind: RecordedKind::Installed,
            source: "/src/b".to_string(),
            installed_at: "2026-01-01T00:00:00Z".to_string(),
            updated_at: "2026-01-01T00:00:00Z".to_string(),
        },
    );
    let all = listed(None, vec![dir("/pkgs", vec![package("b")])], &recorded, &[], &[]);
    let e = entry(&all, "b", "global");
    assert_eq!(e["source_type"], "installed (from: /src/b)");
    assert_eq!(e["install_source"], "/src/b");
    assert_eq!(e["resolved_source_kind"], "installed");
}

fn names_in_order(packages: &[&str], limit: Option<usize>) -> Vec<String> {
    let docs = packages.iter().map(|t| Json::parse(t).unwrap()).collect();
    let r = list_response(docs, limit, &Vec::new(), None);
    let json: serde_json::Value = serde_json::from_str(&r.render()).unwrap();
    let listed = json["packages"].as_array().unwrap();
    listed.iter().map(|p| p["name"].as_str().unwrap().to_string()).collect()
}

#[test]
fn active_packages_come_first_and_the_newest_of_them() {
    let packages = [
        r#"{"name":"off","active":false,"installed_at":"2026-05-01T00:00:00Z"}"#,
        r#"{"name":"bare","active":true}"#,
        r#"{"name":"old","active":true,"installed_at":"2026-01-01T00:00:00Z"}"#,
        r#"{"name":"new","active":true,"installed_at":"2026-03-01T00:00:00Z"}"#,
        r#"{"name":"new2","active":true,"installed_at":"2026-03-01T00:00:00Z"}"#,
        r#"{"name":"bare2","active":true}"#,
    ];
    let all = ["new", "new2", "old", "bare", "bare2", "off"];
    assert_eq!(names_in_order(&packages, None), all);
    assert_eq!(names_in_order(&packages, Some(1)), ["new"]);
    assert_eq!(names_in_order(&packages, Some(5)), all[..5]);
    assert!(order_packages(Vec::new()).is_empty());
}

#[test]
fn the_record_says_of_each_package_how_it_came() {
    let mut m = Manifest::default();
    let git = PackageSource::Git { url: "https://h/g".to_string(), rev: Some("r".to_string()) };
    m.record_install("g", None, git);
    m.record_install("p", None, PackageSource::Path { path: "/src/p".to_string() });
    m.record_install("b", None, PackageSource::Bundled { collection: None });
    m.record_install("i", None, PackageSource::Installed);
    m.record_install("u", None, PackageSource::Unknown);
    let r = recorded_packages(&m);
    assert_eq!(r.len(), 5);
    let of = |name: &str| {
        let p = r.get(name).unwrap();
        (p.kind, p.source.clone())
    };
    assert_eq!(of("g"), (RecordedKind::Git, "https://h/g".to_string()));
    assert_eq!(of("p"), (RecordedKind::Path, "/src/p".to_string()));
    assert_eq!(of("b"), (RecordedKind::Bundled, "bundled".to_string()));
    assert_eq!(of("i"), (RecordedKind::Installed, "installed".to_string()));
    assert_eq!(of("u"), (RecordedKind::Installed, String::new()));
    let entry = m.packages.get("g").unwrap();
    assert_eq!(r.get("g").unwrap().installed_at, entry.installed_at);
    assert_eq!(r.get("g").unwrap().updated_at, entry.updated_at);
}
