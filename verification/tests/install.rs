use algocline_app::install::{
    auto_install_outcome, auto_install_sources, classify_install_url, collection_answer,
    default_name, lock_installed, make_version_code, names_to_declare, plan_install,
    prefix_git_scheme_if_missing, project_files_lock_path, single_answer, single_step,
    source_to_record, upsert_lock_entry, version_of_answer, Batch, CollectionEntry, CopyStep,
    EntryStep, Extras, Plan,
};
use algocline_app::json::Json;
use algocline_app::names::{
    is_plain_pkg_name, is_safe_pkg_name, is_system_package, make_meta_code, make_require_code,
};
use algocline_app::source::{InstallSource, LockPackage, PackageSource};

fn value(j: &Json) -> serde_json::Value {
    serde_json::from_str(&j.render()).unwrap()
}

fn local(p: &str) -> InstallSource {
    InstallSource::LocalPath(p.to_string())
}

fn git(u: &str) -> InstallSource {
    InstallSource::GitUrl(u.to_string())
}

#[test]
fn urls_get_a_scheme_once() {
    assert_eq!(
        prefix_git_scheme_if_missing("github.com/user/repo"),
        "https://github.com/user/repo"
    );
    for url in ["http://h/r", "https://h/r", "file:///r", "git@h:r"] {
        assert_eq!(prefix_git_scheme_if_missing(url), url);
    }
}

#[test]
fn absolute_paths_are_directories_and_the_rest_is_git() {
    assert!(matches!(classify_install_url("/src/p"), InstallSource::LocalPath(p) if p == "/src/p"));
    assert!(
        matches!(classify_install_url("github.com/u/r"), InstallSource::GitUrl(u) if u == "https://github.com/u/r")
    );
    assert!(matches!(source_to_record(&local("/src/p")), PackageSource::Path { path } if path == "/src/p"));
    assert!(matches!(source_to_record(&git("https://h/r")), PackageSource::Git { url, rev: None } if url == "https://h/r"));
}

#[test]
fn names_come_from_the_source() {
    assert_eq!(default_name(&local("/src/my_pkg")), "my_pkg");
    assert_eq!(default_name(&local("/")), "unknown");
    assert_eq!(default_name(&git("https://h/u/repo.git")), "repo");
    assert_eq!(default_name(&git("https://h/u/repo/")), "repo");
}

#[test]
fn sources_hold_one_package_or_a_collection() {
    assert!(matches!(
        plan_install(&local("/src/p"), true, true, None),
        Ok(Plan::Single(n)) if n == "p"
    ));
    assert!(matches!(
        plan_install(&git("https://h/p"), true, true, Some("q")),
        Ok(Plan::Single(n)) if n == "q"
    ));
    assert!(matches!(
        plan_install(&local("/src/c"), true, false, None),
        Ok(Plan::Collection)
    ));
    assert_eq!(
        plan_install(&local("/gone"), false, false, None).unwrap_err(),
        "Source directory does not exist: /gone"
    );
    assert!(plan_install(&local("/src/c"), true, false, Some("n"))
        .unwrap_err()
        .contains("'name' parameter"));
    assert!(plan_install(&git("https://h/c"), true, false, Some("n"))
        .unwrap_err()
        .contains("collection"));
}

#[test]
fn repositories_replace_nothing() {
    assert!(matches!(
        single_step(&local("/s/p"), "p", "/d/p", true, false),
        Ok(CopyStep::Replace)
    ));
    assert!(matches!(
        single_step(&local("/s/p"), "p", "/d/p", false, false),
        Ok(CopyStep::Copy)
    ));
    assert_eq!(
        single_step(&git("https://h/p"), "p", "/d/p", true, false).unwrap_err(),
        "Package 'p' already exists at /d/p. Remove it first."
    );
    assert_eq!(
        single_step(&git("https://h/p"), "p", "/d/p", true, true),
        Ok(CopyStep::Replace)
    );
    assert_eq!(
        single_step(&git("https://h/p"), "p", "/d/p", false, true),
        Ok(CopyStep::Copy)
    );
}

fn entry(name: &str, has_init: bool, dest_exists: bool) -> CollectionEntry {
    CollectionEntry {
        name: name.to_string(),
        is_dir: true,
        has_init,
        dest_exists,
    }
}

#[test]
fn collections_report_every_package() {
    let source = git("https://h/c");
    let mut b = Batch::new();
    assert_eq!(b.next(&source, &entry("docs", false, false)), EntryStep::Ignore);
    assert_eq!(b.next(&source, &entry("a", true, false)), EntryStep::Copy);
    assert_eq!(b.next(&source, &entry("b", true, true)), EntryStep::Skip);
    assert_eq!(b.to_record(&source).unwrap(), ["a"]);
    let extras = Extras {
        cards: vec!["card".to_string()],
        scenarios: Vec::new(),
        scenario_failures: Vec::new(),
    };
    let v = value(&collection_answer(&source, &b, &extras, Some("/types")));
    assert_eq!(v["installed"][0], "a");
    assert_eq!(v["skipped"][0], "b");
    assert_eq!(v["cards_installed"][0], "card");
    assert_eq!(v["mode"], "collection");
    assert_eq!(v["types_path"], "/types");

    let source = local("/src/c");
    let mut b = Batch::new();
    assert_eq!(b.next(&source, &entry("a", true, false)), EntryStep::Copy);
    assert_eq!(b.next(&source, &entry("b", true, true)), EntryStep::Replace);
    assert_eq!(b.to_record(&source).unwrap(), ["a", "b"]);
    let v = value(&collection_answer(&source, &b, &extras, None));
    assert_eq!(v["updated"][0], "b");
    assert_eq!(v["mode"], "local_collection");
    assert!(v.get("types_path").is_none());

    assert!(Batch::new().to_record(&source).is_err());
}

#[test]
fn single_packages_are_answered_by_name() {
    let v = value(&single_answer(&local("/s/p"), "p", None));
    assert_eq!(v["installed"][0], "p");
    assert_eq!(v["mode"], "local_single");
    let v = value(&single_answer(&git("https://h/p"), "p", Some("/t")));
    assert_eq!(v["mode"], "single");
    assert_eq!(v["types_path"], "/t");
}

#[test]
fn locks_take_one_entry_per_name() {
    let mut lock: Vec<LockPackage> = Vec::new();
    upsert_lock_entry(&mut lock, "a".to_string(), None, PackageSource::Unknown);
    upsert_lock_entry(&mut lock, "b".to_string(), None, PackageSource::Unknown);
    lock_installed(
        &mut lock,
        &vec![
            ("a".to_string(), Some("1.0".to_string())),
            ("c".to_string(), None),
        ],
    );
    let names: Vec<&str> = lock.iter().map(|p| p.name.as_str()).collect();
    assert_eq!(names, ["a", "b", "c"]);
    assert_eq!(lock[0].version.as_deref(), Some("1.0"));
    assert!(matches!(lock[0].source, PackageSource::Installed));
    assert!(matches!(lock[1].source, PackageSource::Unknown));
    assert_eq!(project_files_lock_path("/p"), "/p/.alc-install.lock");
}

#[test]
fn only_new_names_are_declared() {
    let declared = vec!["a".to_string()];
    let names = vec!["a".to_string(), "b".to_string()];
    assert_eq!(names_to_declare(&declared, &names), ["b"]);
}

#[test]
fn versions_are_asked_of_safe_names_only() {
    let code = make_version_code("my-pkg_1").unwrap();
    assert!(code.contains("require(\"my-pkg_1\")"), "{code}");
    assert!(make_version_code("a\"; os.exit() --").is_none());
    assert_eq!(version_of_answer(Some(&Json::text("1.2"))).as_deref(), Some("1.2"));
    assert_eq!(version_of_answer(Some(&Json::text(""))), None);
    assert_eq!(version_of_answer(Some(&Json::UInt(1))), None);
    assert_eq!(version_of_answer(None), None);
}

#[test]
fn names_of_packages_are_checked() {
    assert!(is_safe_pkg_name("my-pkg_1"));
    assert!(!is_safe_pkg_name(""));
    assert!(!is_safe_pkg_name("a.b"));
    assert!(is_plain_pkg_name("my_pkg_1"));
    assert!(!is_plain_pkg_name("my-pkg"));
    assert!(is_system_package("evalframe"));
    assert!(!is_system_package("ucb"));
    assert_eq!(
        make_require_code("ucb"),
        "local pkg = require(\"ucb\")\nreturn pkg.run(ctx)"
    );
    assert!(make_meta_code("ucb").contains("pkg.meta"));
}

#[test]
fn bundles_fail_only_together() {
    let sources = auto_install_sources();
    assert_eq!(sources.len(), 2);
    let ok: Vec<(String, Option<String>)> = sources.iter().map(|s| (s.clone(), None)).collect();
    assert!(auto_install_outcome(&ok).is_ok());
    let one = vec![
        ("u1".to_string(), Some("no net".to_string())),
        ("u2".to_string(), None),
    ];
    assert!(auto_install_outcome(&one).is_ok());
    let bad = vec![
        ("u1".to_string(), Some("no net".to_string())),
        ("u2".to_string(), Some("gone".to_string())),
    ];
    assert_eq!(
        auto_install_outcome(&bad).unwrap_err(),
        "Failed to auto-install bundled packages: u1: no net; u2: gone"
    );
}
