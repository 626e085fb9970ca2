use algocline_app::migrate::{
    backup_path, choose_root, detect_legacy_format, legacy_packages, migrated_answer,
    migrated_toml, nothing_answer, plan_migration, MigrateStep,
};

const LEGACY_LOCK: &str = r#"version = 1

[[package]]
name = "my_pkg"
linked_at = "2024-01-01T00:00:00Z"

[package.source]
type = "local_dir"
path = "/some/path/my_pkg"
"#;

#[test]
fn migrate_when_no_lock_returns_nothing_to_migrate() {
    match plan_migration(None, "/p/alc.toml", false).unwrap() {
        MigrateStep::Nothing(reason) => {
            let result = nothing_answer(reason).render();
            assert!(result.contains("nothing to migrate"), "{result}");
            assert!(result.contains("alc.lock not found"), "{result}");
        }
        step => panic!("nothing is there to be written: {step:?}"),
    }
}

#[test]
fn migrate_new_format_lock_returns_nothing_to_migrate() {
    let lock = "version = 1\n\n[[package]]\nname = \"cot\"\n\n[package.source]\ntype = \"installed\"\n";
    assert!(matches!(
        plan_migration(Some(lock), "/p/alc.toml", false),
        Ok(MigrateStep::Nothing(_))
    ));
}

#[test]
fn migrate_legacy_lock_creates_alc_toml_and_backup() {
    let targets = match plan_migration(Some(LEGACY_LOCK), "/p/alc.toml", false).unwrap() {
        MigrateStep::Write(v) => v,
        step => panic!("the lock has the old format: {step:?}"),
    };
    assert_eq!(targets.len(), 1);
    let toml_content = migrated_toml(&targets).unwrap();
    assert!(toml_content.contains("[packages]"), "{toml_content}");
    assert!(toml_content.contains("my_pkg"), "{toml_content}");
    assert_eq!(
        toml_content,
        "[packages]\nmy_pkg = { path = \"/some/path/my_pkg\" }\n"
    );
    let backup = backup_path("/p");
    assert_eq!(backup, "/p/alc.lock.bak");
    let result = migrated_answer("/p/alc.toml", &backup).render();
    assert!(result.contains("\"migrated\":true"), "{result}");
}

#[test]
fn migrate_fails_if_alc_toml_already_exists() {
    let err = plan_migration(Some(LEGACY_LOCK), "/p/alc.toml", true).unwrap_err();
    assert!(err.contains("already exists"), "{err}");
}

#[test]
fn old_locks_are_told_by_their_fields() {
    assert!(detect_legacy_format(LEGACY_LOCK));
    assert!(detect_legacy_format(
        "[[package]]\nname = \"a\"\nlinked_at = \"x\"\n"
    ));
    assert!(detect_legacy_format(
        "[[package]]\nname = \"a\"\n[package.source]\ntype = \"local_dir\"\n"
    ));
    // The words alone do not count, nor does what cannot be read.
    assert!(!detect_legacy_format("[[package]]\nname = \"linked_at local_dir\"\n"));
    assert!(!detect_legacy_format("not toml ]["));
    assert!(!detect_legacy_format(""));
}

#[test]
fn only_directories_migrate_and_the_last_path_counts() {
    let lock = r#"[[package]]
name = "a"
[package.source]
type = "installed"
[[package]]
name = "b"
[package.source]
type = "local_dir"
path = "/one"
[[package]]
name = "b"
[package.source]
type = "local_dir"
path = "/two"
[[package]]
name = "needs quotes"
[package.source]
type = "local_dir"
path = "/three"
"#;
    let targets = legacy_packages(lock);
    let names: Vec<&str> = targets.iter().map(|t| t.name.as_str()).collect();
    assert_eq!(names, ["b", "b", "needs quotes"]);
    assert_eq!(
        migrated_toml(&targets).unwrap(),
        "[packages]\nb = { path = \"/two\" }\n\"needs quotes\" = { path = \"/three\" }\n"
    );
    assert_eq!(migrated_toml(&Vec::new()).unwrap(), "[packages]\n");
}

#[test]
fn root_is_explicit_then_environment_then_directory() {
    let cwd = || Ok("/cwd".to_string());
    assert_eq!(choose_root(Some("/e"), Some("/v"), cwd()), Ok("/e".to_string()));
    assert_eq!(choose_root(None, Some("/v"), cwd()), Ok("/v".to_string()));
    assert_eq!(choose_root(None, Some(""), cwd()), Ok("/cwd".to_string()));
    assert_eq!(
        choose_root(None, None, Err("gone".to_string())),
        Err("Cannot determine cwd: gone".to_string())
    );
}

#[test]
fn the_document_decides_and_not_its_lines() {
    // A path may hold any word, names may stand anywhere, and comments count
    // for nothing.
    let lock = r#"version = 1

[[package]]
linked_at = "2024-01-01T00:00:00Z"
name = 'kept' # local_dir
source = { path = "/work/local_dir/kept", type = "local_dir" }

[[package]]
name = "git_one"
# type = "local_dir"
[package.source]
type = "git"
url = "https://example.test/local_dir"
path = "/not/this"

[[package]]
name = "tabled"
[package.source]
name = "inner"
type = "local_dir"
path = '/work/tabled'

[[package]]
name = "pathless"
[package.source]
type = "local_dir"
"#;
    let targets: Vec<(String, String)> = legacy_packages(lock)
        .into_iter()
        .map(|t| (t.name, t.path))
        .collect();
    assert_eq!(
        targets,
        [
            ("kept".to_string(), "/work/local_dir/kept".to_string()),
            ("tabled".to_string(), "/work/tabled".to_string()),
        ]
    );
    assert!(legacy_packages("not toml ][").is_empty());
    assert!(legacy_packages("package = 1").is_empty());
}
