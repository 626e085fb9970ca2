use algocline_app::project::{
    dirs_to_walk, merge_lib_paths, names_only_in, resolve_project_root,
    resolve_project_root_with_session, undeclared_lock_warning, unlocked_declaration_warning,
    walk_up_for_alc_toml, Probe,
};

fn dir(path: &str) -> Option<Probe> {
    Some(Probe {
        path: path.to_string(),
        is_dir: true,
    })
}

fn no_dir(path: &str) -> Option<Probe> {
    Some(Probe {
        path: path.to_string(),
        is_dir: false,
    })
}

/// Walks up from `start`, where `alc.toml` stands in `holders`.
fn walk(start: &str, holders: &[&str]) -> Option<String> {
    let dirs = dirs_to_walk(start);
    let has_toml = dirs.iter().map(|d| holders.contains(&d.as_str())).collect();
    walk_up_for_alc_toml(&dirs, &has_toml)
}

#[test]
fn resolve_project_root_via_env() {
    let result = resolve_project_root(&None, &dir("/tmp/env"), None);
    assert_eq!(result, Some("/tmp/env".to_string()));
}

#[test]
fn resolve_project_root_explicit_wins_over_env() {
    let result = resolve_project_root(&dir("/tmp/explicit"), &dir("/tmp/env"), None);
    assert_eq!(result, Some("/tmp/explicit".to_string()));
}

#[test]
fn resolve_project_root_walk_up() {
    let result = walk("/tmp/project/a/b", &["/tmp/project"]);
    assert_eq!(result, Some("/tmp/project".to_string()));
}

#[test]
fn resolve_project_root_none_when_no_alc_toml() {
    assert!(walk("/tmp/project", &[]).is_none());
}

#[test]
fn walk_up_stops_at_root_when_no_alc_toml() {
    assert_eq!(dirs_to_walk("/"), vec!["/"]);
    assert!(walk("/", &[]).is_none());
    assert_eq!(walk("/", &["/"]), Some("/".to_string()));
}

#[test]
fn resolve_project_root_explicit_non_dir_falls_back() {
    let explicit = no_dir("/this/path/does/not/exist_xyz");
    assert_eq!(resolve_project_root(&explicit, &None, None), None);
    assert_eq!(
        resolve_project_root(&explicit, &None, Some("/walked".to_string())),
        Some("/walked".to_string())
    );
}

#[test]
fn session_pin_overrides_env_when_explicit_absent() {
    let result =
        resolve_project_root_with_session(&None, &dir("/tmp/session"), &dir("/tmp/env"), None);
    assert_eq!(
        result,
        Some("/tmp/session".to_string()),
        "session pin (S) must beat env (E) when explicit (P) is absent"
    );
}

#[test]
fn explicit_overrides_session_pin() {
    let result =
        resolve_project_root_with_session(&dir("/tmp/explicit"), &dir("/tmp/session"), &None, None);
    assert_eq!(
        result,
        Some("/tmp/explicit".to_string()),
        "explicit (P) must beat session pin (S) for per-call debug overrides"
    );
}

#[test]
fn session_pin_falls_through_when_not_a_directory() {
    let result = resolve_project_root_with_session(
        &None,
        &no_dir("/nonexistent/session/pin/xyz"),
        &dir("/tmp/env"),
        None,
    );
    assert_eq!(
        result,
        Some("/tmp/env".to_string()),
        "invalid session pin must fall through to env (E)"
    );
}

#[test]
fn legacy_resolve_matches_no_session_pin() {
    let legacy = resolve_project_root(&None, &dir("/tmp/env"), None);
    let with_session = resolve_project_root_with_session(&None, &None, &dir("/tmp/env"), None);
    assert_eq!(legacy, with_session);
    assert_eq!(legacy, Some("/tmp/env".to_string()));
}

#[test]
fn walk_finds_the_innermost_project() {
    let result = walk("/a/b/c/d", &["/a", "/a/b/c"]);
    assert_eq!(result, Some("/a/b/c".to_string()));
    assert_eq!(dirs_to_walk("/a/b"), vec!["/a/b", "/a", "/"]);
    assert_eq!(dirs_to_walk("a/b"), vec!["a/b", "a", ""]);
}

#[test]
fn local_library_paths_come_first() {
    let local = vec!["/v".to_string(), "/w".to_string()];
    let locked = vec!["/x".to_string()];
    assert_eq!(merge_lib_paths(&local, &locked), vec!["/v", "/w", "/x"]);
}

#[test]
fn lock_and_declarations_are_compared_by_name() {
    let a = vec!["a".to_string(), "b".to_string(), "c".to_string()];
    let b = vec!["b".to_string()];
    assert_eq!(names_only_in(&a, &b), vec!["a", "c"]);
    assert!(names_only_in(&b, &a).is_empty());
    assert_eq!(
        unlocked_declaration_warning("ucb"),
        "warning: 'ucb' is declared in alc.toml but missing from alc.lock. Run `alc_update` to sync."
    );
    assert_eq!(
        undeclared_lock_warning("ucb"),
        "warning: 'ucb' is in alc.lock but not declared in alc.toml."
    );
}
