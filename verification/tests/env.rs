use algocline_app::env::{merge_env, plan_env, resolve_env, EnvFile};
use algocline_app::json::Json;
use algocline_app::name_map::NameMap;

fn json(text: &str) -> Json {
    Json::parse(text).unwrap()
}

fn pairs(v: &[(&str, &str)]) -> Vec<(String, String)> {
    v.iter().map(|(k, x)| (k.to_string(), x.to_string())).collect()
}

/// Resolves the environment for `ctx`. The file, where one is named, holds `file`.
fn resolve(
    ctx: &str,
    root: Option<&str>,
    file: Result<&str, &str>,
    allow: Option<&[&str]>,
) -> Result<NameMap<String>, String> {
    let plan = plan_env(&json(ctx), root)?;
    let os = pairs(&[("PATH", "/bin")]);
    let file = match file {
        Ok(t) => EnvFile::Read(t.as_bytes().to_vec()),
        Err(e) => EnvFile::Unopened(e.to_string()),
    };
    let allow: Option<Vec<String>> =
        allow.map(|names| names.iter().map(|a| a.to_string()).collect());
    resolve_env(&plan, &os, &file, allow.as_ref())
}

fn get(m: &NameMap<String>, k: &str) -> Option<String> {
    m.get(k).map(|v| v.to_string())
}

#[test]
fn resolve_env_inject_keys_readable() {
    let map = resolve(
        r#"{"env": {"inject": { "FOO": "bar", "BAZ": "qux" }}}"#,
        None,
        Ok(""),
        None,
    )
    .expect("resolve_env should succeed");
    assert_eq!(get(&map, "FOO").as_deref(), Some("bar"));
    assert_eq!(get(&map, "BAZ").as_deref(), Some("qux"));
}

#[test]
fn resolve_env_empty_ctx_produces_empty_map() {
    let map = resolve("null", None, Ok(""), None).expect("resolve_env with null ctx should succeed");
    assert_eq!(map.len(), 0, "empty ctx must produce an empty env map");
}

#[test]
fn resolve_env_inject_overwrites_dotenv() {
    let map = resolve(
        r#"{"env": {"dotenv": "/tmp/.env", "inject": { "PRIORITY": "from_inject" }}}"#,
        None,
        Ok("PRIORITY=from_dotenv\n"),
        None,
    )
    .expect("resolve_env should succeed");
    assert_eq!(
        get(&map, "PRIORITY").as_deref(),
        Some("from_inject"),
        "inject must shadow dotenv for the same key"
    );
}

#[test]
fn resolve_env_dotenv_absolute_path_loaded() {
    let map = resolve(
        r#"{"env": {"dotenv": "/tmp/.env"}}"#,
        None,
        Ok("DOTENV_KEY=dotenv_val\n"),
        None,
    )
    .expect("resolve_env should succeed");
    assert_eq!(
        get(&map, "DOTENV_KEY").as_deref(),
        Some("dotenv_val"),
        "key from dotenv file must be accessible"
    );
}

#[test]
fn resolve_env_allowlist_filters_inject_keys() {
    let map = resolve(
        r#"{"env": {"inject": { "ALLOWED": "yes", "BLOCKED": "no" }}}"#,
        None,
        Ok(""),
        Some(&["ALLOWED"]),
    )
    .expect("resolve_env should succeed");
    assert_eq!(get(&map, "ALLOWED").as_deref(), Some("yes"));
    assert!(
        map.get("BLOCKED").is_none(),
        "BLOCKED key must be excluded by allowlist"
    );
}

#[test]
fn resolve_env_allow_os_false_excludes_os_vars() {
    let map = resolve(r#"{ "env": { "allow_os": false } }"#, None, Ok(""), None)
        .expect("resolve_env should succeed");
    assert!(
        map.get("PATH").is_none(),
        "OS env must not leak when allow_os is false"
    );
}

#[test]
fn resolve_env_allow_os_true_shows_os_vars() {
    let map = resolve(r#"{ "env": { "allow_os": true } }"#, None, Ok(""), None).unwrap();
    assert_eq!(get(&map, "PATH").as_deref(), Some("/bin"));
}

#[test]
fn resolve_env_relative_dotenv_without_project_root_errors() {
    let result = resolve(r#"{"env": { "dotenv": ".env" }}"#, None, Ok(""), None);
    assert!(
        result.is_err(),
        "relative dotenv path without project_root must return Err"
    );
    let msg = result.unwrap_err();
    assert!(
        msg.contains("project_root"),
        "error must mention project_root, got: {msg}"
    );
}

#[test]
fn resolve_env_relative_dotenv_with_project_root_resolved() {
    let ctx = r#"{ "env": { "dotenv": ".env" } }"#;
    let plan = plan_env(&json(ctx), Some("/project")).unwrap();
    assert_eq!(plan.dotenv.as_deref(), Some("/project/.env"));
    let map = resolve(ctx, Some("/project"), Ok("REL_KEY=rel_val\n"), None)
        .expect("resolve_env should succeed");
    assert_eq!(
        get(&map, "REL_KEY").as_deref(),
        Some("rel_val"),
        "relative dotenv path must be resolved against project_root"
    );
}

#[test]
fn resolve_env_none_allowlist_keeps_all_inject_keys() {
    let map = resolve(
        r#"{"env": { "inject": { "A": "1", "B": "2" } }}"#,
        None,
        Ok(""),
        None,
    )
    .expect("resolve_env should succeed");
    assert_eq!(
        map.len(),
        2,
        "all inject keys must be retained when allowlist is None"
    );
}

#[test]
fn resolve_env_inject_non_string_value_errors() {
    let result = resolve(r#"{"env": { "inject": { "BAD": 42 } }}"#, None, Ok(""), None);
    assert!(result.is_err(), "non-string inject value must return Err");
    let msg = result.unwrap_err();
    assert!(
        msg.contains("BAD"),
        "error must mention the offending key, got: {msg}"
    );
    assert_eq!(
        msg,
        "ctx.env.inject: value for key 'BAD' must be a string, got 42"
    );
}

#[test]
fn resolve_env_inject_not_an_object_errors() {
    let result = resolve(
        r#"{"env": { "inject": ["not", "an", "object"] }}"#,
        None,
        Ok(""),
        None,
    );
    assert!(result.is_err(), "non-object inject value must return Err");
    assert_eq!(
        result.unwrap_err(),
        r#"ctx.env.inject must be an object, got ["not","an","object"]"#
    );
}

#[test]
fn resolve_env_missing_dotenv_file_errors() {
    let result = resolve(
        r#"{"env": { "dotenv": "/nonexistent/path/to/.env" }}"#,
        None,
        Err("path not found"),
        None,
    );
    assert!(
        result.is_err(),
        "missing dotenv file must return Err, not empty map"
    );
    let msg = result.unwrap_err();
    assert!(
        msg.contains("dotenv"),
        "error must mention dotenv, got: {msg}"
    );
    assert_eq!(
        msg,
        "ctx.env.dotenv: failed to open '/nonexistent/path/to/.env': path not found"
    );
}

#[test]
fn resolve_env_bad_dotenv_line_errors() {
    let msg = resolve(
        r#"{"env": { "dotenv": "/tmp/.env" }}"#,
        None,
        Ok("A=1\nB='unclosed\n"),
        None,
    )
    .unwrap_err();
    assert!(
        msg.starts_with("ctx.env.dotenv: parse error in '/tmp/.env': "),
        "{msg}"
    );
}

#[test]
fn layers_are_laid_over_each_other() {
    let os = pairs(&[("A", "os"), ("B", "os"), ("C", "os")]);
    let file = pairs(&[("B", "file"), ("C", "file"), ("B", "again")]);
    let inject = pairs(&[("C", "inject")]);
    let m = merge_env(&os, &file, &inject, None);
    assert_eq!(get(&m, "A").as_deref(), Some("os"));
    assert_eq!(get(&m, "B").as_deref(), Some("again"));
    assert_eq!(get(&m, "C").as_deref(), Some("inject"));
    assert_eq!(m.len(), 3);
    let m = merge_env(&os, &file, &inject, Some(&vec!["C".to_string(), "D".to_string()]));
    assert_eq!(m.len(), 1);
    assert_eq!(get(&m, "C").as_deref(), Some("inject"));
}

#[test]
fn an_empty_list_lets_nothing_through() {
    let ctx = r#"{"env": { "inject": { "A": "1" }, "allow_os": true }}"#;
    assert_eq!(resolve(ctx, None, Ok(""), Some(&[])).unwrap().len(), 0);
    assert_eq!(resolve(ctx, None, Ok(""), None).unwrap().len(), 2);
    assert_eq!(resolve(ctx, None, Ok(""), Some(&["A", "Z"])).unwrap().len(), 1);
}

#[test]
fn a_file_that_breaks_off_is_told_apart_from_one_that_is_not_there() {
    let plan = plan_env(&json(r#"{"env": { "dotenv": "/tmp" }}"#), None).unwrap();
    let file = EnvFile::Unread("Is a directory".to_string());
    assert_eq!(
        resolve_env(&plan, &Vec::new(), &file, None).err().unwrap(),
        "ctx.env.dotenv: parse error in '/tmp': Is a directory"
    );
}

const DOTENV: &str = r#"{"env": { "dotenv": "/tmp/.env" }}"#;

#[test]
fn a_dollar_that_refers_to_nothing_is_read_as_it_stands() {
    let file = "# costs $5\nA='a$b'\nB=plain\nC=\"\\$x\"\n";
    let map = resolve(DOTENV, None, Ok(file), None).unwrap();
    assert_eq!(map.len(), 3);
    assert_eq!(get(&map, "A").as_deref(), Some("a$b"));
    assert_eq!(get(&map, "B").as_deref(), Some("plain"));
    assert_eq!(get(&map, "C").as_deref(), Some("$x"));
}

#[test]
fn names_are_read_whatever_their_values_refer_to() {
    let file = "BASE=/srv\nHOME_OF_IT=${BASE}/x\nBASE=/opt\nLAST=1\n";
    let map = resolve(DOTENV, None, Ok(file), None).unwrap();
    assert_eq!(map.len(), 3);
    assert_eq!(get(&map, "BASE").as_deref(), Some("/opt"));
    assert!(get(&map, "HOME_OF_IT").unwrap().ends_with("/x"));
    assert_eq!(get(&map, "LAST").as_deref(), Some("1"));
}

#[test]
fn a_bad_line_is_an_error_beside_a_reference_too() {
    for file in ["A=$HOME\nB='open\n", "# $\nno equals sign\n", "A=${open\n", "A=1\nB=\\q$x\n"] {
        let msg = resolve(DOTENV, None, Ok(file), None).unwrap_err();
        assert!(
            msg.starts_with("ctx.env.dotenv: parse error in '/tmp/.env': Error parsing line: "),
            "{file:?}: {msg}"
        );
    }
}
