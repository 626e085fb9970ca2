use algocline_app::scaffold::{
    compat_range_of, default_compat_range, escape_lua_string, render_template, skeleton_text,
    validate_name, PkgScaffoldError, ScaffoldResult,
};

#[test]
fn test_validate_name_ok() {
    assert!(validate_name("my_pkg").is_ok());
    assert!(validate_name("a").is_ok());
    assert!(validate_name("pkg123").is_ok());
    assert!(validate_name("a_b_c").is_ok());
    // exactly 64 chars
    let long = "a".repeat(64);
    assert!(validate_name(&long).is_ok());
}

#[test]
fn test_validate_name_empty() {
    let err = validate_name("").unwrap_err();
    assert!(matches!(err, PkgScaffoldError::NameInvalid { .. }));
    assert!(err.message().contains("not be empty"));
}

#[test]
fn test_validate_name_too_long() {
    let name = "a".repeat(65);
    let err = validate_name(&name).unwrap_err();
    assert!(matches!(err, PkgScaffoldError::NameInvalid { .. }));
    assert!(err.message().contains("64 characters"));
}

#[test]
fn test_validate_name_starts_with_digit() {
    let err = validate_name("1bad").unwrap_err();
    assert!(matches!(err, PkgScaffoldError::NameInvalid { .. }));
    assert!(err.message().contains("start with a lowercase"));
}

#[test]
fn test_validate_name_starts_with_upper() {
    let err = validate_name("Bad").unwrap_err();
    assert!(matches!(err, PkgScaffoldError::NameInvalid { .. }));
}

#[test]
fn test_validate_name_contains_slash() {
    let err = validate_name("has/slash").unwrap_err();
    assert!(matches!(err, PkgScaffoldError::NameInvalid { .. }));
    assert!(err.message().contains("only contain"));
}

#[test]
fn test_validate_name_contains_hyphen() {
    let err = validate_name("with-hyphen").unwrap_err();
    assert!(matches!(err, PkgScaffoldError::NameInvalid { .. }));
}

#[test]
fn test_validate_name_uppercase_mid() {
    let err = validate_name("myPkg").unwrap_err();
    assert!(matches!(err, PkgScaffoldError::NameInvalid { .. }));
}

#[test]
fn name_length_is_counted_in_bytes() {
    // Thirty-three two-byte letters are longer than the limit.
    let err = validate_name(&"\u{e9}".repeat(33)).unwrap_err();
    assert_eq!(
        err.message(),
        format!(
            "invalid package name {:?}: name must be 64 characters or fewer",
            "\u{e9}".repeat(33)
        )
    );
}

#[test]
fn test_default_compat_range_format() {
    let range = default_compat_range();
    assert!(
        range.starts_with(">="),
        "expected range to start with '>=' got: {range}"
    );
    assert!(
        range.contains(", <"),
        "expected range to contain ', <' got: {range}"
    );
}

#[test]
fn test_default_compat_range_current_version() {
    // "0.25.1" → ">=0.25.0, <0.26"
    let range = default_compat_range();
    assert_eq!(range, ">=0.25.0, <0.26");
}

#[test]
fn compat_range_spans_one_minor_version() {
    assert_eq!(compat_range_of(Some((1, 2))), ">=1.2.0, <1.3");
    assert_eq!(compat_range_of(None), ">=0.25.0, <0.26");
}

#[test]
fn test_escape_lua_string_passes_through_plain() {
    assert_eq!(escape_lua_string("plain text"), "plain text");
}

#[test]
fn test_escape_lua_string_escapes_quote_and_backslash() {
    assert_eq!(
        escape_lua_string(r#"he said "hi" \n"#),
        r#"he said \"hi\" \\n"#
    );
}

#[test]
fn test_escape_lua_string_escapes_newline_cr_nul() {
    assert_eq!(escape_lua_string("a\nb\rc\0d"), "a\\nb\\rc\\0d");
}

#[test]
fn test_render_template_escapes_injection_payload() {
    // Attempted breakout via closing quote + injected Lua code.
    let payload = r#"x",injected=os.execute("rm -rf /"),y=""#;
    let out = render_template("my_pkg", ">=0.25.0, <0.26", Some(payload), Some(payload));
    let expected_escaped = r#"x\",injected=os.execute(\"rm -rf /\"),y=\""#;
    assert!(
        out.contains(expected_escaped),
        "payload must be fully escaped; render was:\n{out}"
    );
    for line in out.lines() {
        let trimmed = line.trim_start();
        if trimmed.starts_with("category = \"") || trimmed.starts_with("description = \"") {
            assert!(
                line.contains(expected_escaped),
                "field line must contain escaped payload: {line}"
            );
            assert!(
                !line.contains(payload),
                "field line must not contain raw payload: {line}"
            );
        }
    }
}

#[test]
fn test_render_template_basic() {
    let out = render_template("my_pkg", ">=0.25.0, <0.26", None, None);
    assert!(out.contains(r#"name = "my_pkg""#));
    assert!(out.contains(r#"alc_shapes_compat = ">=0.25.0, <0.26""#));
    assert!(out.contains("-- category = \"<category>\","));
    assert!(out.contains("-- description = \"<description>\","));
    assert!(out.contains("TODO: one-line description"));
    assert!(out.contains("function M.run(ctx)"));
    assert!(out.contains("T.shape"));
    assert!(out.contains("return M"));
}

#[test]
fn test_render_template_with_category_and_description() {
    let out = render_template(
        "my_pkg",
        ">=0.25.0, <0.26",
        Some("selection"),
        Some("test pkg"),
    );
    assert!(out.contains(r#"category = "selection""#));
    assert!(out.contains(r#"description = "test pkg""#));
    // Commented-out placeholders must NOT appear.
    assert!(!out.contains("-- category ="));
    assert!(!out.contains("-- description ="));
    // Header line uses description value.
    assert!(out.contains("test pkg"));
}

#[test]
fn test_render_template_with_category_only() {
    let out = render_template("my_pkg", ">=0.25.0, <0.26", Some("reasoning"), None);
    assert!(out.contains(r#"category = "reasoning""#));
    // description placeholder is commented out.
    assert!(out.contains("-- description ="));
}

#[test]
fn header_line_holds_no_line_break() {
    let out = render_template("p", "c", None, Some("one\ntwo\rthree"));
    assert!(out.starts_with("--- p \u{2014} one two three.\n"));
}

#[test]
fn test_scaffold_pkg_invalid_name() {
    let err = skeleton_text("1bad", None, None).unwrap_err();
    assert!(matches!(err, PkgScaffoldError::NameInvalid { .. }));
}

#[test]
fn skeleton_carries_the_default_range() {
    let out = skeleton_text("my_pkg", Some("selection"), Some("test pkg")).unwrap();
    assert!(out.contains(r#"alc_shapes_compat = ">=0.25.0, <0.26""#));
    assert!(out.contains(r#"category = "selection""#));
    assert!(!out.contains("{{"));
}

#[test]
fn markers_in_the_fields_stay_as_they_are() {
    let out = render_template(
        "p",
        "c",
        Some("{{DESCRIPTION_LINE}} {{NAME}}"),
        Some("{{CATEGORY_LINE}} \"x\""),
    );
    let lines: Vec<&str> = out.lines().collect();
    assert_eq!(lines[0], "--- p \u{2014} {{CATEGORY_LINE}} \"x\".");
    assert!(lines.contains(&"        category = \"{{DESCRIPTION_LINE}} {{NAME}}\","));
    assert!(lines.contains(&"        description = \"{{CATEGORY_LINE}} \\\"x\\\"\","));
    assert_eq!(out.matches("category = ").count(), 1);
}

#[test]
fn the_whole_skeleton_is_as_it_should_be() {
    let out = render_template("my_pkg", ">=0.25.0, <0.26", Some("selection"), None);
    let expected = r#"--- my_pkg — TODO: one-line description.

local S = require("alc_shapes")
local T = S.T

local M = {
    meta = {
        name = "my_pkg",
        version = "0.1.0",
        alc_shapes_compat = ">=0.25.0, <0.26",
        category = "selection",
        -- description = "<description>", -- uncomment if provided
    },
    spec = {
        entries = {
            run = {
                -- TODO: declare input / result via alc_shapes.t combinators.
                -- input  = T.shape({ ... }),
                -- result = T.shape({ ... }),
            },
        },
    },
}

function M.run(ctx)
    -- TODO: implement. Use alc.llm(prompt) for LLM calls
    -- (pauses execution; host resumes via alc_continue).
    local answer = alc.llm("example prompt for " .. tostring(ctx.task))
    return { answer = answer }
end

return M
"#;
    assert_eq!(out, expected);
}

#[test]
fn the_answer_names_the_file_and_its_size() {
    let result = ScaffoldResult { path: "/t/p/init.lua".to_string(), bytes_written: 812 };
    let v: serde_json::Value = serde_json::from_str(&result.to_json().render()).unwrap();
    assert_eq!(v["status"], "ok");
    assert_eq!(v["path"], "/t/p/init.lua");
    assert_eq!(v["bytes_written"], 812);
    assert_eq!(v.as_object().unwrap().len(), 3);
}
