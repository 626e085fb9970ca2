use algocline_app::doctor::{
    check_incomplete, classify_installed, diagnose, extract_required_subs,
    incomplete_pkg_suggestion, installed_missing_suggestion, DoctorBuckets, DoctorOutcome,
    InstalledState,
};
use algocline_app::health::{Finding, PlaceFact};
use algocline_app::json::Json;
use algocline_app::source::PackageSource;

fn json(text: &str) -> Json {
    Json::parse(text).unwrap()
}

fn value(j: &Json) -> serde_json::Value {
    serde_json::from_str(&j.render()).unwrap()
}

fn place(is_symlink: bool, alive: bool, target: Option<&str>) -> PlaceFact {
    PlaceFact {
        is_symlink,
        alive,
        link_target: target.map(|t| t.to_string()),
    }
}

/// The record of a package whose `init.lua` reads `init`, beside which the
/// modules in `files` stand.
fn state(name: &str, place: PlaceFact, init: &str, files: &[&str]) -> InstalledState {
    let subs = extract_required_subs(init, name);
    let present = subs.iter().map(|s| files.contains(&s.as_str())).collect();
    InstalledState {
        name: name.to_string(),
        source: PackageSource::Path {
            path: format!("/src/{name}"),
        },
        dest: format!("/home/packages/{name}"),
        place,
        subs,
        present,
    }
}

#[test]
fn classify_installed_healthy_dir() {
    let outcome = classify_installed(&state("p", place(false, true, None), "", &[]));
    assert!(matches!(outcome, DoctorOutcome::Healthy));
}

#[test]
fn classify_installed_missing_dir() {
    let outcome = classify_installed(&state("p", place(false, false, None), "", &[]));
    match outcome {
        DoctorOutcome::InstalledMissing { reason, suggestion } => {
            assert!(
                reason.contains("installed directory missing"),
                "reason = {reason}"
            );
            assert!(
                suggestion.contains("alc_pkg_install"),
                "suggestion = {suggestion}"
            );
            assert!(
                suggestion.contains("/src/p"),
                "suggestion carries source: {suggestion}"
            );
        }
        _ => panic!("expected InstalledMissing"),
    }
}

#[test]
fn classify_installed_symlink_dangling() {
    let gone = place(true, false, Some("/nonexistent/path/for/doctor_test"));
    match classify_installed(&state("p", gone, "", &[])) {
        DoctorOutcome::SymlinkDangling { reason, suggestion } => {
            assert!(reason.contains("symlink target missing"), "{reason}");
            assert!(reason.contains("/nonexistent/path/for/doctor_test"), "{reason}");
            assert!(suggestion.contains("alc_pkg_unlink"), "{suggestion}");
        }
        _ => panic!("expected SymlinkDangling"),
    }
}

#[test]
fn classify_installed_symlink_alive() {
    let linked = place(true, true, Some("/real_target_dir"));
    let outcome = classify_installed(&state("q", linked, "", &[]));
    assert!(matches!(outcome, DoctorOutcome::Healthy));
}

#[test]
fn buckets_into_json_emits_all_five_keys() {
    let mut b = DoctorBuckets::default();
    b.healthy.push(json(r#"{"name": "h"}"#));
    b.installed_missing
        .push(json(r#"{"name": "i", "kind": "installed_missing"}"#));
    b.symlink_dangling
        .push(json(r#"{"name": "s", "kind": "symlink_dangling"}"#));
    b.path_missing
        .push(json(r#"{"name": "p", "kind": "path_missing"}"#));
    b.incomplete_pkg
        .push(json(r#"{"name": "c", "kind": "incomplete_pkg"}"#));

    let out = b.into_json().render();
    let parsed: serde_json::Value = serde_json::from_str(&out).expect("valid JSON");
    let obj = parsed.as_object().expect("JSON object");
    assert!(obj.contains_key("healthy"));
    assert!(obj.contains_key("installed_missing"));
    assert!(obj.contains_key("symlink_dangling"));
    assert!(obj.contains_key("path_missing"));
    assert!(obj.contains_key("incomplete_pkg"));
    assert_eq!(obj.len(), 5, "exactly five top-level buckets: {out}");

    assert_eq!(obj["healthy"][0]["name"], "h");
    assert_eq!(obj["installed_missing"][0]["name"], "i");
    assert_eq!(obj["symlink_dangling"][0]["name"], "s");
    assert_eq!(obj["path_missing"][0]["name"], "p");
    assert_eq!(obj["incomplete_pkg"][0]["name"], "c");
}

#[test]
fn any_matched_tracks_all_buckets() {
    let mut b = DoctorBuckets::default();
    assert!(!b.any_matched());
    b.healthy.push(json(r#"{"name": "h"}"#));
    assert!(b.any_matched());

    let mut b = DoctorBuckets::default();
    b.installed_missing.push(json("{}"));
    assert!(b.any_matched());

    let mut b = DoctorBuckets::default();
    b.symlink_dangling.push(json("{}"));
    assert!(b.any_matched());

    let mut b = DoctorBuckets::default();
    b.path_missing.push(json("{}"));
    assert!(b.any_matched());

    let mut b = DoctorBuckets::default();
    b.incomplete_pkg.push(json("{}"));
    assert!(b.any_matched());
}

#[test]
fn installed_missing_suggestion_shape() {
    let git = PackageSource::Git {
        url: "github.com/foo/bar".to_string(),
        rev: None,
    };
    let s = installed_missing_suggestion("ucb", &git);
    assert!(s.contains("alc_pkg_install"), "{s}");
    assert!(s.contains("\"ucb\""), "{s}");
    assert!(s.contains("github.com/foo/bar"), "{s}");
}

#[test]
fn installed_missing_suggestion_routes_bundled_to_alc_init() {
    let bundled = PackageSource::Bundled { collection: None };
    let s = installed_missing_suggestion("ucb", &bundled);
    assert!(s.contains("alc_init"), "bundled must suggest alc_init: {s}");
    assert!(
        !s.contains("alc_pkg_install"),
        "bundled must NOT suggest alc_pkg_install: {s}"
    );
}

#[test]
fn installed_missing_suggestion_routes_absolute_path_to_pkg_install() {
    let local = PackageSource::Path {
        path: "/abs/path/to/src".to_string(),
    };
    let s = installed_missing_suggestion("local_pkg", &local);
    assert!(s.contains("alc_pkg_install"), "{s}");
    assert!(s.contains("/abs/path/to/src"), "{s}");
}

#[test]
fn installed_missing_suggestion_routes_unknown_to_reindex() {
    let s = installed_missing_suggestion("legacy_pkg", &PackageSource::Unknown);
    assert!(
        s.contains("alc_hub_reindex"),
        "Unknown must suggest alc_hub_reindex: {s}"
    );
}

#[test]
fn extract_subs_double_quote() {
    let src = r#"
local M = {}
local check = require("mypkg.check")
local t = require("mypkg.t")
return M
"#;
    let subs = extract_required_subs(src, "mypkg");
    assert_eq!(subs, vec!["check", "t"]);
}

#[test]
fn extract_subs_single_quote() {
    let src = "local x = require('mypkg.sub')";
    let subs = extract_required_subs(src, "mypkg");
    assert_eq!(subs, vec!["sub"]);
}

#[test]
fn extract_subs_ignores_other_packages() {
    let src = r#"
local x = require("other.sub")
local y = require("mypkg.mine")
"#;
    let subs = extract_required_subs(src, "mypkg");
    assert_eq!(subs, vec!["mine"]);
}

#[test]
fn extract_subs_deduplicates() {
    let src = r#"
local a = require("mypkg.check")
local b = require("mypkg.check")
"#;
    let subs = extract_required_subs(src, "mypkg");
    assert_eq!(subs, vec!["check"]);
}

#[test]
fn extract_subs_ignores_dynamic_require() {
    let src = r#"local x = require(mod_name)"#;
    let subs = extract_required_subs(src, "mypkg");
    assert!(subs.is_empty(), "dynamic require must be ignored: {subs:?}");
}

#[test]
fn extract_subs_ignores_nested_dots() {
    let src = r#"local x = require("mypkg.sub.deeper")"#;
    let subs = extract_required_subs(src, "mypkg");
    assert!(
        subs.is_empty(),
        "nested dotted require must be ignored: {subs:?}"
    );
}

#[test]
fn extract_subs_empty_for_no_require() {
    let src = r#"local M = {} return M"#;
    let subs = extract_required_subs(src, "mypkg");
    assert!(subs.is_empty());
}

#[test]
fn extract_subs_reads_past_an_unclosed_quote() {
    // The first call never closes; the empty one names nothing.
    let src = r#"require("mypkg.") require('mypkg.a') require("mypkg.b"#;
    assert_eq!(extract_required_subs(src, "mypkg"), vec!["a"]);
}

#[test]
fn check_incomplete_returns_none_when_all_subs_present_as_lua() {
    let subs = extract_required_subs(r#"local c = require("mypkg.check") return {}"#, "mypkg");
    assert_eq!(subs, vec!["check"]);
    assert!(check_incomplete("mypkg", &subs, &vec![true], false).is_none());
}

#[test]
fn check_incomplete_detects_missing_sub() {
    let src = r#"
local check = require("mypkg.check")
local t = require("mypkg.t")
return {}
"#;
    let subs = extract_required_subs(src, "mypkg");
    let outcome = check_incomplete("mypkg", &subs, &vec![true, false], false)
        .expect("should detect incomplete");
    match outcome {
        DoctorOutcome::IncompletePkg {
            missing_subs,
            suggestion,
        } => {
            assert_eq!(missing_subs, vec!["t"], "missing_subs: {missing_subs:?}");
            assert!(
                suggestion.contains("alc_pkg_install"),
                "non-symlink suggestion: {suggestion}"
            );
        }
        _ => panic!("expected IncompletePkg"),
    }
}

#[test]
fn check_incomplete_suggestion_uses_link_for_symlink() {
    let subs = extract_required_subs(r#"local x = require("mypkg.missing") return {}"#, "mypkg");
    let outcome =
        check_incomplete("mypkg", &subs, &vec![false], true).expect("should detect incomplete");
    match outcome {
        DoctorOutcome::IncompletePkg { suggestion, .. } => {
            assert!(
                suggestion.contains("alc_pkg_link"),
                "symlink suggestion: {suggestion}"
            );
            assert_eq!(suggestion, incomplete_pkg_suggestion("mypkg", true));
        }
        _ => panic!("expected IncompletePkg"),
    }
}

#[test]
fn check_incomplete_returns_none_when_no_init_lua() {
    assert!(check_incomplete("mypkg", &Vec::new(), &Vec::new(), false).is_none());
}

#[test]
fn classify_installed_incomplete_pkg() {
    let s = state(
        "mypkg",
        place(false, true, None),
        r#"local x = require("mypkg.sub") return {}"#,
        &[],
    );
    match classify_installed(&s) {
        DoctorOutcome::IncompletePkg {
            missing_subs,
            suggestion,
        } => {
            assert_eq!(missing_subs, vec!["sub"]);
            assert!(suggestion.contains("alc_pkg_install"), "{suggestion}");
        }
        outcome => panic!("expected IncompletePkg, got {outcome:?}"),
    }
}

#[test]
fn classify_installed_healthy_when_all_subs_present() {
    let s = state(
        "mypkg",
        place(false, true, None),
        r#"local x = require("mypkg.sub") return {}"#,
        &["sub"],
    );
    let outcome = classify_installed(&s);
    assert!(
        matches!(outcome, DoctorOutcome::Healthy),
        "expected Healthy, got {outcome:?}"
    );
}

#[test]
fn diagnose_puts_each_record_in_one_bucket() {
    let states = vec![
        state("a", place(false, true, None), "", &[]),
        state("b", place(false, false, None), "", &[]),
        state("c", place(true, false, Some("/gone")), "", &[]),
        state("d", place(false, true, None), "require('d.x')", &[]),
    ];
    let gone = vec![Finding {
        name: "e".to_string(),
        kind: "path_missing",
        scope: None,
        reason: "r".to_string(),
        suggestion: "s".to_string(),
    }];
    let v = value(&diagnose(&states, None, &Vec::new(), &gone).unwrap());
    assert_eq!(v["healthy"].as_array().unwrap().len(), 1);
    assert_eq!(v["healthy"][0]["name"], "a");
    assert_eq!(v["installed_missing"][0]["name"], "b");
    assert_eq!(v["installed_missing"][0]["kind"], "installed_missing");
    assert_eq!(v["symlink_dangling"][0]["name"], "c");
    assert_eq!(v["incomplete_pkg"][0]["name"], "d");
    assert_eq!(v["incomplete_pkg"][0]["missing_subs"][0], "x");
    assert_eq!(v["path_missing"][0]["name"], "e");
}

#[test]
fn diagnose_of_an_unknown_name_is_an_error() {
    let states = vec![state("a", place(false, true, None), "", &[])];
    let err = diagnose(&states, Some("zzz"), &Vec::new(), &Vec::new()).unwrap_err();
    assert!(err.contains("zzz"), "{err}");

    let v = value(&diagnose(&states, Some("a"), &Vec::new(), &Vec::new()).unwrap());
    assert_eq!(v["healthy"].as_array().unwrap().len(), 1);
}

#[test]
fn comments_and_texts_require_nothing() {
    for src in [
        "-- local x = require(\"mypkg.old\")",
        "--[[ require(\"mypkg.a\")\nrequire(\"mypkg.b\") ]]",
        "--[==[ ]] require(\"mypkg.a\") ]==]",
        "--- doc\n-- [[ require('mypkg.a')",
        "local s = \"require('mypkg.a')\"",
        "local s = 'a\\'require(\"mypkg.a\")'",
        "local s = [[ require(\"mypkg.a\") ]]",
        "local s = [=[ ]] require(\"mypkg.a\") ]=]",
        "--[[ never closed require(\"mypkg.a\")",
    ] {
        assert_eq!(extract_required_subs(src, "mypkg"), Vec::<String>::new(), "{src}");
    }
}

#[test]
fn only_calls_of_require_itself_count() {
    for src in [
        "local x = xrequire(\"mypkg.a\")",
        "local x = my_require(\"mypkg.a\")",
        "local x = requires(\"mypkg.a\")",
        "local x = M.require(\"mypkg.a\")",
        "local x = M : require(\"mypkg.a\")",
        "local x = require(\"mypkg.a\" .. name)",
        "local x = require(\"mypkg.a\\n\")",
        "local x = require \"mypkg.a\"",
    ] {
        assert_eq!(extract_required_subs(src, "mypkg"), Vec::<String>::new(), "{src}");
    }
}

#[test]
fn code_around_comments_and_texts_is_read() {
    let src = "--[[ x ]] local a = require('mypkg.a') -- require('mypkg.x')\n\
               local s = \"--\" local b = require ( \"mypkg.b\" )\n\
               t[1] = s..require('mypkg.c').name\n\
               return (require('mypkg.d'))";
    assert_eq!(extract_required_subs(src, "mypkg"), vec!["a", "b", "c", "d"]);
}
