use algocline_app::json::Json;
use algocline_app::reply::{
    check_installed, check_runnable, finish_pool_reply, finish_reply, last_reply, make_context,
    make_type_code, normalize_stringified_json_object, resolve_code, route_response,
    saves_evaluation, splice_response_string, splice_response_warnings, splice_save_warning,
    splice_transcript_warning, transcript_warning, type_of_answer, CodeSource, PkgType, Route,
    TypeSource,
};

fn json(text: &str) -> Json {
    Json::parse(text).unwrap()
}

fn value(text: &str) -> serde_json::Value {
    serde_json::from_str(text).expect("valid JSON")
}

#[test]
fn splice_transcript_warning_injects_field_when_some() {
    let json = r#"{"status":"finished","result":{}}"#;
    let out = splice_transcript_warning(json, Some("write failed".to_string()));
    let v = value(&out);
    assert_eq!(
        v["transcript_warning"].as_str(),
        Some("write failed"),
        "transcript_warning field should be present"
    );
    assert_eq!(v["status"].as_str(), Some("finished"));
}

#[test]
fn splice_transcript_warning_passthrough_when_none() {
    let json = r#"{"status":"finished"}"#;
    let out = splice_transcript_warning(json, None);
    let v = value(&out);
    assert!(
        v.get("transcript_warning").is_none(),
        "transcript_warning must be absent when warning is None"
    );
}

#[test]
fn splice_response_string_injects_cache_reload_warning() {
    let json = r#"{"status":"finished","result":{"ok":true}}"#;
    let msg = "failed to reload pool registry: No such file or directory";
    let out = splice_response_string(json, "pool_cache_reload_warning", msg);
    let v = value(&out);
    assert_eq!(
        v["pool_cache_reload_warning"].as_str(),
        Some(msg),
        "pool_cache_reload_warning must be present in response"
    );
    assert_eq!(v["status"].as_str(), Some("finished"));
}

#[test]
fn splice_response_string_passthrough_on_non_object_json() {
    let non_object = r#""just a string""#;
    let out = splice_response_string(non_object, "pool_cache_reload_warning", "err");
    assert_eq!(out, non_object);
}

#[test]
fn splice_response_string_not_called_when_none() {
    let json = r#"{"status":"finished"}"#;
    let out = finish_pool_reply(json, &Vec::new(), None, None);
    let v = value(&out);
    assert!(
        v.get("pool_cache_reload_warning").is_none(),
        "pool_cache_reload_warning must be absent when no cache-reload error occurred"
    );
    assert_eq!(out, json);
}

#[test]
fn splicing_leaves_text_that_is_not_json() {
    assert_eq!(splice_response_string("{ not json", "w", "m"), "{ not json");
    assert_eq!(splice_response_string("[1,2]", "w", "m"), "[1,2]");
    assert_eq!(splice_save_warning("{ not json", Some("m".to_string())), "{ not json");
}

#[test]
fn splicing_replaces_a_member_of_that_name() {
    let out = splice_response_string(r#"{"a":1,"w":"old"}"#, "w", "new");
    assert_eq!(out, r#"{"a":1,"w":"new"}"#);
}

#[test]
fn warnings_are_spliced_as_a_list_and_only_where_there_are_some() {
    let json = r#"{"status":"finished"}"#;
    assert_eq!(splice_response_warnings(json, "warnings", &Vec::new()), json);
    let out = splice_response_warnings(json, "warnings", &vec!["a".to_string(), "b".to_string()]);
    let v = value(&out);
    assert_eq!(v["warnings"][0], "a");
    assert_eq!(v["warnings"][1], "b");
}

#[test]
fn replies_carry_both_warnings() {
    let out = finish_reply(
        r#"{"status":"finished"}"#,
        Some("t".to_string()),
        Some("s".to_string()),
    );
    let v = value(&out);
    assert_eq!(v["transcript_warning"], "t");
    assert_eq!(v["save_warning"], "s");

    let out = finish_pool_reply(
        r#"{"status":"finished"}"#,
        &vec!["w".to_string()],
        Some("e".to_string()),
        Some("r".to_string()),
    );
    let v = value(&out);
    assert_eq!(v["pool_save_error"], "e");
    assert_eq!(v["pool_cache_reload_warning"], "r");
    assert_eq!(v["status"], "finished");
}

#[test]
fn stringified_objects_are_opened_once() {
    let r = normalize_stringified_json_object(Json::text(r#"{"a":1}"#));
    assert_eq!(r.render(), r#"{"a":1}"#);
    let r = normalize_stringified_json_object(json(r#"{"a":1}"#));
    assert_eq!(r.render(), r#"{"a":1}"#);
    let r = normalize_stringified_json_object(Json::text("[1]"));
    assert_eq!(r.render(), "[1]");
    // A text that spells anything else stays a text.
    let r = normalize_stringified_json_object(Json::text("7"));
    assert_eq!(r.render(), r#""7""#);
    let r = normalize_stringified_json_object(Json::text("plain"));
    assert_eq!(r.render(), r#""plain""#);
}

#[test]
fn context_holds_the_task() {
    assert_eq!(make_context(None, None).render(), "{}");
    assert_eq!(make_context(None, Some("t")).render(), r#"{"task":"t"}"#);
    assert_eq!(
        make_context(Some(json(r#"{"depth":2,"task":"x"}"#)), Some("t")).render(),
        r#"{"depth":2,"task":"t"}"#
    );
}

#[test]
fn code_is_given_inline_or_as_a_file() {
    assert!(matches!(
        resolve_code(Some("return 1".to_string()), None),
        Ok(CodeSource::Inline(c)) if c == "return 1"
    ));
    assert!(matches!(
        resolve_code(None, Some("/x.lua".to_string())),
        Ok(CodeSource::File(p)) if p == "/x.lua"
    ));
    let both = resolve_code(Some("a".to_string()), Some("b".to_string())).unwrap_err();
    let none = resolve_code(None, None).unwrap_err();
    assert!(both.contains("code_file"), "{both}");
    assert!(none.contains("code_file"), "{none}");
    assert_ne!(both, none);
}

#[test]
fn package_type_is_read_with_its_source() {
    assert_eq!(
        type_of_answer(&json(r#"{"type":"library","type_source":"explicit"}"#)),
        Some((PkgType::Library, TypeSource::Explicit))
    );
    assert_eq!(
        type_of_answer(&json(r#"{"type":"runnable","type_source":"auto_detected_runnable"}"#)),
        Some((PkgType::Runnable, TypeSource::AutoDetectedRunnable))
    );
    assert_eq!(
        type_of_answer(&json(r#"{"type":"library","type_source":"auto_detected_library"}"#)),
        Some((PkgType::Library, TypeSource::AutoDetectedLibrary))
    );
    assert_eq!(type_of_answer(&json(r#"{"type":"other","type_source":"explicit"}"#)), None);
    assert_eq!(type_of_answer(&json("null")), None);
}

#[test]
fn only_libraries_are_refused_a_run() {
    assert!(check_runnable("p", None).is_ok());
    assert!(check_runnable("p", Some((PkgType::Runnable, TypeSource::Explicit))).is_ok());
    let err = check_runnable("p", Some((PkgType::Library, TypeSource::Explicit))).unwrap_err();
    assert!(err.contains("p"), "{err}");
    assert!(check_installed("p", true).is_ok());
    let err = check_installed("pkg_x", false).unwrap_err();
    assert!(err.contains("pkg_x"), "{err}");
}

#[test]
fn type_code_names_the_package() {
    let code = make_type_code("my_pkg", "-- detect");
    assert!(code.contains("my_pkg"), "{code}");
    assert!(code.contains("-- detect"), "{code}");
}

#[test]
fn responses_are_routed_by_where_the_session_is_known() {
    assert_eq!(route_response(true, Ok(false)), Ok(Route::Pool));
    assert_eq!(route_response(false, Ok(true)), Ok(Route::PoolAfterReload));
    assert_eq!(route_response(false, Ok(false)), Ok(Route::InProcess));
    assert!(route_response(false, Err("corrupted".to_string()))
        .unwrap_err()
        .contains("corrupted"));
}

#[test]
fn a_batch_answers_with_its_last_reply() {
    assert_eq!(
        last_reply(vec!["a".to_string(), "b".to_string()]),
        Ok("b".to_string())
    );
    assert!(last_reply(Vec::new()).is_err());
}

#[test]
fn transcript_is_written_only_for_finished_sessions() {
    assert_eq!(
        transcript_warning(false, "s", Ok(()), Err("disk full".to_string())),
        None
    );
    assert_eq!(
        transcript_warning(true, "s", Ok(()), Err("disk full".to_string())).as_deref(),
        Some("disk full")
    );
    assert_eq!(
        transcript_warning(true, "s", Ok(()), Ok(Some("no meta".to_string()))).as_deref(),
        Some("no meta")
    );
    assert_eq!(
        transcript_warning(true, "s", Err("poisoned".to_string()), Ok(None)).as_deref(),
        Some("session_strategies mutex poisoned for 's': poisoned")
    );
    assert_eq!(transcript_warning(true, "s", Ok(()), Ok(None)), None);
    assert!(saves_evaluation(true, true));
    assert!(!saves_evaluation(true, false));
    assert!(!saves_evaluation(false, true));
}
