use algocline_app::json::Json;
use algocline_app::logs::{
    count_kept, info, list_sessions, log_not_found, log_read, log_view, note_added,
    require_log_dir, rounds_of, select_logs, shorten, summary_name, LogFile, LogRequest,
    LogSettings, SessionText, DEFAULT_LOG_LIMIT, DEFAULT_MAX_CHARS,
};
use algocline_app::stats::{
    cutoff_ms, empty_report, figures_of_log, figures_of_summary, stats, summary_beside, StatsFile,
};

fn value(j: &Json) -> serde_json::Value {
    serde_json::from_str(&j.render()).unwrap()
}

/// A log of `n` rounds of ten characters each.
fn log_of(n: usize) -> String {
    let rounds: Vec<String> = (0..n).map(|i| format!("\"round{i:05}\"")).collect();
    format!("{{\"session_id\":\"s\",\"transcript\":[{}]}}", rounds.join(","))
}

#[test]
fn short_logs_are_shown_as_they_are() {
    let raw = log_of(3);
    assert_eq!(log_read(&raw, raw.len()).unwrap(), raw);
    assert_eq!(log_read(&raw, 0).unwrap(), raw);
    // The limit counts bytes.
    assert!(log_read("\u{e9}\u{e9}", 3).is_err());
    assert_eq!(log_read("\u{e9}\u{e9}", 4).unwrap(), "\u{e9}\u{e9}");
}

#[test]
fn long_logs_keep_their_newest_rounds() {
    let raw = log_of(8);
    let shown = log_read(&raw, raw.len() - 1).unwrap();
    let v: serde_json::Value = serde_json::from_str(&shown).unwrap();
    assert_eq!(v["truncated"], true);
    assert_eq!(v["original_rounds"], 8);
    assert_eq!(v["returned_rounds"], 7);
    assert_eq!(v["transcript"].as_array().unwrap().len(), 7);
    assert_eq!(v["transcript"][6], "round00007");
    assert_eq!(v["transcript"][0], "round00001");
    assert_eq!(v["session_id"], "s");
    // The shortened log is set over several lines.
    assert!(shown.contains('\n'));
}

#[test]
fn as_many_rounds_are_kept_as_fit() {
    let raw = log_of(20);
    let v: serde_json::Value =
        serde_json::from_str(&log_read(&raw, raw.len() - 1).unwrap()).unwrap();
    assert_eq!(v["returned_rounds"], 19);
    // A round takes thirteen bytes with its comma.
    let v: serde_json::Value =
        serde_json::from_str(&log_read(&raw, raw.len() - 5 * 13).unwrap()).unwrap();
    assert_eq!(v["returned_rounds"], 15);
    let v: serde_json::Value = serde_json::from_str(&log_read(&raw, 1).unwrap()).unwrap();
    assert_eq!(v["returned_rounds"], 0);
    assert_eq!(v["original_rounds"], 20);
}

#[test]
fn logs_without_rounds_are_not_shortened() {
    let raw = r#"{"session_id":"s","notes":"a long text without any rounds"}"#;
    assert_eq!(log_read(raw, 5).unwrap(), raw);
    let err = log_read("not json at all", 5).unwrap_err();
    assert!(err.starts_with("Failed to parse log: "), "{err}");
}

#[test]
fn kept_rounds_fit_and_are_marked() {
    let doc = Json::parse(&log_of(5)).unwrap();
    let rounds = rounds_of(&doc);
    assert_eq!(rounds.len(), 5);
    let kept = count_kept(&doc, &rounds, 72);
    assert_eq!(kept, 3);
    let v = value(&shorten(doc, &rounds, kept));
    assert_eq!(v["returned_rounds"], 3);
    assert_eq!(v["transcript"][2], "round00004");
}

fn file(name: &str, modified: i128) -> LogFile {
    LogFile {
        name: name.to_string(),
        modified,
    }
}

#[test]
fn newest_logs_come_first() {
    let files = vec![
        file("a.json", 1),
        file("b.json", 3),
        file("b.meta.json", 9),
        file("c.json", 2),
        file("notes.txt", 8),
    ];
    let names: Vec<String> = select_logs(files, 2).into_iter().map(|f| f.name).collect();
    assert_eq!(names, ["b.json", "c.json"]);
    assert_eq!(summary_name("b.json"), "b.meta.json");
}

#[test]
fn sessions_are_listed_from_summaries_or_logs() {
    let found = vec![
        SessionText::Summary(Some(r#"{"session_id":"a","anything":1}"#.to_string())),
        SessionText::Log(Some(
            r#"{"session_id":"b","task_hint":"t","stats":{"elapsed_ms":5,"rounds":2},"notes":[1,2]}"#
                .to_string(),
        )),
        SessionText::Log(Some("{}".to_string())),
        SessionText::Log(None),
        SessionText::Summary(Some("broken".to_string())),
    ];
    let v = value(&list_sessions(&found));
    let sessions = v["sessions"].as_array().unwrap();
    assert_eq!(sessions.len(), 3);
    assert_eq!(sessions[0]["anything"], 1);
    assert_eq!(sessions[1]["session_id"], "b");
    assert_eq!(sessions[1]["task_hint"], "t");
    assert_eq!(sessions[1]["elapsed_ms"], 5);
    assert_eq!(sessions[1]["rounds"], 2);
    assert!(sessions[1]["llm_calls"].is_null());
    assert_eq!(sessions[1]["notes_count"], 2);
    assert_eq!(sessions[2]["session_id"], "unknown");
    assert!(sessions[2]["task_hint"].is_null());
    assert_eq!(sessions[2]["notes_count"], 0);
}

#[test]
fn requests_have_defaults() {
    assert!(matches!(
        log_view(Some("s"), None, None),
        LogRequest::Read { session_id, max_chars } if session_id == "s" && max_chars == DEFAULT_MAX_CHARS
    ));
    assert!(matches!(
        log_view(None, None, None),
        LogRequest::List { limit } if limit == DEFAULT_LOG_LIMIT
    ));
    assert_eq!(DEFAULT_MAX_CHARS, 100_000);
    assert_eq!(DEFAULT_LOG_LIMIT, 50);
    assert!(require_log_dir(None).is_err());
    assert_eq!(require_log_dir(Some("/logs")).unwrap(), "/logs");
    assert_eq!(log_not_found("s"), "Log file not found for session 's'");
    assert_eq!(
        note_added("s", 3).render(),
        r#"{"notes_count":3,"session_id":"s"}"#
    );
}

#[test]
fn info_tells_the_configuration() {
    let settings = LogSettings {
        version: "1.0".to_string(),
        preset_catalog_version: "7".to_string(),
        log_dir: None,
        log_dir_source: "default".to_string(),
        log_enabled: true,
    };
    let paths = vec![("/pkgs".to_string(), "env".to_string())];
    let v = value(&info(&settings, &paths, Some("/home/packages")));
    assert_eq!(v["version"], "1.0");
    assert!(v["log_dir"]["resolved"].is_null());
    assert_eq!(v["tracing"], "stderr only");
    assert_eq!(v["search_paths"][0]["source"], "env");
    assert_eq!(v["packages_dir"], "/home/packages");
    assert!(value(&info(&settings, &paths, None)).get("packages_dir").is_none());
}

fn stats_file(name: &str, text: &str, has_summary: bool, modified_ms: u64) -> StatsFile {
    StatsFile {
        name: name.to_string(),
        text: Some(text.to_string()),
        has_summary,
        modified_ms,
    }
}

fn sample() -> Vec<StatsFile> {
    vec![
        stats_file(
            "a.meta.json",
            r#"{"strategy":"ucb","elapsed_ms":10,"llm_calls":3,"rounds":1,"total_prompt_chars":100,"total_response_chars":50,"prompt_tokens":{"tokens":7},"response_tokens":{"tokens":5}}"#,
            false,
            1_000,
        ),
        stats_file("a.json", r#"{"strategy":"ucb","stats":{"elapsed_ms":999}}"#, true, 1_000),
        stats_file(
            "b.json",
            r#"{"strategy":"ucb","stats":{"elapsed_ms":15,"llm_calls":2,"rounds":2}}"#,
            false,
            2_000,
        ),
        stats_file("c.meta.json", "{}", false, 3_000),
        stats_file("d.meta.json", "broken", false, 3_000),
        stats_file("readme.txt", "{}", false, 3_000),
    ]
}

#[test]
fn stats_sum_over_strategies() {
    let r = stats(&sample(), None, None).unwrap();
    assert_eq!(r.total, 3);
    let v = value(&r.to_json(Json::array(Vec::new())));
    assert_eq!(v["total_sessions"], 3);
    let ucb = &v["strategies"]["ucb"];
    assert_eq!(ucb["count"], 2);
    assert_eq!(ucb["avg_elapsed_ms"], 13); // (25 + 1) / 2
    assert_eq!(ucb["avg_llm_calls"], 3); // (5 + 1) / 2
    assert_eq!(ucb["avg_rounds"], 2); // (3 + 1) / 2
    assert_eq!(ucb["total_prompt_chars"], 100);
    assert_eq!(ucb["total_prompt_tokens"], 7);
    assert_eq!(ucb["total_response_tokens"], 5);
    assert_eq!(ucb["total_tokens"], 12);
    assert_eq!(v["strategies"]["unknown"]["count"], 1);
    assert!(v["card_sinks"].is_array());
}

#[test]
fn stats_filters_are_exact() {
    let r = stats(&sample(), Some("uc"), None).unwrap();
    assert_eq!(r.total, 0);
    let r = stats(&sample(), Some("ucb"), Some(1_500)).unwrap();
    assert_eq!(r.total, 1);
    let r = stats(&sample(), None, Some(3_001)).unwrap();
    assert_eq!(r.total, 0);
    assert_eq!(cutoff_ms(100_000_000_000, 2), 100_000_000_000 - 2 * 86_400_000);
    // Days that reach back before the epoch leave nothing out.
    assert_eq!(cutoff_ms(2 * 86_400_000, 2), 0);
    assert_eq!(cutoff_ms(100_000_000_000, 30_000), 0);
    assert_eq!(cutoff_ms(100_000_000_000, u64::MAX), 0);
}

#[test]
fn stats_that_do_not_fit_are_refused() {
    let big = r#"{"strategy":"x","elapsed_ms":18446744073709551615}"#;
    let files = vec![
        stats_file("a.meta.json", big, false, 0),
        stats_file("b.meta.json", big, false, 0),
    ];
    assert!(stats(&files, None, None).is_none());
    assert!(stats(&files, Some("y"), None).is_some());
}

#[test]
fn figures_are_read_from_summary_or_log() {
    let s = figures_of_summary(&Json::parse(r#"{"elapsed_ms":4,"rounds":-1}"#).unwrap());
    assert_eq!(s.strategy, "unknown");
    assert_eq!(s.elapsed_ms, 4);
    assert_eq!(s.rounds, 0);
    let l = figures_of_log(&Json::parse(r#"{"strategy":"s","stats":{"rounds":6}}"#).unwrap());
    assert_eq!(l.strategy, "s");
    assert_eq!(l.rounds, 6);
    assert_eq!(l.prompt_tokens, 0);
    assert_eq!(summary_beside("a.json"), "a.meta.json");
    assert_eq!(
        empty_report(Json::Null).render(),
        r#"{"card_sinks":null,"strategies":{},"total_sessions":0}"#
    );
}
