use algocline_app::json::Json;
use algocline_app::pool::{
    ensure_answer, signal_target, split_targets, status_answer, PoolSessionEntry, SignalOutcome,
    StopReport,
};

fn value(j: &Json) -> serde_json::Value {
    serde_json::from_str(&j.render()).unwrap()
}

fn session(sid: &str, pid: u32) -> PoolSessionEntry {
    PoolSessionEntry {
        sid: sid.to_string(),
        pid,
        sock: "/tmp/alc-pool/zero.sock".to_string(),
        version: "0.30.0".to_string(),
        created_at: "2026-01-01T00:00:00Z".to_string(),
    }
}

#[test]
fn pool_stop_pid_zero_is_rejected() {
    let (targets, sessions) = split_targets(vec![session("zero-pid-session", 0)], None);
    let mut report = StopReport::new();
    for e in &targets {
        assert!(signal_target(e).is_err());
        report.record(e, &SignalOutcome::NotSent);
    }
    let result = value(&report.to_json());
    let errors = result["errors"].as_array().expect("errors array");
    assert!(
        !errors.is_empty(),
        "expected at least one error for pid=0 entry"
    );
    let err_msg = errors[0].as_str().unwrap_or("");
    assert!(
        err_msg.contains("not a valid POSIX target pid"),
        "unexpected error message: {err_msg}"
    );
    let stopped = result["stopped"].as_array().expect("stopped array");
    assert!(
        stopped.is_empty(),
        "pid=0 entry must not appear in stopped list"
    );
    assert!(
        sessions.is_empty(),
        "pid=0 entry must be removed from on-disk registry"
    );
}

#[test]
fn only_positive_pids_are_signalled() {
    assert_eq!(signal_target(&session("a", 1)), Ok(1));
    assert_eq!(signal_target(&session("a", 2147483647)), Ok(2147483647));
    assert_eq!(
        signal_target(&session("a", 2147483648)),
        Err("sid=a: pid=2147483648 exceeds i32::MAX, cannot send SIGTERM (K-52)".to_string())
    );
    assert_eq!(
        signal_target(&session("a", 0)),
        Err(
            "sid=a: pid=0 is not a valid POSIX target pid (must be > 0); skipping SIGTERM"
                .to_string()
        )
    );
}

#[test]
fn stopping_one_session_keeps_the_others() {
    let (targets, kept) = split_targets(
        vec![session("a", 10), session("b", 11), session("c", 12)],
        Some("b"),
    );
    assert_eq!(targets.len(), 1);
    assert_eq!(targets[0].sid, "b");
    let sids: Vec<&str> = kept.iter().map(|e| e.sid.as_str()).collect();
    assert_eq!(sids, ["a", "c"]);
}

#[test]
fn signals_are_reported() {
    let mut r = StopReport::new();
    r.record(&session("a", 10), &SignalOutcome::Sent);
    r.record(&session("b", 11), &SignalOutcome::NoSuchProcess);
    r.record(
        &session("c", 12),
        &SignalOutcome::Failed("Operation not permitted".to_string()),
    );
    r.record(&session("d", 13), &SignalOutcome::Unsupported);
    assert_eq!(r.stopped, ["a", "b"]);
    assert_eq!(
        r.errors,
        [
            "sid=c: SIGTERM failed: Operation not permitted",
            "sid=d: SIGTERM not supported on this platform",
        ]
    );
}

#[test]
fn answers_list_the_live_sessions() {
    let live = vec![session("a", 10), session("b", 11)];
    let v = value(&ensure_answer(&live, "1.2.3"));
    assert_eq!(v["pool_version"], "1.2.3");
    assert_eq!(v["sessions"].as_array().unwrap().len(), 2);
    assert!(v["sessions"][0].get("status").is_none());

    let v = value(&status_answer(&live, Some("b"), "1.2.3"));
    assert_eq!(v["sessions"].as_array().unwrap().len(), 1);
    assert_eq!(v["sessions"][0]["sid"], "b");
    assert_eq!(v["sessions"][0]["pid"], 11);
    assert_eq!(v["sessions"][0]["status"], "running");
    assert_eq!(v["sessions"][0]["created_at"], "2026-01-01T00:00:00Z");
    let v = value(&status_answer(&live, None, "1.2.3"));
    assert_eq!(v["sessions"].as_array().unwrap().len(), 2);
}
