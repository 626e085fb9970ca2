use algocline_app::search_path::{SearchPath, SearchPathSource};
use algocline_app::session::{session_id_of, AlcSession, SessionMode};

#[test]
fn mode_parse_accepts_default_and_test() {
    assert_eq!(SessionMode::parse(None).unwrap(), SessionMode::Default);
    assert_eq!(
        SessionMode::parse(Some("default")).unwrap(),
        SessionMode::Default
    );
    assert_eq!(SessionMode::parse(Some("test")).unwrap(), SessionMode::Test);
}

#[test]
fn mode_parse_rejects_unknown_with_typed_error() {
    let err = SessionMode::parse(Some("sandbox")).unwrap_err();
    assert!(err.contains("unknown mode 'sandbox'"));
    assert!(err.contains("\"default\""));
    assert!(err.contains("\"test\""));
}

#[test]
fn mode_as_str_round_trips_with_parse() {
    for mode in [SessionMode::Default, SessionMode::Test] {
        let parsed = SessionMode::parse(Some(mode.as_str())).unwrap();
        assert_eq!(parsed, mode);
    }
}

#[test]
fn session_id_has_alc_sess_prefix_and_grows_monotonically() {
    let s1 = AlcSession::new(None, SessionMode::Default);
    let s2 = AlcSession::new(None, SessionMode::Default);
    assert!(s1.session_id.starts_with("alc-sess-"));
    assert!(s2.session_id.starts_with("alc-sess-"));
    assert_ne!(s1.session_id, s2.session_id);
}

#[test]
fn session_id_spells_time_and_random_number() {
    assert_eq!(session_id_of(1700000000123, 0xBEEF), "alc-sess-1700000000123-0000beef");
    assert_eq!(session_id_of(0, u32::MAX), "alc-sess-0-ffffffff");
}

#[test]
fn session_records_project_root_and_mode() {
    let pr = std::path::PathBuf::from("/tmp/example");
    let s = AlcSession::new(Some(pr.clone()), SessionMode::Test);
    assert_eq!(s.project_root.as_deref(), Some(pr.as_path()));
    assert_eq!(s.mode, SessionMode::Test);
}

#[test]
fn search_paths_record_their_origin() {
    let p = std::path::PathBuf::from("/tmp/pkgs");
    let e = SearchPath::env(p.clone());
    assert_eq!(e.path, p);
    assert_eq!(e.source, SearchPathSource::Env);
    assert_eq!(e.source.label(), "ALC_PACKAGES_PATH");
    let d = SearchPath::default_global(p.clone());
    assert_eq!(d.source, SearchPathSource::Default);
    assert_eq!(d.source.label(), "default");
}
