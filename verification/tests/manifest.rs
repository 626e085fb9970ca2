use algocline_app::calendar::{days_to_ymd, format_iso8601, now_iso8601};
use algocline_app::manifest::{InMemoryManifestRepo, Manifest, ManifestEntry};
use algocline_app::source::{infer_from_legacy_source_string, PackageSource};

fn git_src() -> PackageSource {
    PackageSource::Git {
        url: "https://example.test/mock".to_string(),
        rev: None,
    }
}

fn entry(version: &str) -> ManifestEntry {
    ManifestEntry {
        version: Some(version.to_string()),
        source: PackageSource::Installed,
        installed_at: "2026-01-01T00:00:00Z".to_string(),
        updated_at: "2026-01-01T00:00:00Z".to_string(),
    }
}

#[test]
fn in_memory_manifest_repo_roundtrip() {
    let mut repo = InMemoryManifestRepo::default();

    repo.record_install("alpha", Some("1.0.0"), git_src()).unwrap();
    repo.record_install("alpha", None, git_src()).unwrap();
    repo.record_install_batch(&["beta".to_string(), "gamma".to_string()], git_src())
        .unwrap();
    repo.record_remove("beta").unwrap();

    let loaded = repo.load().unwrap();
    assert_eq!(
        loaded.packages.get("alpha").unwrap().version.as_deref(),
        Some("1.0.0"),
        "version=None should preserve existing entry"
    );
    assert!(loaded.packages.contains("gamma"));
    assert!(!loaded.packages.contains("beta"));
}

#[test]
fn record_install_none_preserves_existing_version() {
    let mut m = Manifest::default();
    m.record_install("cot", Some("0.1.0"), git_src());
    assert_eq!(m.packages.get("cot").unwrap().version.as_deref(), Some("0.1.0"));
    m.record_install("cot", None, git_src());
    assert_eq!(
        m.packages.get("cot").unwrap().version.as_deref(),
        Some("0.1.0"),
        "version=None must preserve existing version"
    );
    m.record_install("cot", Some("0.2.0"), git_src());
    assert_eq!(
        m.packages.get("cot").unwrap().version.as_deref(),
        Some("0.2.0"),
        "version=Some(_) must overwrite"
    );
}

#[test]
fn first_install_time_survives_an_update() {
    let mut m = Manifest::default();
    m.install_at("cot", None, git_src(), "2024-01-01T00:00:00Z");
    m.install_at("cot", None, PackageSource::Installed, "2025-01-01T00:00:00Z");
    let e = m.packages.get("cot").unwrap();
    assert_eq!(e.installed_at, "2024-01-01T00:00:00Z");
    assert_eq!(e.updated_at, "2025-01-01T00:00:00Z");
    assert!(matches!(e.source, PackageSource::Installed));
}

#[test]
fn batch_records_every_name_and_no_other() {
    let mut m = Manifest::default();
    m.install_at("other", Some("9"), git_src(), "t0");
    m.install_batch_at(&["b".to_string(), "a".to_string()], &PackageSource::Installed, "t1");
    assert_eq!(m.packages.len(), 3);
    assert_eq!(m.packages.at(0).0, "a");
    assert_eq!(m.packages.at(1).0, "b");
    assert_eq!(m.packages.at(2).0, "other");
    assert_eq!(m.packages.get("other").unwrap().updated_at, "t0");
    m.install_batch_at(&[], &PackageSource::Installed, "t2");
    assert_eq!(m.packages.get("a").unwrap().updated_at, "t1");
}

#[test]
fn merge_grafts_entry_by_entry() {
    let mut local = Manifest::default();
    local.packages.insert("local_only".to_string(), entry("1.0.0"));
    local.packages.insert("both".to_string(), entry("1.0.0"));
    let mut incoming = Manifest::default();
    incoming.packages.insert("both".to_string(), entry("2.0.0"));
    incoming.packages.insert("packed_pkg".to_string(), entry("2.0.0"));

    let kept = local.merge(&incoming, false);
    assert_eq!(kept.added, vec!["packed_pkg".to_string()]);
    assert_eq!(kept.kept, vec!["both".to_string()]);
    assert!(kept.updated.is_empty());
    assert_eq!(local.packages.get("both").unwrap().version.as_deref(), Some("1.0.0"));
    assert!(local.packages.contains("local_only"));

    let over = local.merge(&incoming, true);
    assert_eq!(over.updated, vec!["both".to_string(), "packed_pkg".to_string()]);
    assert!(over.added.is_empty() && over.kept.is_empty());
    assert_eq!(local.packages.get("both").unwrap().version.as_deref(), Some("2.0.0"));
    assert!(local.packages.contains("local_only"));
}

#[test]
fn days_to_ymd_epoch() {
    assert_eq!(days_to_ymd(0), (1970, 1, 1));
}

#[test]
fn days_to_ymd_known_date() {
    // 2024-01-01 = day 19723
    assert_eq!(days_to_ymd(19723), (2024, 1, 1));
}

#[test]
fn days_to_ymd_leap_days_and_the_day_before_the_epoch() {
    assert_eq!(days_to_ymd(-1), (1969, 12, 31));
    assert_eq!(days_to_ymd(11016), (2000, 2, 29));
    assert_eq!(days_to_ymd(19782), (2024, 2, 29));
    assert_eq!(days_to_ymd(-719468), (0, 3, 1));
}

#[test]
fn timestamps_are_spelled_in_full() {
    assert_eq!(format_iso8601(0), "1970-01-01T00:00:00Z");
    assert_eq!(format_iso8601(1704067199), "2023-12-31T23:59:59Z");
    let now = now_iso8601();
    assert_eq!(now.len(), 20);
    assert!(now.as_str() > "2024-01-01T00:00:00Z");
}

#[test]
fn manifest_backward_compat_legacy_string_sources() {
    assert!(matches!(
        infer_from_legacy_source_string("https://github.com/ynishi/algocline-bundled-packages"),
        PackageSource::Git { url, rev: None }
            if url == "https://github.com/ynishi/algocline-bundled-packages"
    ));
    assert!(matches!(
        infer_from_legacy_source_string("bundled"),
        PackageSource::Bundled { collection: None }
    ));
    assert!(matches!(
        infer_from_legacy_source_string("/abs/local/pkg"),
        PackageSource::Installed
    ));
    assert!(matches!(
        infer_from_legacy_source_string(""),
        PackageSource::Unknown
    ));
}
