use std::str::FromStr;

use algocline_app::manifest::Manifest;
use algocline_app::profile::{LinkStatus, ProfileLink, ProfilePackage};
use algocline_app::sections::{missing_sections, resolve_sections, PackSection};
use algocline_app::source::{refetch_source, InstallSource, PackageSource};
use algocline_app::unpack::{
    report_json, LinkStep, Origin, Refetch, UnpackMode, UnpackOptions, UnpackReport,
};

#[test]
fn only_git_and_bundled_urls_are_refetchable() {
    assert!(matches!(
        refetch_source(&PackageSource::Git {
            url: "https://example.invalid/r".to_string(),
            rev: None
        }),
        Some(InstallSource::GitUrl(_))
    ));
    assert!(matches!(
        refetch_source(&PackageSource::Bundled {
            collection: Some("https://example.invalid/c".to_string())
        }),
        Some(InstallSource::GitUrl(_))
    ));
    // Nothing to fetch from: these must travel as payload instead.
    assert!(refetch_source(&PackageSource::Bundled { collection: None }).is_none());
    assert!(refetch_source(&PackageSource::Installed).is_none());
    assert!(refetch_source(&PackageSource::Unknown).is_none());
    assert!(refetch_source(&PackageSource::Path {
        path: "/somewhere".to_string()
    })
    .is_none());
}

#[test]
fn mode_parse_rejects_unknown_values() {
    assert_eq!(UnpackMode::from_str("merge").unwrap(), UnpackMode::Merge);
    assert_eq!(UnpackMode::from_str("dry-run").unwrap(), UnpackMode::DryRun);
    assert_eq!(UnpackMode::from_str("dry_run").unwrap(), UnpackMode::DryRun);

    let err = UnpackMode::from_str("force").unwrap_err();
    assert!(err.contains("force"), "names the bad input: {err}");
    assert!(err.contains("overwrite"), "lists valid modes: {err}");
}

#[test]
fn default_options_merge() {
    let opts = UnpackOptions::default();
    assert_eq!(opts.mode, UnpackMode::Merge);
    assert!(opts.included.is_empty() && opts.excluded.is_empty());
}

fn link(name: &str, target: &str) -> ProfileLink {
    ProfileLink {
        name: name.to_string(),
        target: target.to_string(),
        status_at_pack: LinkStatus::Live,
    }
}

#[test]
fn missing_link_target_is_reported_not_fatal() {
    let mut report = UnpackReport::new();
    let live = link("live_link", "/here/live_pkg");
    let absent = link("absent_link", "/tmp/never/cloned");
    assert_eq!(
        report.decide_link(&live, UnpackMode::Merge, true, false),
        LinkStep::Create
    );
    assert_eq!(
        report.decide_link(&absent, UnpackMode::Merge, false, false),
        LinkStep::Unresolved
    );
    let sections = resolve_sections(false, &[], &[]).unwrap();
    let origin = Origin::Directory { path: "/in.alcpack".to_string() };
    let text = report_json(&origin, UnpackMode::Merge, &sections, &report).render();
    let v: serde_json::Value = serde_json::from_str(&text).unwrap();
    assert_eq!(v["status"], "partial");
    assert_eq!(v["restored"]["links"], 1, "the resolvable link is created");
    let unresolved = v["unresolved"].as_array().unwrap();
    assert_eq!(unresolved.len(), 1);
    assert_eq!(unresolved[0]["kind"], "link_target_missing");
    assert_eq!(unresolved[0]["name"], "absent_link");
    assert!(unresolved[0]["target"].as_str().unwrap().contains("never/cloned"));
    assert_eq!(v["source"]["kind"], "directory");
    assert_eq!(v["source"]["verified"], false);
    assert!(v["manifest"].is_null());
}

#[test]
fn archive_origin_reports_its_digest() {
    let sections = resolve_sections(false, &[], &["cards".to_string()]).unwrap();
    let report = UnpackReport::new();
    let origin = Origin::Archive { path: "/snap.tgz".to_string(), verified: Some("ab".to_string()) };
    let v: serde_json::Value =
        serde_json::from_str(&report_json(&origin, UnpackMode::DryRun, &sections, &report).render())
            .unwrap();
    assert_eq!(v["status"], "ok");
    assert_eq!(v["dry_run"], true);
    assert_eq!(v["source"]["kind"], "archive");
    assert_eq!(v["source"]["verified"], true);
    assert_eq!(v["source"]["sha256"], "ab");
    assert_eq!(v["sections"].as_array().unwrap().len(), 2);

    let origin = Origin::Archive { path: "/snap.tgz".to_string(), verified: None };
    let v: serde_json::Value =
        serde_json::from_str(&report_json(&origin, UnpackMode::Merge, &sections, &report).render())
            .unwrap();
    assert_eq!(v["source"]["verified"], false);
    assert!(v["source"]["sha256"].is_null());
}

#[test]
fn occupied_links_are_kept_or_replaced() {
    let l = link("l", "/t");
    let mut report = UnpackReport::new();
    assert_eq!(report.decide_link(&l, UnpackMode::Merge, true, true), LinkStep::Keep);
    assert_eq!(report.decide_link(&l, UnpackMode::DryRun, true, true), LinkStep::Keep);
    assert_eq!(report.decide_link(&l, UnpackMode::Overwrite, true, true), LinkStep::Replace);
    assert_eq!(report.decide_link(&l, UnpackMode::DryRun, true, false), LinkStep::Count);
    assert_eq!((report.links, report.kept_links), (2, 2));
}

#[test]
fn declared_packages_are_fetched_kept_or_reported() {
    let git = ProfilePackage {
        name: "p".to_string(),
        version: None,
        source: PackageSource::Git { url: "https://x/y".to_string(), rev: None },
    };
    let opaque = ProfilePackage {
        name: "q".to_string(),
        version: None,
        source: PackageSource::Installed,
    };
    let mut report = UnpackReport::new();
    assert!(report.decide_refetch(&git, UnpackMode::Merge, true).is_none());
    assert_eq!(report.kept_packages, 1);
    assert!(matches!(
        report.decide_refetch(&git, UnpackMode::Overwrite, true),
        Some(Refetch { source: InstallSource::GitUrl(u), replace: true }) if u == "https://x/y"
    ));
    let fresh = UnpackReport::new().decide_refetch(&git, UnpackMode::Overwrite, false).unwrap();
    assert!(!fresh.replace);
    report.fetched("p", Ok(()));
    assert!(report.decide_refetch(&git, UnpackMode::DryRun, false).is_none());
    assert_eq!(report.from_source, 2);
    assert!(report.decide_refetch(&opaque, UnpackMode::Merge, false).is_none());
    report.fetched("p", Err("unreachable".to_string()));
    assert_eq!(report.unresolved.len(), 2);
    assert_eq!(report.unresolved[0].kind, "source_not_refetchable");
    assert_eq!(report.unresolved[1].kind, "source_fetch_failed");
    assert_eq!(report.unresolved[1].detail.as_deref(), Some("unreachable"));
}

#[test]
fn core_files_follow_the_mode() {
    let mut report = UnpackReport::new();
    assert!(!report.decide_core_file(UnpackMode::Overwrite, None, true));
    assert!(report.decide_core_file(UnpackMode::Overwrite, Some(10), true));
    assert!(report.decide_core_file(UnpackMode::Merge, Some(10), false));
    assert!(!report.decide_core_file(UnpackMode::Merge, Some(10), true));
    assert_eq!((report.stats.files, report.stats.bytes, report.stats.kept), (0, 0, 1));
    assert!(!report.decide_core_file(UnpackMode::DryRun, Some(10), false));
    assert_eq!((report.stats.files, report.stats.bytes, report.stats.kept), (1, 10, 1));
    report.payload_package(true, UnpackMode::Merge);
    report.payload_package(false, UnpackMode::Merge);
    report.payload_package(true, UnpackMode::Overwrite);
    assert_eq!(report.from_payload, 2);
}

fn manifest(names: &[&str]) -> Manifest {
    let mut m = Manifest::default();
    for name in names {
        m.record_install(name, None, PackageSource::Installed);
    }
    m
}

fn grafted(mode: UnpackMode) -> (usize, usize, usize) {
    let mut report = UnpackReport::new();
    let mut local = manifest(&["here", "both"]);
    report.graft_manifest(&mut local, &manifest(&["both", "new"]), mode);
    let m = report.manifest.unwrap();
    (m.added.len(), m.updated.len(), m.kept.len())
}

#[test]
fn dry_run_counts_the_record_as_a_merge_does() {
    assert_eq!(grafted(UnpackMode::Merge), (1, 0, 1));
    assert_eq!(grafted(UnpackMode::DryRun), (1, 0, 1));
    assert_eq!(grafted(UnpackMode::Overwrite), (1, 1, 0));
}

#[test]
fn asked_sections_that_the_pack_lacks_are_reported() {
    let carried = [PackSection::Core, PackSection::Cards];
    let included = ["nn", "core", "cards", "logs", "nn", "state"].map(String::from).to_vec();
    let excluded = vec!["state".to_string()];
    let missing = missing_sections(&carried, &included, &excluded);
    assert_eq!(missing, vec![PackSection::Nn, PackSection::Logs]);
    assert!(missing_sections(&carried, &vec![], &vec![]).is_empty());

    let mut report = UnpackReport::new();
    report.note_missing_sections("/p/payload", &missing);
    let found: Vec<(&str, &str)> =
        report.skipped.iter().map(|s| (s.path.as_str(), s.reason.as_str())).collect();
    assert_eq!(
        found,
        vec![
            ("/p/payload/nn", "section 'nn' absent from the pack"),
            ("/p/payload/logs", "section 'logs' absent from the pack"),
        ]
    );
}
