use algocline_app::copy::{
    file_step, tally_walk, walk_step, CopyStats, FileStep, OverwritePolicy, SkipRecord, WalkAim,
    WalkFact, WalkKind, WalkStep,
};
use algocline_app::manifest::{Manifest, ManifestEntry};
use algocline_app::name_map::NameMap;
use algocline_app::pack::{
    begin_pack, classify_packages, note_absent_files, present_sections, profile_of, summary_json,
    CoreFile, PackOptions, PackageFact, SectionProbe, StatFact,
};
use algocline_app::profile::{
    payload_dir, profile_path, LinkStatus, PackMeta, PackProfile, PayloadReason,
};
use algocline_app::sections::{PackProfileError, PackSection, FORMAT_VERSION};
use algocline_app::source::PackageSource;

fn entry(source: PackageSource) -> ManifestEntry {
    ManifestEntry {
        version: Some("1.0.0".to_string()),
        source,
        installed_at: "2026-01-01T00:00:00Z".to_string(),
        updated_at: "2026-01-01T00:00:00Z".to_string(),
    }
}

fn fact(name: &str, stat: StatFact) -> PackageFact {
    PackageFact {
        name: name.to_string(),
        path: format!("/home/packages/{name}"),
        stat,
    }
}

/// One package of each classification, in no order.
fn facts() -> Vec<PackageFact> {
    vec![
        fact("unregistered", StatFact::Directory),
        fact("from_git", StatFact::Directory),
        fact(
            "live_link",
            StatFact::Link {
                target: Ok("/outside/linked_pkg".to_string()),
                alive: true,
            },
        ),
        fact("opaque", StatFact::Directory),
        fact(
            "dead_link",
            StatFact::Link {
                target: Ok("/gone".to_string()),
                alive: false,
            },
        ),
        fact("from_path", StatFact::Directory),
    ]
}

fn manifest() -> Manifest {
    let mut packages = NameMap::new();
    packages.insert(
        "from_git".to_string(),
        entry(PackageSource::Git {
            url: "https://example.invalid/repo".to_string(),
            rev: None,
        }),
    );
    packages.insert(
        "from_path".to_string(),
        entry(PackageSource::Path {
            path: "/somewhere/else".to_string(),
        }),
    );
    packages.insert("opaque".to_string(), entry(PackageSource::Installed));
    Manifest { packages }
}

#[test]
fn classification_splits_by_source_kind() {
    let c = classify_packages(facts(), &manifest(), &PackOptions::default()).unwrap();
    assert_eq!(
        c.declared.iter().map(|p| p.name.as_str()).collect::<Vec<_>>(),
        vec!["from_git"]
    );
    let payloads: Vec<_> = c.payloads.iter().map(|p| (p.name.as_str(), p.reason)).collect();
    assert_eq!(
        payloads,
        vec![
            ("from_path", PayloadReason::SourcePath),
            ("opaque", PayloadReason::Opaque),
            ("unregistered", PayloadReason::Unregistered),
        ]
    );
}

#[test]
fn dangling_links_are_recorded_not_dropped() {
    let c = classify_packages(facts(), &manifest(), &PackOptions::default()).unwrap();
    let statuses: Vec<_> = c
        .links
        .iter()
        .map(|l| (l.name.as_str(), l.status_at_pack))
        .collect();
    assert_eq!(
        statuses,
        vec![
            ("dead_link", LinkStatus::Dangling),
            ("live_link", LinkStatus::Live),
        ]
    );
}

#[test]
fn packages_exclude_drops_and_records() {
    let opts = PackOptions {
        packages_exclude: vec!["unregistered".to_string()],
        ..Default::default()
    };
    let c = classify_packages(facts(), &manifest(), &opts).unwrap();
    assert!(c.payloads.iter().all(|p| p.name != "unregistered"));
    assert_eq!(c.skipped.len(), 1);
    assert!(c.skipped[0].reason.contains("packages_exclude"));
}

#[test]
fn packages_only_narrows_every_class() {
    let opts = PackOptions {
        packages_only: vec!["from_git".to_string(), "live_link".to_string()],
        ..Default::default()
    };
    let c = classify_packages(facts(), &manifest(), &opts).unwrap();
    assert_eq!(c.declared.len(), 1);
    assert_eq!(c.payloads.len(), 0);
    assert_eq!(c.links.len(), 1);
}

#[test]
fn unreadable_links_fail_and_failed_stats_are_skipped() {
    let bad = vec![fact(
        "bad",
        StatFact::Link {
            target: Err("permission denied".to_string()),
            alive: false,
        },
    )];
    let err = classify_packages(bad, &manifest(), &PackOptions::default()).unwrap_err();
    assert!(err.contains("permission denied"), "{err}");

    let odd = vec![
        fact("x", StatFact::Failed("no access".to_string())),
        fact("readme", StatFact::Other),
    ];
    let c = classify_packages(odd, &manifest(), &PackOptions::default()).unwrap();
    assert_eq!(c.skipped.len(), 2);
    assert_eq!(c.skipped[0].reason, "not a directory or symlink");
    assert_eq!(c.skipped[1].reason, "cannot stat: no access");
    assert!(c.declared.is_empty() && c.payloads.is_empty() && c.links.is_empty());
}

fn probe(section: PackSection, filled: bool) -> SectionProbe {
    SectionProbe {
        section,
        path: format!("/home/{}", section.as_str()),
        filled,
    }
}

/// The answer of a pack of the fixture, in which `evals` has no directory.
fn packed(opts: &PackOptions) -> serde_json::Value {
    let chosen = begin_pack(opts, "/out.alcpack", false).unwrap();
    let probes: Vec<SectionProbe> = chosen
        .to_vec()
        .into_iter()
        .filter(|s| *s != PackSection::Core)
        .map(|s| probe(s, s != PackSection::Evals))
        .collect();
    let mut c = classify_packages(facts(), &manifest(), opts).unwrap();
    let present = present_sections(&probes, &mut c.skipped);
    let one = CopyStats {
        files: 1,
        bytes: 7,
        kept: 0,
    };
    let stats: Vec<(PackSection, CopyStats)> = present.iter().map(|s| (*s, one)).collect();
    serde_json::from_str(&summary_json("/out.alcpack", &present, &c, &stats).render()).unwrap()
}

#[test]
fn default_pack_carries_core_and_cards_but_not_logs() {
    let v = packed(&PackOptions::default());
    assert_eq!(v["packages"]["declared"], 1);
    assert_eq!(v["packages"]["linked"], 2);
    assert_eq!(v["links"]["dangling"], 1);
    let sections: Vec<&str> = v["sections"]
        .as_array()
        .unwrap()
        .iter()
        .map(|s| s.as_str().unwrap())
        .collect();
    assert_eq!(sections, vec!["core", "cards"]);
    assert_eq!(v["total_bytes"], 14);
}

#[test]
fn logs_travel_only_when_explicitly_included() {
    let opts = PackOptions {
        all: true,
        included: vec!["logs".to_string()],
        ..Default::default()
    };
    let chosen = begin_pack(&opts, "/with-logs.alcpack", false).unwrap();
    assert!(chosen.contains(&PackSection::Logs));
    let all = PackOptions {
        all: true,
        ..Default::default()
    };
    assert!(!begin_pack(&all, "/o", false).unwrap().contains(&PackSection::Logs));
}

#[test]
fn existing_destination_is_refused() {
    let err = begin_pack(&PackOptions::default(), "/taken.alcpack", true).unwrap_err();
    assert!(err.contains("/taken.alcpack"), "{err}");
}

#[test]
fn absent_section_is_reported_as_skipped() {
    let v = packed(&PackOptions::default());
    let skipped = v["skipped"].as_array().unwrap();
    assert!(
        skipped
            .iter()
            .any(|s| s["reason"].as_str().unwrap_or("").contains("evals")),
        "absent section is surfaced on the response: {skipped:?}"
    );
    let sections: Vec<&str> = v["sections"]
        .as_array()
        .unwrap()
        .iter()
        .map(|s| s.as_str().unwrap())
        .collect();
    assert!(!sections.contains(&"evals"));
}

#[test]
fn absent_core_files_are_noted() {
    let mut skipped: Vec<SkipRecord> = Vec::new();
    let files = vec![
        CoreFile {
            path: "/home/config.toml".to_string(),
            exists: true,
        },
        CoreFile {
            path: "/home/installed.json".to_string(),
            exists: false,
        },
    ];
    note_absent_files(&files, &mut skipped);
    assert_eq!(skipped.len(), 1);
    assert_eq!(skipped[0].path, "/home/installed.json");
}

fn file(path: &str, bytes: u64, dest_exists: bool) -> WalkFact {
    WalkFact {
        path: path.to_string(),
        kind: WalkKind::File { bytes, dest_exists },
    }
}

#[test]
fn keep_existing_leaves_destination_and_counts_it() {
    let mut skipped = Vec::new();
    let stats = tally_walk(
        WalkAim::Copy,
        OverwritePolicy::KeepExisting,
        &[file("a.txt", 8, true)],
        &mut skipped,
    );
    assert_eq!(stats.files, 0);
    assert_eq!(stats.kept, 1);
    assert!(
        skipped.is_empty(),
        "bulk 'already present' is a count, not a per-file record: {skipped:?}"
    );
    assert_eq!(file_step(OverwritePolicy::KeepExisting, true), FileStep::Keep);
    assert_eq!(file_step(OverwritePolicy::KeepExisting, false), FileStep::Copy);
}

#[test]
fn replace_overwrites_destination() {
    let mut skipped = Vec::new();
    let one = [file("a.txt", 8, true)];
    let stats = tally_walk(WalkAim::Copy, OverwritePolicy::Replace, &one, &mut skipped);
    assert_eq!(stats.files, 1);
    assert!(skipped.is_empty());
    assert_eq!(file_step(OverwritePolicy::Replace, true), FileStep::Copy);
}

#[test]
fn unreadable_entry_is_skipped_not_fatal() {
    let mut skipped = Vec::new();
    let facts = vec![
        file("good.txt", 2, false),
        WalkFact {
            path: "bad".to_string(),
            kind: WalkKind::Unreadable("No such file or directory".to_string()),
        },
    ];
    let stats = tally_walk(WalkAim::Copy, OverwritePolicy::Replace, &facts, &mut skipped);
    assert_eq!(stats.files, 1, "the readable file still travels");
    assert_eq!(skipped.len(), 1);
    assert!(skipped[0].reason.contains("unreadable"));
}

#[test]
fn measure_matches_copy_without_writing() {
    let facts = vec![file("a.txt", 5, false), file("nested/b.txt", 3, false)];
    let mut measured_skips = Vec::new();
    let measured = tally_walk(
        WalkAim::Measure,
        OverwritePolicy::Replace,
        &facts,
        &mut measured_skips,
    );
    let mut copied_skips = Vec::new();
    let copied = tally_walk(WalkAim::Copy, OverwritePolicy::Replace, &facts, &mut copied_skips);
    assert_eq!(measured, copied);
    assert_eq!(copied.bytes, 8);
    assert!(measured_skips.is_empty() && copied_skips.is_empty());
}

#[test]
fn measuring_writes_no_file() {
    for policy in [OverwritePolicy::Replace, OverwritePolicy::KeepExisting] {
        for there in [true, false] {
            assert_ne!(walk_step(WalkAim::Measure, policy, there), WalkStep::Copy);
        }
    }
    let keep = OverwritePolicy::KeepExisting;
    assert_eq!(walk_step(WalkAim::Copy, keep, false), WalkStep::Copy);
    assert_eq!(walk_step(WalkAim::Measure, keep, false), WalkStep::Count);
    assert_eq!(walk_step(WalkAim::Measure, keep, true), WalkStep::Keep);

    let facts = [file("a", 4, true), file("b", 6, false)];
    let measured = tally_walk(WalkAim::Measure, keep, &facts, &mut Vec::new());
    assert_eq!(measured, CopyStats { files: 1, bytes: 6, kept: 1 });
}

fn profile(format_version: u32) -> PackProfile {
    PackProfile {
        pack: PackMeta {
            format_version,
            created_at: "2026-08-13T09:12:44Z".to_string(),
            alc_version: "9.9.9".to_string(),
            sections: vec![PackSection::Core],
            app_dir: "/home/x/.algocline".to_string(),
        },
        packages: vec![],
        payloads: vec![],
        links: vec![],
    }
}

#[test]
fn future_format_version_is_refused() {
    let err = profile(FORMAT_VERSION + 1).checked("/pack/profile.toml").unwrap_err();
    assert!(matches!(
        err,
        PackProfileError::UnsupportedFormatVersion { .. }
    ));
    assert!(profile(FORMAT_VERSION).checked("/pack/profile.toml").is_ok());
}

#[test]
fn profile_and_payload_stand_in_the_pack() {
    assert_eq!(profile_path("/out.alcpack"), "/out.alcpack/profile.toml");
    assert_eq!(payload_dir("/out.alcpack"), "/out.alcpack/payload");
}

#[test]
fn profile_lists_what_was_classified() {
    let c = classify_packages(facts(), &manifest(), &PackOptions::default()).unwrap();
    let p = profile_of(
        "2026-08-13T09:12:44Z".to_string(),
        "0.46.1".to_string(),
        "/home".to_string(),
        vec![PackSection::Core],
        c,
    );
    assert_eq!(p.pack.format_version, FORMAT_VERSION);
    assert_eq!(p.packages.len(), 1);
    assert_eq!(p.payloads.len(), 3);
    assert_eq!(p.links.len(), 2);
    assert!(p.checked("x").is_ok());
}

#[test]
fn empty_sections_are_recorded_as_absent() {
    let mut skipped = Vec::new();
    let probes = vec![probe(PackSection::Cards, true), probe(PackSection::Nn, false)];
    let present = present_sections(&probes, &mut skipped);
    assert_eq!(present, vec![PackSection::Core, PackSection::Cards]);
    assert_eq!(skipped.len(), 1);
    assert_eq!(skipped[0].path, "/home/nn");
    assert_eq!(skipped[0].reason, "section 'nn' absent on source machine");
}
