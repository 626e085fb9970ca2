use algocline_app::archive::{
    checksum_path, digest_of, expanded_root, expected_digest, is_archive_path, sidecar_line,
    verify_archive, with_archive_extension, ArchiveError, Expanded,
};

#[test]
fn archive_extension_is_added_only_when_missing() {
    assert_eq!(with_archive_extension("/tmp/x"), "/tmp/x.tgz");
    assert_eq!(with_archive_extension("/tmp/x.tgz"), "/tmp/x.tgz");
    assert_eq!(with_archive_extension("/tmp/x.tar.gz"), "/tmp/x.tar.gz");
}

#[test]
fn directory_paths_are_not_mistaken_for_archives() {
    assert!(!is_archive_path("/tmp/snap"));
    assert!(is_archive_path("/tmp/snap.tgz"));
    assert!(is_archive_path("/tmp/snap.TAR.GZ"));
}

#[test]
fn archive_names_are_taken_from_the_last_component() {
    assert!(!is_archive_path("/tmp/snap.tgz/inner"));
    assert!(is_archive_path("/tmp/snap.tgz/"));
    assert!(!is_archive_path("/"));
    assert!(!is_archive_path(".."));
    assert_eq!(with_archive_extension("/tmp/"), "/tmp/.tgz");
}

#[test]
fn digest_is_sha256_in_lower_case() {
    assert_eq!(
        digest_of(b"abc"),
        "ba7816bf8f01cfea414140de5dae2223b00361a396177a9cb410ff61f20015ad"
    );
    assert_eq!(
        digest_of(b""),
        "e3b0c44298fc1c149afbf4c8996fb92427ae41e4649b934ca495991b7852b855"
    );
}

#[test]
fn verify_accepts_an_untouched_archive() {
    let data = b"frozen bytes";
    let digest = digest_of(data);
    assert_eq!(digest.len(), 64);
    let line = sidecar_line(&digest, "/tmp/snap.tgz");
    assert_eq!(
        verify_archive(Some(&line), data, "/tmp/snap.tgz").unwrap(),
        Some(digest)
    );
}

#[test]
fn verify_refuses_an_edited_archive() {
    let mut data = b"frozen bytes".to_vec();
    let line = sidecar_line(&digest_of(&data), "/tmp/snap.tgz");
    let last = data.len() - 1;
    data[last] ^= 0xff;
    let err = verify_archive(Some(&line), &data, "/tmp/snap.tgz").unwrap_err();
    assert!(matches!(err, ArchiveError::ChecksumMismatch { .. }), "{err:?}");
    assert!(err.message().contains("changed after it was packed"));
}

#[test]
fn verify_refuses_a_truncated_archive() {
    let data = b"frozen bytes";
    let line = sidecar_line(&digest_of(data), "/tmp/snap.tgz");
    assert!(matches!(
        verify_archive(Some(&line), &data[..data.len() / 2], "/tmp/snap.tgz").unwrap_err(),
        ArchiveError::ChecksumMismatch { .. }
    ));
}

#[test]
fn verify_reports_absence_rather_than_passing() {
    assert_eq!(
        verify_archive(None, b"frozen bytes", "/tmp/snap.tgz").unwrap(),
        None,
        "a missing sidecar is 'unverified', not 'verified ok'"
    );
}

#[test]
fn malformed_checksum_is_rejected() {
    let err = verify_archive(Some("not-a-digest\n"), b"x", "/tmp/snap.tgz").unwrap_err();
    match &err {
        ArchiveError::MalformedChecksum { path, found } => {
            assert_eq!(path, "/tmp/snap.tgz.sha256");
            assert_eq!(found, "not-a-digest");
        }
        other => panic!("{other:?}"),
    }
    assert_eq!(
        err.message(),
        "checksum file /tmp/snap.tgz.sha256 is malformed: expected a 64-character hex digest, got \"not-a-digest\""
    );
}

#[test]
fn malformed_checksum_shows_at_most_eighty_characters() {
    let long = "z".repeat(200);
    match expected_digest(&long, "s").unwrap_err() {
        ArchiveError::MalformedChecksum { found, .. } => assert_eq!(found, "z".repeat(80)),
        other => panic!("{other:?}"),
    }
}

#[test]
fn recorded_digest_may_be_upper_case_and_indented() {
    let upper = digest_of(b"abc").to_uppercase();
    let text = format!("\n\t {upper} *snap.tgz\n");
    assert_eq!(expected_digest(&text, "s").unwrap(), digest_of(b"abc"));
}

#[test]
fn sidecar_is_sha256sum_compatible() {
    let digest = digest_of(b"abc");
    assert_eq!(
        sidecar_line(&digest, "/tmp/snap.tgz"),
        format!("{digest}  snap.tgz\n")
    );
    assert_eq!(checksum_path("/tmp/snap.tgz"), "/tmp/snap.tgz.sha256");
}

#[test]
fn an_archive_is_restored_from_the_directory_it_held() {
    let entry = |path: &str, is_dir: bool| Expanded {
        path: path.to_string(),
        is_dir,
    };
    let wrapped = vec![entry("/t/notes.txt", false), entry("/t/snap", true), entry("/t/z", true)];
    assert_eq!(expanded_root(&wrapped, "/t"), "/t/snap");
    let bare = vec![entry("/t/profile.toml", false)];
    assert_eq!(expanded_root(&bare, "/t"), "/t");
    let beside = vec![entry("/t/payload", true), entry("/t/profile.toml", false)];
    assert_eq!(expanded_root(&beside, "/t"), "/t");
    assert_eq!(expanded_root(&Vec::new(), "/t"), "/t");
}
