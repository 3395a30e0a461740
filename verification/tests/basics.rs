use reqwest::StatusCode;
use std::collections::HashSet;
use zomboid_save_sync::chunks::completed_upload_bytes;
use zomboid_save_sync::digest::{sha256_bytes, sha256_text};
use zomboid_save_sync::endpoint::normalize_endpoint;
use zomboid_save_sync::fingerprint::save_fingerprint;
use zomboid_save_sync::http::retryable_upload_status;
use zomboid_save_sync::names::is_ignored_metadata_directory;
use zomboid_save_sync::paths::{Anchor, LocalPath};
use zomboid_save_sync::process::process_list_contains_game;
use zomboid_save_sync::progress::stage_percent;
use zomboid_save_sync::resume::{resume_matches, PreparedArchive, ResumeState};
use zomboid_save_sync::scan::scan_save_files;
use zomboid_save_sync::walk::{FileFacts, WalkStep, WalkedEntry};

#[test]
fn sync_client_is_not_the_game() {
    assert!(!process_list_contains_game(
        "\"zomboid-save-sync.exe\",\"37316\",\"Console\",\"1\",\"40,324 K\""
    ));
}

#[test]
fn detects_windows_and_macos_game_processes() {
    assert!(process_list_contains_game(
        "\"ProjectZomboid64.exe\",\"1234\",\"Console\",\"1\",\"500,000 K\""
    ));
    assert!(process_list_contains_game(
        "/Applications/ProjectZomboid.app/Contents/MacOS/ProjectZomboid"
    ));
}

#[test]
fn ignores_macos_archive_metadata_directory_only() {
    assert!(is_ignored_metadata_directory("__MACOSX"));
    assert!(is_ignored_metadata_directory("__macosx"));
    assert!(!is_ignored_metadata_directory("MACOSX"));
    assert!(!is_ignored_metadata_directory("MySave"));
}

#[test]
fn calculates_each_stage_percentage() {
    assert_eq!(stage_percent(0, 1_000), 0);
    assert_eq!(stage_percent(250, 1_000), 25);
    assert_eq!(stage_percent(999, 1_000), 99);
    assert_eq!(stage_percent(1_000, 1_000), 100);
    assert_eq!(stage_percent(2_000, 1_000), 100);
}

#[test]
fn resumed_progress_counts_non_contiguous_chunks_and_last_chunk_bytes() {
    let chunks: HashSet<u64> = [1_u64, 2_u64].into_iter().collect();
    assert_eq!(completed_upload_bytes(&chunks, 20, 8, 3), 12);
    let first_only: HashSet<u64> = [0_u64].into_iter().collect();
    assert_eq!(completed_upload_bytes(&first_only, 20, 8, 3), 8);
}

#[test]
fn retries_temporary_upload_failures_only() {
    assert!(retryable_upload_status(StatusCode::REQUEST_TIMEOUT.as_u16()));
    assert!(retryable_upload_status(StatusCode::TOO_MANY_REQUESTS.as_u16()));
    assert!(retryable_upload_status(StatusCode::BAD_GATEWAY.as_u16()));
    assert!(!retryable_upload_status(StatusCode::BAD_REQUEST.as_u16()));
    assert!(!retryable_upload_status(StatusCode::UNAUTHORIZED.as_u16()));
}

fn file(path: &str, content: &[u8]) -> (WalkStep, Result<String, String>) {
    let entry = WalkedEntry {
        names: vec!["World".to_string(), path.to_string()],
        relative: Ok(path.to_string()),
        is_file: true,
        facts: Ok(FileFacts { bytes: content.len() as u64, since_epoch: Some(7) }),
    };
    (Ok(entry), Ok(sha256_bytes(content)))
}

fn directory(files: Vec<(&str, &[u8])>) -> (Vec<WalkStep>, Vec<Result<String, String>>) {
    files.into_iter().map(|(path, content)| file(path, content)).unzip()
}

#[test]
fn save_fingerprint_is_stable_and_changes_with_file_set() {
    let (root, digests) = directory(vec![("b.txt", b"beta"), ("a.txt", b"alpha")]);
    let first = scan_save_files(&root, &Vec::new(), &digests).unwrap();
    assert_eq!(
        first.iter().map(|entry| entry.path.as_str()).collect::<Vec<_>>(),
        ["a.txt", "b.txt"]
    );
    let first_fingerprint = save_fingerprint(&first).unwrap();
    let (root, digests) = directory(vec![("b.txt", b"beta"), ("a.txt", b"alpha")]);
    let reused = scan_save_files(&root, &first, &digests).unwrap();
    assert_eq!(first, reused);
    let (root, digests) =
        directory(vec![("b.txt", b"beta"), ("a.txt", b"alpha"), ("c.txt", b"gamma")]);
    let changed = scan_save_files(&root, &reused, &digests).unwrap();
    assert_ne!(first_fingerprint, save_fingerprint(&changed).unwrap());
}

fn stored_texts(state: &ResumeState) -> String {
    let fields = [
        &state.endpoint_hash,
        &state.sync_key_hash,
        &state.save_mode,
        &state.save_name,
        &state.fingerprint,
        &state.zip_sha256,
        &state.upload_id,
    ];
    serde_json::to_string(&fields).unwrap()
}

#[test]
fn resume_state_is_bound_without_storing_plain_sync_key() {
    let sync_key = "secret-sync-key-that-is-long-enough";
    let archive = PreparedArchive {
        path: LocalPath::at(Anchor::Data).child("save.zip"),
        file_count: 1,
        bytes: 10,
        fingerprint: "f".repeat(64),
        zip_sha256: "a".repeat(64),
        cache_dir: LocalPath::at(Anchor::Data).child("cache"),
        reused: true,
    };
    let state = ResumeState {
        schema_version: 1,
        endpoint_hash: sha256_text(&normalize_endpoint("HTTPS://Example.COM/")),
        sync_key_hash: sha256_text(sync_key),
        save_mode: "Sandbox".into(),
        save_name: "World".into(),
        fingerprint: archive.fingerprint.clone(),
        zip_sha256: archive.zip_sha256.clone(),
        zip_bytes: archive.bytes,
        chunk_size: 8,
        chunk_count: 2,
        upload_id: "1".repeat(32),
    };
    assert!(resume_matches(
        &state,
        "https://example.com",
        sync_key,
        "Sandbox",
        "World",
        &archive,
        8,
        2
    ));
    assert!(!resume_matches(
        &state,
        "https://other.example",
        sync_key,
        "Sandbox",
        "World",
        &archive,
        8,
        2
    ));
    assert!(!resume_matches(
        &state,
        "https://example.com",
        "different-secret-key-that-is-long",
        "Sandbox",
        "World",
        &archive,
        8,
        2
    ));
    assert!(!stored_texts(&state).contains(sync_key));
}
