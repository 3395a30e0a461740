use zomboid_save_sync::chunks::{chunk_count, chunk_length, CHUNK_SIZE};
use zomboid_save_sync::digest::{
    cache_identity, sha256_bytes, sha256_text, DigestStep, FileDigest,
};
use zomboid_save_sync::endpoint::{
    api_url, checked_address, endpoint_of_parse, normalize_endpoint, save_url,
};
use zomboid_save_sync::fingerprint::save_fingerprint;
use zomboid_save_sync::http::{
    authorization, is_success, request_error_details, retryable_upload_status, TransportError,
};
use zomboid_save_sync::names::{
    archive_name, backup_name, clean_component, is_ignored_metadata_directory,
    temporary_archive_name, unique_staging_path, unique_temp_path,
};
use zomboid_save_sync::paths::{
    archive_file, cache_directory, detect_save_root, metadata_file, resume_file, save_root,
    temporary_archive, Anchor, LocalPath,
};
use zomboid_save_sync::process::{game_is_running, process_list_contains_game};
use zomboid_save_sync::progress::{stage_percent, ProgressGate};
use zomboid_save_sync::replace::{backup_extension, temporary_name};
use zomboid_save_sync::scan::{modified_stamp, CachedFileEntry};

const HELLO: &str = "b94d27b9934d3e08a52e52d7da7dabfac484efe37a5380ee9088f7ace2efcde9";
const EMPTY: &str = "e3b0c44298fc1c149afbf4c8996fb92427ae41e4649b934ca495991b7852b855";

#[test]
fn digests_are_sha256_in_lower_case() {
    assert_eq!(sha256_text("hello world"), HELLO);
    assert_eq!(sha256_bytes(b"hello world"), HELLO);
    assert_eq!(sha256_text(""), EMPTY);
}

#[test]
fn a_file_is_digested_piece_by_piece() {
    let mut step = FileDigest::begin(Ok(()));
    for piece in ["hel", "lo wor", "ld", ""] {
        step = match step {
            DigestStep::ReadMore(digest) => digest.on_read(Ok(piece.as_bytes())),
            other => other,
        };
    }
    assert!(matches!(step, DigestStep::Done(digest) if digest == HELLO));
}

#[test]
fn a_file_that_cannot_be_read_has_no_digest() {
    let unopened = FileDigest::begin(Err("gone".to_string()));
    assert!(matches!(unopened, DigestStep::Failed(e) if e == "打开文件计算摘要失败: gone"));
    let DigestStep::ReadMore(digest) = FileDigest::begin(Ok(())) else {
        panic!("an opened file is read");
    };
    let unread = digest.on_read(Err("torn".to_string()));
    assert!(matches!(unread, DigestStep::Failed(e) if e == "读取文件计算摘要失败: torn"));
}

#[test]
fn caches_of_different_saves_are_different() {
    assert_eq!(cache_identity("Sandbox", "World"), sha256_text("Sandbox\0World"));
    assert_ne!(cache_identity("Sandbox", "World"), cache_identity("SandboxWorld", ""));
    assert_ne!(cache_identity("Sandbox", "World"), cache_identity("Apocalypse", "World"));
}

#[test]
fn addresses_have_one_slash_between_endpoint_and_path() {
    assert_eq!(api_url("https://a.example", "v1/saves"), "https://a.example/v1/saves");
    assert_eq!(api_url("https://a.example///", "//v1/saves"), "https://a.example/v1/saves");
    assert_eq!(api_url("", ""), "/");
}

#[test]
fn endpoints_have_a_normal_form() {
    assert_eq!(normalize_endpoint("  HTTPS://Example.COM/ \n"), "https://example.com");
    assert_eq!(normalize_endpoint("https://example.com:443/api//"), "https://example.com/api");
    assert_eq!(normalize_endpoint("not a url//"), "not a url");
    assert_eq!(normalize_endpoint("\u{3000}https://example.com/"), "https://example.com");
}

#[test]
fn a_parsed_endpoint_loses_its_trailing_slashes() {
    assert_eq!(endpoint_of_parse("X", Ok("https://x//".to_string())), "https://x");
    assert_eq!(endpoint_of_parse("X", Err("bad".to_string())), "X");
}

#[test]
fn the_address_of_a_save_names_mode_and_name() {
    assert_eq!(
        save_url("https://a.example/", "v1/snapshot", "Sandbox", "My World&1").unwrap(),
        "https://a.example/v1/snapshot?saveMode=Sandbox&saveName=My+World%261"
    );
    assert_eq!(
        save_url("https://a.example/?k=v", "v1/saves", "模", "n").unwrap(),
        "https://a.example/?k=v/v1/saves&saveMode=%E6%A8%A1&saveName=n"
    );
    assert_eq!(
        save_url("a.example", "v1/saves", "m", "n").unwrap_err(),
        "VPS API 地址无效: relative URL without a base"
    );
}

#[test]
fn an_address_is_as_good_as_its_parse() {
    assert_eq!(checked_address(Ok("u".to_string())), Ok("u".to_string()));
    assert_eq!(
        checked_address(Err("e".to_string())),
        Err("VPS API 地址无效: e".to_string())
    );
}

#[test]
fn fingerprints_are_digests_of_the_list_of_files() {
    assert_eq!(save_fingerprint(&Vec::new()).unwrap(), sha256_text("[]"));
    let entries = vec![
        CachedFileEntry {
            path: "a\"\\\n\u{1}.txt".to_string(),
            bytes: 5,
            modified_ns: 18446744073709551615,
            sha256: "00".to_string(),
        },
        CachedFileEntry {
            path: "图/b".to_string(),
            bytes: 0,
            modified_ns: 10,
            sha256: "ff".to_string(),
        },
    ];
    let text = "[{\"path\":\"a\\\"\\\\\\n\\u0001.txt\",\"bytes\":5,\
                \"modifiedNs\":18446744073709551615,\"sha256\":\"00\"},\
                {\"path\":\"图/b\",\"bytes\":0,\"modifiedNs\":10,\"sha256\":\"ff\"}]";
    assert_eq!(save_fingerprint(&entries).unwrap(), sha256_text(text));
}

#[test]
fn every_control_character_of_a_path_is_escaped_as_serde_json_does() {
    for code in 0u32..0x120 {
        let path = char::from_u32(code).unwrap().to_string();
        let text = format!(
            "[{{\"path\":{},\"bytes\":1,\"modifiedNs\":2,\"sha256\":\"d\"}}]",
            serde_json::to_string(&path).unwrap()
        );
        let entry = CachedFileEntry { path, bytes: 1, modified_ns: 2, sha256: "d".to_string() };
        assert_eq!(save_fingerprint(&vec![entry]).unwrap(), sha256_text(&text));
    }
}

#[test]
fn success_is_never_worth_a_retry() {
    for status in 0u16..1000 {
        assert_eq!(is_success(status), (200..300).contains(&status));
        let temporary = (500..600).contains(&status) || status == 408 || status == 429;
        assert_eq!(retryable_upload_status(status), temporary);
    }
}

#[test]
fn an_error_is_told_with_its_causes() {
    let bare = TransportError { message: "lost".to_string(), causes: Vec::new() };
    assert_eq!(request_error_details(&bare), "lost");
    let caused = TransportError {
        message: "lost".to_string(),
        causes: vec!["refused".to_string(), "os 111".to_string()],
    };
    assert_eq!(request_error_details(&caused), "lost: refused: os 111");
}

#[test]
fn requests_carry_the_key() {
    assert_eq!(authorization("k"), "Bearer k");
}

#[test]
fn components_stay_inside_their_directory() {
    for bad in ["", ".", "..", "a/b", "a\\b", "C:", "/"] {
        assert_eq!(clean_component(bad, "存档名称"), Err("无效的 存档名称".to_string()));
    }
    for good in ["World", "...", " ", "a.b", "世界"] {
        assert_eq!(clean_component(good, "存档名称"), Ok(good));
    }
}

#[test]
fn names_in_an_archive_have_slashes() {
    assert_eq!(archive_name("map\\1\\2.bin"), "map/1/2.bin");
    assert_eq!(archive_name("map/1.bin"), "map/1.bin");
}

#[test]
fn working_names_are_unique() {
    assert_eq!(unique_temp_path("zomboid-upload", 12, 345), "zomboid-upload-12-345.zip");
    let staging = unique_staging_path("World", 12, 345);
    assert_eq!(staging, ".World.zomboid-download-12-345");
    assert_eq!(backup_name(&staging), ".World.zomboid-download-12-345.backup");
    assert_eq!(temporary_archive_name(0), "save.0.tmp");
    assert_eq!(temporary_name("cache.json", 4294967295), ".cache.json.4294967295.tmp");
    assert_eq!(backup_extension("json"), "json.old");
    assert_eq!(backup_extension(""), ".old");
}

#[test]
fn the_game_is_found_anywhere_in_a_listing() {
    assert!(process_list_contains_game("init\r\nprojectzomboid\r\nsh"));
    assert!(process_list_contains_game("  C:\\Games\\PROJECTZOMBOID.EXE  "));
    assert!(process_list_contains_game("\u{2003}\"ProjectZomboid64.exe\"\u{85}"));
    assert!(!process_list_contains_game(""));
    assert!(!process_list_contains_game("projectzomboid/launcher"));
    assert!(!process_list_contains_game("my projectzomboid"));
    assert!(!process_list_contains_game("x,projectzomboid"));
    assert!(!process_list_contains_game("projectzomboid\rx"));
    assert!(!game_is_running(&None));
    assert!(game_is_running(&Some("ProjectZomboid".to_string())));
    assert!(!game_is_running(&Some("sh".to_string())));
}

#[test]
fn white_space_is_what_unicode_says_it_is() {
    for code in 0u32..=0x10ffff {
        if let Some(c) = char::from_u32(code) {
            let line = format!("{c}projectzomboid{c}");
            let separates = c == '/' || c == '\\';
            let ends_a_line = c == '\n';
            let expected = c.is_whitespace() || c == '"' || ends_a_line;
            if separates {
                assert!(!process_list_contains_game(&line));
            } else if c != ',' {
                assert_eq!(process_list_contains_game(&line), expected, "{code:x}");
            }
        }
    }
}

#[test]
fn metadata_names_are_compared_without_regard_to_ascii_case() {
    assert!(is_ignored_metadata_directory("__MacOsX"));
    assert!(!is_ignored_metadata_directory("__MACOSX "));
    assert!(!is_ignored_metadata_directory("__MACOſX"));
    assert!(!is_ignored_metadata_directory(""));
}

#[test]
fn percentages_are_bounded_and_monotone() {
    let mut last = 0;
    for completed in 0..=700 {
        let percent = stage_percent(completed, 600);
        assert!(last <= percent && percent <= 100);
        assert_eq!(percent == 100, completed >= 600);
        last = percent;
    }
    assert_eq!(stage_percent(0, 0), 100);
    assert_eq!(stage_percent(u64::MAX - 1, u64::MAX), 99);
    assert_eq!(stage_percent(u64::MAX, u64::MAX), 100);
}

#[test]
fn a_gate_lets_each_percentage_through_once_in_a_row() {
    let mut gate = ProgressGate::new();
    assert!(gate.admits(0));
    assert!(!gate.admits(0));
    assert!(gate.admits(1));
    assert!(gate.admits(0));
}

#[test]
fn chunks_tile_an_archive() {
    assert_eq!(CHUNK_SIZE, 256 * 1024);
    assert_eq!(chunk_count(0), 0);
    assert_eq!(chunk_count(1), 1);
    assert_eq!(chunk_count(CHUNK_SIZE), 1);
    assert_eq!(chunk_count(CHUNK_SIZE + 1), 2);
    assert_eq!(chunk_count(u64::MAX), 70368744177664);
    for bytes in [1, CHUNK_SIZE - 1, CHUNK_SIZE, 3 * CHUNK_SIZE + 5] {
        let sum: u64 = (0..chunk_count(bytes)).map(|index| chunk_length(bytes, index)).sum();
        assert_eq!(sum, bytes);
    }
}

#[test]
fn modification_times_are_cut_off_at_64_bits() {
    assert_eq!(modified_stamp(None), 0);
    assert_eq!(modified_stamp(Some(17)), 17);
    assert_eq!(modified_stamp(Some(u64::MAX as u128 + 1)), u64::MAX);
}

fn path(anchor: Anchor, components: &[&str]) -> LocalPath {
    let components = components.iter().map(|component| component.to_string()).collect();
    LocalPath { anchor, components }
}

#[test]
fn the_files_of_a_cache_have_their_names() {
    let identity = cache_identity("Sandbox", "World");
    assert_eq!(identity.len(), 64);
    assert!(identity.chars().all(|c| c.is_ascii_digit() || ('a'..='f').contains(&c)));
    let directory = || cache_directory("Sandbox", "World");
    assert_eq!(directory(), path(Anchor::Data, &["save-archives", &identity]));
    let inside = |name: &str| path(Anchor::Data, &["save-archives", &identity, name]);
    assert_eq!(archive_file(directory()), inside("save.zip"));
    assert_eq!(metadata_file(directory()), inside("cache.json"));
    assert_eq!(resume_file(directory()), inside("resume.json"));
    assert_eq!(temporary_archive(directory(), 42), inside("save.42.tmp"));
    assert_eq!(directory().copy(), directory());
}

#[test]
fn the_directory_of_the_saves_is_detected() {
    assert_eq!(save_root(), path(Anchor::Home, &["Zomboid", "Saves"]));
    assert_eq!(detect_save_root(false, true), Err("无法找到用户目录".to_string()));
    assert_eq!(detect_save_root(true, true), Ok(Some(save_root())));
    assert_eq!(detect_save_root(true, false), Ok(None));
}
