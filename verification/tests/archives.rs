use zomboid_save_sync::fingerprint::save_fingerprint;
use zomboid_save_sync::paths::{
    archive_file, cache_directory, metadata_file, temporary_archive, LocalPath,
};
use zomboid_save_sync::prepare::machine::Preparation;
use zomboid_save_sync::prepare::types::{CacheMetadata, PrepareAction, PrepareEvent};
use zomboid_save_sync::scan::{CachedFileEntry, ScanEvent};
use zomboid_save_sync::walk::{FileFacts, WalkStep, WalkedEntry};

fn cache() -> LocalPath {
    cache_directory("Sandbox", "World")
}

fn temporary_path() -> LocalPath {
    temporary_archive(cache(), 42)
}

fn step(path: &str, facts: Result<FileFacts, String>) -> WalkedEntry {
    WalkedEntry {
        names: vec!["World".to_string(), path.to_string()],
        relative: Ok(path.to_string()),
        is_file: true,
        facts,
    }
}

fn facts(bytes: u64, since_epoch: u128) -> Result<FileFacts, String> {
    Ok(FileFacts { bytes, since_epoch: Some(since_epoch) })
}

fn files() -> PrepareEvent {
    PrepareEvent::Walked(vec![
        Ok(WalkedEntry { is_file: false, ..step("", facts(9, 9)) }),
        Ok(step("b", facts(4, 2))),
        Ok(step("a", facts(5, 1))),
    ])
}

fn entries() -> Vec<CachedFileEntry> {
    vec![
        CachedFileEntry {
            path: "a".to_string(),
            bytes: 5,
            modified_ns: 1,
            sha256: "da".to_string(),
        },
        CachedFileEntry {
            path: "b".to_string(),
            bytes: 4,
            modified_ns: 2,
            sha256: "db".to_string(),
        },
    ]
}

fn metadata() -> CacheMetadata {
    CacheMetadata {
        schema_version: 1,
        save_mode: "Sandbox".to_string(),
        save_name: "World".to_string(),
        fingerprint: save_fingerprint(&entries()).unwrap(),
        zip_sha256: "zip".to_string(),
        zip_bytes: 99,
        files: entries(),
    }
}

fn kept() -> PrepareEvent {
    PrepareEvent::Scanned(ScanEvent::Kept)
}

fn hashed(digest: &str) -> PrepareEvent {
    PrepareEvent::Scanned(ScanEvent::Digest(Ok(digest.to_string())))
}

fn follow(events: Vec<PrepareEvent>) -> (Preparation, Vec<(u8, String)>) {
    let mut preparation = Preparation::begin("Sandbox", "World", 42);
    let mut told = Vec::new();
    for event in events {
        let (next, reports) = preparation.handle(event);
        preparation = next;
        told.extend(reports.into_iter().map(|report| (report.percent, report.message)));
    }
    (preparation, told)
}

fn located(metadata: Option<CacheMetadata>, more: Vec<PrepareEvent>) -> Vec<PrepareEvent> {
    let mut events = vec![
        PrepareEvent::Located(Ok(())),
        PrepareEvent::Created(Ok(())),
        PrepareEvent::Metadata(metadata),
    ];
    events.extend(more);
    events
}

fn error_of(events: Vec<PrepareEvent>) -> String {
    follow(events).0.outcome().unwrap().err().unwrap()
}

#[test]
fn an_intact_archive_of_the_same_files_is_used_again() {
    let (preparation, _) = follow(vec![]);
    assert!(matches!(preparation.action(), PrepareAction::LocateData));
    let (preparation, _) = follow(vec![PrepareEvent::Located(Ok(()))]);
    assert!(matches!(
        preparation.action(),
        PrepareAction::CreateCache { directory } if directory == cache()
    ));
    let (preparation, _) =
        follow(vec![PrepareEvent::Located(Ok(())), PrepareEvent::Created(Ok(()))]);
    assert!(matches!(
        preparation.action(),
        PrepareAction::ReadMetadata { file } if file == metadata_file(cache())
    ));
    let (preparation, told) =
        follow(located(Some(metadata()), vec![files(), kept()]));
    assert!(matches!(preparation.action(), PrepareAction::KeepFile));
    assert_eq!(
        told,
        [
            (0, "正在检查本地压缩缓存...".to_string()),
            (0, "正在扫描存档：0/2 个文件".to_string()),
            (50, "正在扫描存档：1/2 个文件".to_string())
        ]
    );
    let (preparation, _) =
        follow(located(Some(metadata()), vec![files(), kept(), kept()]));
    assert!(matches!(
        preparation.action(),
        PrepareAction::InspectArchive { archive } if archive == archive_file(cache())
    ));
    let (preparation, told) = follow(located(
        Some(metadata()),
        vec![
            files(),
            kept(),
            kept(),
            PrepareEvent::ArchiveSize(Some(99)),
            PrepareEvent::Digest(Ok("zip".to_string())),
        ],
    ));
    assert_eq!(told[3], (100, "正在扫描存档：2/2 个文件".to_string()));
    assert_eq!(told[4], (100, "存档未变化，跳过压缩".to_string()));
    assert!(matches!(preparation.action(), PrepareAction::Finish));
    let archive = preparation.outcome().unwrap().unwrap();
    assert!(archive.reused);
    assert_eq!(archive.path, archive_file(cache()));
    assert_eq!(archive.cache_dir, cache());
    assert_eq!((archive.file_count, archive.bytes), (2, 99));
    assert_eq!(archive.zip_sha256, "zip");
    assert_eq!(archive.fingerprint, save_fingerprint(&entries()).unwrap());
}

#[test]
fn an_archive_that_does_not_fit_is_made_anew() {
    let scanned = || vec![files(), kept(), kept()];
    let others = [
        CacheMetadata { schema_version: 2, ..metadata() },
        CacheMetadata { save_mode: "Other".to_string(), ..metadata() },
        CacheMetadata { save_name: "Other".to_string(), ..metadata() },
        CacheMetadata { fingerprint: "other".to_string(), ..metadata() },
    ];
    for other in others {
        let (preparation, told) = follow(located(Some(other), scanned()));
        assert!(matches!(preparation.action(), PrepareAction::Compress { .. }));
        assert_eq!(told[4], (0, "缓存不可用，正在压缩存档...".to_string()));
    }
    for size in [None, Some(98)] {
        let mut events = scanned();
        events.push(PrepareEvent::ArchiveSize(size));
        let (preparation, _) = follow(located(Some(metadata()), events));
        assert!(matches!(preparation.action(), PrepareAction::Compress { .. }));
    }
    let mut events = scanned();
    events.push(PrepareEvent::ArchiveSize(Some(99)));
    events.push(PrepareEvent::Digest(Ok("torn".to_string())));
    let (preparation, _) = follow(located(Some(metadata()), events));
    assert!(matches!(preparation.action(), PrepareAction::Compress { .. }));
}

/// The events of a preparation without a cache, up to the packing.
fn packing() -> Vec<PrepareEvent> {
    located(None, vec![files(), hashed("db"), hashed("da")])
}

#[test]
fn a_new_archive_is_put_in_place_and_remembered() {
    let with = |more: Vec<PrepareEvent>| {
        let mut events = packing();
        events.extend(more);
        follow(events)
    };
    let first = follow(located(None, vec![files()])).0;
    assert!(matches!(first.action(), PrepareAction::HashFile { index: 1 }));
    let packed = || PrepareEvent::Compressed(Ok(2));
    let measured = || PrepareEvent::Measured(Ok(77));
    let digested = || PrepareEvent::Digest(Ok("newzip".to_string()));
    let committed = || PrepareEvent::Committed(Ok(()));
    assert!(matches!(
        with(vec![]).0.action(),
        PrepareAction::Compress { temporary } if temporary == temporary_path()
    ));
    assert!(matches!(
        with(vec![packed()]).0.action(),
        PrepareAction::MeasureTemporary { temporary } if temporary == temporary_path()
    ));
    assert!(matches!(
        with(vec![packed(), measured()]).0.action(),
        PrepareAction::HashTemporary { temporary } if temporary == temporary_path()
    ));
    assert!(matches!(
        with(vec![packed(), measured(), digested()]).0.action(),
        PrepareAction::CommitArchive { temporary, archive, label }
            if temporary == temporary_path()
                && archive == archive_file(cache())
                && label == "提交压缩缓存"
    ));
    let (preparation, _) = with(vec![packed(), measured(), digested(), committed()]);
    let PrepareAction::WriteMetadata { file, metadata: written } = preparation.action() else {
        panic!("the archive is remembered");
    };
    assert_eq!(file, metadata_file(cache()));
    assert_eq!(written.schema_version, 1);
    assert_eq!((written.save_mode.as_str(), written.save_name.as_str()), ("Sandbox", "World"));
    assert_eq!(written.fingerprint, save_fingerprint(&entries()).unwrap());
    assert_eq!((written.zip_sha256.as_str(), written.zip_bytes), ("newzip", 77));
    assert_eq!(written.files, entries());
    let (preparation, told) = with(vec![
        packed(),
        measured(),
        digested(),
        committed(),
        PrepareEvent::MetadataWritten(Ok(())),
    ]);
    assert_eq!(told.last().unwrap(), &(100, "存档压缩完成：77 字节".to_string()));
    let archive = preparation.outcome().unwrap().unwrap();
    assert!(!archive.reused);
    assert_eq!((archive.file_count, archive.bytes), (2, 77));
    let (again, _) = follow(located(
        Some(written),
        vec![
            files(),
            kept(),
            kept(),
            PrepareEvent::ArchiveSize(Some(77)),
            PrepareEvent::Digest(Ok("newzip".to_string())),
        ],
    ));
    assert!(again.outcome().unwrap().unwrap().reused);
}

#[test]
fn a_preparation_tells_what_went_wrong() {
    let e = || "e".to_string();
    assert_eq!(error_of(vec![PrepareEvent::Located(Err(e()))]), "获取应用数据目录失败: e");
    assert_eq!(
        error_of(vec![PrepareEvent::Located(Ok(())), PrepareEvent::Created(Err(e()))]),
        "创建存档缓存目录失败: e"
    );
    let broken: Vec<(WalkStep, &str)> = vec![
        (Err(e()), "扫描存档失败: e"),
        (
            Ok(WalkedEntry { relative: Err(e()), ..step("a", Err("x".to_string())) }),
            "生成存档路径失败: e",
        ),
        (Ok(step("a", Err(e()))), "读取存档元数据失败: e"),
    ];
    for (walked, message) in broken {
        let event = PrepareEvent::Walked(vec![Ok(step("b", facts(4, 2))), walked]);
        assert_eq!(error_of(located(None, vec![event])), message);
    }
    let torn = PrepareEvent::Scanned(ScanEvent::Digest(Err(e())));
    assert_eq!(error_of(located(None, vec![files(), torn])), "e");
    assert_eq!(
        error_of(located(
            Some(metadata()),
            vec![
                files(),
                kept(),
                kept(),
                PrepareEvent::ArchiveSize(Some(99)),
                PrepareEvent::Digest(Err(e())),
            ],
        )),
        "e"
    );
    let failing = |more: Vec<PrepareEvent>| {
        let mut events = packing();
        events.extend(more);
        error_of(events)
    };
    let packed = || PrepareEvent::Compressed(Ok(2));
    let measured = || PrepareEvent::Measured(Ok(77));
    let digested = || PrepareEvent::Digest(Ok(e()));
    assert_eq!(failing(vec![PrepareEvent::Compressed(Err(e()))]), "e");
    assert_eq!(failing(vec![packed(), PrepareEvent::Measured(Err(e()))]), "读取压缩包大小失败: e");
    assert_eq!(failing(vec![packed(), measured(), PrepareEvent::Digest(Err(e()))]), "e");
    assert_eq!(
        failing(vec![packed(), measured(), digested(), PrepareEvent::Committed(Err(e()))]),
        "e"
    );
    assert_eq!(
        failing(vec![
            packed(),
            measured(),
            digested(),
            PrepareEvent::Committed(Ok(())),
            PrepareEvent::MetadataWritten(Err(e())),
        ]),
        "e"
    );
}

#[test]
fn an_empty_save_is_scanned_at_once() {
    let (preparation, told) = follow(located(None, vec![PrepareEvent::Walked(vec![])]));
    assert_eq!(told[1], (100, "正在扫描存档：0/0 个文件".to_string()));
    assert!(matches!(preparation.action(), PrepareAction::Compress { .. }));
}
