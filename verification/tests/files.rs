use zomboid_save_sync::compress::{
    compression_report, sources_of_a_save, zip_directory, Compression, PackAction, PackEvent,
    PackTick, Packed,
};
use zomboid_save_sync::extract::{
    extraction_report, EntryKind, ExtractAction, ExtractEvent, Extraction,
};
use zomboid_save_sync::listing::{list_saves, FoundMode, FoundSave};
use zomboid_save_sync::progress::ProgressGate;
use zomboid_save_sync::replace::{FileSwap, SwapAction, SwapEvent, WriteAction, WritePhase};
use zomboid_save_sync::scan::{
    files_of_a_save, scan_save_files, CachedFileEntry, FoundFile, SaveScan, ScanAction, ScanEvent,
};
use zomboid_save_sync::walk::{FileFacts, WalkStep, WalkedEntry};

fn swap(events: Vec<SwapEvent>) -> FileSwap {
    let mut swap = FileSwap::begin("提交缓存");
    for event in events {
        swap = swap.handle(event);
    }
    swap
}

fn swap_error(events: Vec<SwapEvent>) -> String {
    match swap(events).action() {
        SwapAction::Finish(Err(e)) => e,
        _ => panic!("the replacement has not failed"),
    }
}

fn found(target: bool, backup: bool) -> SwapEvent {
    SwapEvent::Found { target, backup }
}

fn ok() -> SwapEvent {
    SwapEvent::Done(Ok(()))
}

fn failed() -> SwapEvent {
    SwapEvent::Done(Err("e".to_string()))
}

#[test]
fn a_file_is_replaced_with_a_way_back() {
    assert!(matches!(swap(vec![]).action(), SwapAction::Inspect));
    assert!(matches!(swap(vec![found(true, true)]).action(), SwapAction::RemoveBackup));
    assert!(matches!(swap(vec![found(true, true), ok()]).action(), SwapAction::SetAside));
    assert!(matches!(swap(vec![found(true, false), ok()]).action(), SwapAction::Install));
    assert!(matches!(
        swap(vec![found(true, false), ok(), ok()]).action(),
        SwapAction::RemoveBackup
    ));
    assert!(matches!(
        swap(vec![found(true, false), ok(), ok(), ok()]).action(),
        SwapAction::Finish(Ok(()))
    ));
    assert!(matches!(swap(vec![found(false, false)]).action(), SwapAction::Install));
    assert!(matches!(swap(vec![found(false, true), ok()]).action(), SwapAction::Install));
    assert!(matches!(
        swap(vec![found(false, false), ok()]).action(),
        SwapAction::Finish(Ok(()))
    ));
    assert!(matches!(
        swap(vec![found(true, false), ok(), failed()]).action(),
        SwapAction::Restore
    ));
}

#[test]
fn a_replacement_tells_what_went_wrong() {
    assert_eq!(swap_error(vec![found(true, true), failed()]), "清理旧缓存交换文件失败: e");
    assert_eq!(swap_error(vec![found(true, false), failed()]), "准备提交缓存失败: e");
    assert_eq!(swap_error(vec![found(true, false), ok(), failed(), ok()]), "提交缓存失败: e");
    assert_eq!(swap_error(vec![found(true, false), ok(), failed(), failed()]), "提交缓存失败: e");
    assert_eq!(swap_error(vec![found(false, false), failed()]), "提交缓存失败: e");
    assert_eq!(
        swap_error(vec![found(true, false), ok(), ok(), failed()]),
        "提交缓存成功，但清理旧缓存失败: e"
    );
}

#[test]
fn a_value_is_written_beside_its_file_first() {
    let mut phase = WritePhase::begin();
    assert!(matches!(phase.action(), WriteAction::FindParent));
    phase = phase.handle(Ok(()));
    assert!(matches!(phase.action(), WriteAction::CreateDirectory));
    phase = phase.handle(Ok(()));
    assert!(matches!(phase.action(), WriteAction::Serialize));
    phase = phase.handle(Ok(()));
    assert!(matches!(phase.action(), WriteAction::WriteTemporary));
    phase = phase.handle(Ok(()));
    assert!(matches!(phase.action(), WriteAction::Replace(label) if label == "提交缓存"));
    phase = phase.handle(Ok(()));
    assert!(matches!(phase.action(), WriteAction::Finish(Ok(()))));
    let errors =
        ["缓存路径无父目录", "创建缓存目录失败: e", "序列化缓存失败: e", "写入缓存失败: e", "e"];
    for (steps, message) in errors.into_iter().enumerate() {
        let mut phase = WritePhase::begin();
        for _ in 0..steps {
            phase = phase.handle(Ok(()));
        }
        phase = phase.handle(Err("e".to_string()));
        assert!(matches!(phase.action(), WriteAction::Finish(Err(e)) if e == message));
    }
}

fn entry_of(path: &str, bytes: u64, modified: u128) -> WalkedEntry {
    let inside = path.split(['/', '\\']).map(str::to_string);
    WalkedEntry {
        names: std::iter::once("World".to_string()).chain(inside).collect(),
        relative: Ok(path.to_string()),
        is_file: true,
        facts: Ok(FileFacts { bytes, since_epoch: Some(modified) }),
    }
}

fn file(path: &str, bytes: u64, modified: u128) -> WalkStep {
    Ok(entry_of(path, bytes, modified))
}

fn directory(path: &str) -> WalkStep {
    Ok(WalkedEntry { is_file: false, ..entry_of(path, 4096, 1) })
}

fn entry(path: &str, bytes: u64, modified_ns: u64, sha256: &str) -> CachedFileEntry {
    CachedFileEntry { path: path.to_string(), bytes, modified_ns, sha256: sha256.to_string() }
}

#[test]
fn only_changed_files_are_read() {
    let previous = vec![entry("a", 1, 1, "old-a"), entry("b/c", 2, 2, "old-c")];
    let found = |position, path: &str, bytes, modified_ns| FoundFile {
        position,
        path: path.to_string(),
        bytes,
        modified_ns,
    };
    let found = vec![found(3, "b\\c", 2, 2), found(4, "a", 1, 9), found(7, "new", 0, 0)];
    let mut scan = SaveScan::begin(found, previous);
    assert_eq!((scan.completed(), scan.total()), (0, 3));
    assert!(scan.action() == ScanAction::Keep);
    scan = scan.handle(ScanEvent::Digest(Ok("ignored".to_string())));
    assert_eq!(scan.completed(), 0);
    scan = scan.handle(ScanEvent::Kept);
    assert!(scan.action() == ScanAction::Hash { index: 4 });
    scan = scan.handle(ScanEvent::Digest(Ok("new-a".to_string())));
    assert!(scan.action() == ScanAction::Hash { index: 7 });
    scan = scan.handle(ScanEvent::Digest(Ok("new".to_string())));
    assert!(scan.action() == ScanAction::Done);
    assert_eq!(
        scan.outcome().unwrap(),
        vec![entry("a", 1, 9, "new-a"), entry("b/c", 2, 2, "old-c"), entry("new", 0, 0, "new")]
    );
}

#[test]
fn the_last_of_several_entries_for_a_path_counts() {
    let previous = vec![entry("a", 1, 1, "first"), entry("a", 1, 1, "second")];
    let unread = vec![Err("not read".to_string())];
    assert_eq!(
        scan_save_files(&vec![file("a", 1, 1)], &previous, &unread).unwrap(),
        vec![entry("a", 1, 1, "second")]
    );
    let previous = vec![entry("a", 1, 1, "first"), entry("a", 2, 1, "second")];
    assert_eq!(
        scan_save_files(&vec![file("a", 1, 1)], &previous, &unread),
        Err("not read".to_string())
    );
}

#[test]
fn entries_are_sorted_by_the_bytes_of_their_paths() {
    let paths = ["b", "ab", "a/b", "a", "Z", "é", "a-b", "\u{10000}", "\u{ffff}", ""];
    let found: Vec<WalkStep> = paths.iter().map(|path| file(path, 0, 0)).collect();
    let digests = paths.iter().map(|path| Ok(path.to_string())).collect();
    let scanned = scan_save_files(&found, &Vec::new(), &digests).unwrap();
    let mut expected = paths.to_vec();
    expected.sort();
    let order: Vec<&str> = scanned.iter().map(|entry| entry.path.as_str()).collect();
    assert_eq!(order, expected);
    assert!(scanned.iter().all(|entry| entry.path == entry.sha256));
}

#[test]
fn a_file_that_cannot_be_read_ends_a_scan() {
    let found = vec![file("a", 0, 0), file("b", 0, 0)];
    let digests = vec![Err("torn".to_string()), Ok("b".to_string())];
    assert_eq!(scan_save_files(&found, &Vec::new(), &digests), Err("torn".to_string()));
}

#[test]
fn files_are_packed_one_after_the_other() {
    let packing = Compression::begin();
    assert!(matches!(packing.action(), PackAction::WalkSave));
    let walked = vec![directory("map"), file("map\\1.bin", 30, 1), file("a", 10, 1)];
    let (packing, tick) = packing.handle(PackEvent::Walked(walked));
    assert!(tick.is_none());
    assert!(matches!(packing.action(), PackAction::CreateArchive));
    let mut gate = ProgressGate::new();
    let mut told = Vec::new();
    let mut tell = |tick: Option<PackTick>| {
        if let Some(report) = compression_report(&mut gate, tick.unwrap()) {
            told.push((report.percent, report.message));
        }
    };
    let (packing, tick) = packing.handle(PackEvent::Created(Ok(())));
    tell(tick);
    assert!(matches!(
        packing.action(),
        PackAction::AddFile { index: 1, name } if name == "map/1.bin"
    ));
    let (packing, tick) = packing.handle(PackEvent::Added(Packed::Done));
    tell(tick);
    assert!(matches!(packing.action(), PackAction::AddFile { index: 2, name } if name == "a"));
    let (packing, tick) = packing.handle(PackEvent::Added(Packed::Done));
    tell(tick);
    assert!(matches!(packing.action(), PackAction::CloseArchive));
    let (packing, tick) = packing.handle(PackEvent::Closed(Ok(())));
    assert!(tick.is_none());
    assert!(matches!(packing.action(), PackAction::Finish { outcome: Ok(2) }));
    assert_eq!(
        told,
        [
            (0, "正在压缩存档：0/2 个文件".to_string()),
            (75, "正在压缩存档：1/2 个文件".to_string()),
            (100, "正在压缩存档：2/2 个文件".to_string())
        ]
    );
}

#[test]
fn sizes_are_summed_up_without_overflow() {
    let walked = vec![file("a", u64::MAX, 1), file("b", u64::MAX, 1)];
    let (packing, _) = Compression::begin().handle(PackEvent::Walked(walked));
    let (packing, tick) = packing.handle(PackEvent::Created(Ok(())));
    let tick = tick.unwrap();
    assert_eq!((tick.completed_bytes, tick.total_bytes), (0, u64::MAX));
    let (_, tick) = packing.handle(PackEvent::Added(Packed::Done));
    assert_eq!(tick.unwrap().completed_bytes, u64::MAX);
}

#[test]
fn a_packing_tells_what_went_wrong() {
    let unmeasured =
        WalkedEntry { facts: Err("e".to_string()), ..entry_of("a", 1, 1) };
    let broken: Vec<(WalkStep, &str)> =
        vec![(Err("e".to_string()), "读取存档失败: e"), (Ok(unmeasured), "读取存档文件大小失败: e")];
    for (walked, message) in broken {
        let (packing, _) = Compression::begin().handle(PackEvent::Walked(vec![walked]));
        assert!(matches!(
            packing.action(),
            PackAction::Finish { outcome: Err(e) } if e == message
        ));
    }
    let pack = |created, packed, closed| {
        zip_directory(vec![file("a", 1, 1)], created, &vec![packed], closed)
    };
    assert_eq!(pack(Ok(()), Packed::Done, Ok(())), Ok(1));
    assert_eq!(
        pack(Err("e".to_string()), Packed::Done, Ok(())),
        Err("创建压缩包失败: e".to_string())
    );
    for (packed, message) in [
        (Packed::StartFailed("e".to_string()), "写入压缩包失败: e"),
        (Packed::ReadFailed("e".to_string()), "读取存档文件失败: e"),
        (Packed::CopyFailed("e".to_string()), "压缩存档失败: e"),
    ] {
        assert_eq!(pack(Ok(()), packed, Ok(())), Err(message.to_string()));
    }
    assert_eq!(
        pack(Ok(()), Packed::Done, Err("e".to_string())),
        Err("完成压缩失败: e".to_string())
    );
    let unnamed = WalkedEntry { relative: Err("e".to_string()), ..entry_of("a", 1, 1) };
    assert_eq!(
        zip_directory(vec![Ok(unnamed)], Ok(()), &vec![Packed::Done], Ok(())),
        Err("生成存档路径失败: e".to_string())
    );
    assert_eq!(zip_directory(vec![], Ok(()), &vec![], Ok(())), Ok(0));
}

fn unpack(events: Vec<ExtractEvent>) -> (Extraction, Vec<(usize, usize)>) {
    let mut extraction = Extraction::begin();
    let mut ticks = Vec::new();
    for event in events {
        let (next, tick) = extraction.handle(event);
        extraction = next;
        ticks.extend(tick.map(|tick| (tick.completed, tick.total)));
    }
    (extraction, ticks)
}

fn done() -> ExtractEvent {
    ExtractEvent::Done(Ok(()))
}

fn undone() -> ExtractEvent {
    ExtractEvent::Done(Err("e".to_string()))
}

fn kind(enclosed: bool, directory: bool) -> ExtractEvent {
    ExtractEvent::Entry(Ok(EntryKind { enclosed, directory }))
}

#[test]
fn an_archive_is_unpacked_entry_by_entry() {
    assert!(matches!(unpack(vec![]).0.action(), ExtractAction::OpenFile));
    assert!(matches!(unpack(vec![done()]).0.action(), ExtractAction::OpenArchive));
    let opened = || vec![done(), ExtractEvent::Archive(Ok(2))];
    let with = |more: Vec<ExtractEvent>| {
        let mut events = opened();
        events.extend(more);
        unpack(events)
    };
    assert!(matches!(with(vec![]).0.action(), ExtractAction::ReadEntry { index: 0 }));
    assert!(matches!(with(vec![kind(true, true)]).0.action(), ExtractAction::CreateDirectory));
    assert!(matches!(with(vec![kind(true, false)]).0.action(), ExtractAction::CreateParent));
    assert!(matches!(
        with(vec![kind(true, false), done()]).0.action(),
        ExtractAction::CreateFile
    ));
    assert!(matches!(
        with(vec![kind(true, false), done(), done()]).0.action(),
        ExtractAction::CopyContents
    ));
    let (extraction, ticks) =
        with(vec![kind(true, true), done(), kind(true, false), done(), done(), done()]);
    assert!(matches!(extraction.action(), ExtractAction::Finish { outcome: Ok(()) }));
    assert_eq!(ticks, [(0, 2), (1, 2), (2, 2)]);
    let (extraction, ticks) = unpack(vec![done(), ExtractEvent::Archive(Ok(0))]);
    assert!(matches!(extraction.action(), ExtractAction::Finish { outcome: Ok(()) }));
    assert_eq!(ticks, [(0, 0)]);
}

#[test]
fn nothing_is_unpacked_outside_its_directory() {
    for directory in [false, true] {
        let (extraction, _) =
            unpack(vec![done(), ExtractEvent::Archive(Ok(1)), kind(false, directory)]);
        assert!(matches!(
            extraction.action(),
            ExtractAction::Finish { outcome: Err(e) } if e == "压缩包包含非法路径"
        ));
    }
}

#[test]
fn an_unpacking_tells_what_went_wrong() {
    let archive = || ExtractEvent::Archive(Ok(1));
    let courses = vec![
        (vec![undone()], "打开下载文件失败: e"),
        (vec![done(), ExtractEvent::Archive(Err("e".to_string()))], "压缩包损坏: e"),
        (
            vec![done(), archive(), ExtractEvent::Entry(Err("e".to_string()))],
            "读取压缩包失败: e",
        ),
        (vec![done(), archive(), kind(true, true), undone()], "创建存档目录失败: e"),
        (vec![done(), archive(), kind(true, false), undone()], "创建存档目录失败: e"),
        (vec![done(), archive(), kind(true, false), done(), undone()], "写入存档失败: e"),
        (vec![done(), archive(), kind(true, false), done(), done(), undone()], "解压存档失败: e"),
    ];
    for (events, message) in courses {
        assert!(matches!(
            unpack(events).0.action(),
            ExtractAction::Finish { outcome: Err(e) } if e == message
        ));
    }
}

#[test]
fn unpacking_is_reported_when_its_percentage_changes() {
    let mut gate = ProgressGate::new();
    let mut told = Vec::new();
    for completed in 0..=300 {
        let tick = zomboid_save_sync::extract::ExtractTick { completed, total: 300 };
        if let Some(report) = extraction_report(&mut gate, tick) {
            told.push((report.percent, report.message));
        }
    }
    assert_eq!(told.len(), 101);
    assert_eq!(told[0], (0, "正在解压存档：0/300 项".to_string()));
    assert_eq!(told[1], (1, "正在解压存档：3/300 项".to_string()));
    assert_eq!(told[100], (100, "正在解压存档：300/300 项".to_string()));
}

fn save(name: &str, is_directory: bool) -> Result<FoundSave, String> {
    Ok(FoundSave { name: name.to_string(), path: format!("/{name}"), is_directory })
}

fn mode(
    name: &str,
    is_directory: bool,
    saves: Vec<Result<FoundSave, String>>,
) -> Result<FoundMode, String> {
    Ok(FoundMode { name: name.to_string(), is_directory, saves: Ok(saves) })
}

#[test]
fn local_saves_are_listed_by_mode_and_name() {
    let modes = vec![
        mode("Sandbox", true, vec![save("b", true), save("__MACOSX", true), save("a", true)]),
        mode("__macosx", true, vec![save("x", true)]),
        mode("file", false, vec![Err("not read".to_string())]),
        mode("Apocalypse", true, vec![save("z", true), save("options.ini", false)]),
        mode("Empty", true, vec![]),
    ];
    let listed = list_saves(true, Ok(modes)).unwrap();
    let names: Vec<(&str, &str, &str)> = listed
        .iter()
        .map(|entry| (entry.mode.as_str(), entry.name.as_str(), entry.path.as_str()))
        .collect();
    assert_eq!(
        names,
        [("Apocalypse", "z", "/z"), ("Sandbox", "a", "/a"), ("Sandbox", "b", "/b")]
    );
}

#[test]
fn a_listing_tells_what_went_wrong() {
    let e = || "e".to_string();
    assert_eq!(list_saves(false, Ok(vec![])), Err("Saves 目录不存在".to_string()));
    assert_eq!(list_saves(true, Err(e())), Err("读取 Saves 目录失败: e".to_string()));
    assert_eq!(
        list_saves(true, Ok(vec![mode("m", true, vec![]), Err(e())])),
        Err("读取存档模式失败: e".to_string())
    );
    let unlisted = FoundMode { name: "Sandbox".to_string(), is_directory: true, saves: Err(e()) };
    assert_eq!(
        list_saves(true, Ok(vec![Ok(unlisted)])),
        Err("读取 Sandbox 失败: e".to_string())
    );
    assert_eq!(
        list_saves(true, Ok(vec![mode("m", true, vec![save("s", true), Err(e())])])),
        Err("读取存档记录失败: e".to_string())
    );
}

#[test]
fn a_second_scan_of_files_that_share_a_name_finds_the_same() {
    let found = || vec![file("a\\b", 1, 1), file("a/b", 2, 1), file("c", 0, 0)];
    let digests = vec![Ok("d1".to_string()), Ok("d2".to_string()), Ok("d3".to_string())];
    let first = scan_save_files(&found(), &Vec::new(), &digests).unwrap();
    assert_eq!(scan_save_files(&found(), &first, &digests).unwrap(), first);
    let alike = || vec![file("a\\b", 1, 1), file("a/b", 1, 1)];
    let digests = vec![Ok("same".to_string()), Ok("same".to_string())];
    let first = scan_save_files(&alike(), &Vec::new(), &digests).unwrap();
    let unread = vec![Err("not read".to_string()), Err("not read".to_string())];
    assert_eq!(scan_save_files(&alike(), &first, &unread).unwrap(), first);
}

#[test]
fn packed_files_come_out_under_their_names() {
    let (mut packing, _) = Compression::begin()
        .handle(PackEvent::Walked(vec![file("map\\1.bin", 3, 1), file("a", 1, 1)]));
    packing = packing.handle(PackEvent::Created(Ok(()))).0;
    let contents = ["one", "two"];
    let mut archive = Vec::new();
    while let PackAction::AddFile { index, name } = packing.action() {
        archive.push((name, contents[index]));
        packing = packing.handle(PackEvent::Added(Packed::Done)).0;
    }
    let (mut extraction, mut ticks) =
        unpack(vec![done(), ExtractEvent::Archive(Ok(archive.len()))]);
    let mut written = Vec::new();
    let mut hand = 0;
    loop {
        let event = match extraction.action() {
            ExtractAction::Finish { outcome } => {
                assert_eq!(outcome, Ok(()));
                break;
            }
            ExtractAction::ReadEntry { index } => {
                hand = index;
                kind(true, false)
            }
            ExtractAction::CopyContents => {
                written.push(archive[hand].clone());
                done()
            }
            _ => done(),
        };
        let (next, tick) = extraction.handle(event);
        extraction = next;
        ticks.extend(tick.map(|tick| (tick.completed, tick.total)));
    }
    assert_eq!(written, [("map/1.bin".to_string(), "one"), ("a".to_string(), "two")]);
    assert_eq!(ticks, [(0, 2), (1, 2), (2, 2)]);
}

/// A walk through a save that comes across more than its files.
fn mixed_walk() -> Vec<WalkStep> {
    vec![
        directory(""),
        directory("map"),
        file("map\\1.bin", 3, 30),
        directory("__macosx"),
        file("__MACOSX/._1.bin", 9, 90),
        file("map/__MACOSX/deep/x", 9, 90),
        file("__MACOSX", 9, 90),
        file("MACOSX", 2, 20),
        directory("link"),
        file("a", 1, 10),
    ]
}

#[test]
fn the_files_of_a_save_are_those_outside_archive_metadata() {
    let found = files_of_a_save(&mixed_walk()).unwrap();
    let seen: Vec<(usize, &str, u64, u64)> = found
        .iter()
        .map(|file| (file.position, file.path.as_str(), file.bytes, file.modified_ns))
        .collect();
    assert_eq!(seen, [(2, "map\\1.bin", 3, 30), (7, "MACOSX", 2, 20), (9, "a", 1, 10)]);
    let sources = sources_of_a_save(&mixed_walk()).unwrap();
    let seen: Vec<(usize, Result<String, String>, u64)> = sources
        .into_iter()
        .map(|source| (source.position, source.relative, source.bytes))
        .collect();
    assert_eq!(
        seen,
        [
            (2, Ok("map\\1.bin".to_string()), 3),
            (7, Ok("MACOSX".to_string()), 2),
            (9, Ok("a".to_string()), 1)
        ]
    );
}

#[test]
fn a_scan_and_an_archive_hold_the_files_of_the_save() {
    let digests = (0..10).map(|position| Ok(format!("d{position}"))).collect();
    assert_eq!(
        scan_save_files(&mixed_walk(), &Vec::new(), &digests).unwrap(),
        [entry("MACOSX", 2, 20, "d7"), entry("a", 1, 10, "d9"), entry("map/1.bin", 3, 30, "d2")]
    );
    let (mut packing, _) = Compression::begin().handle(PackEvent::Walked(mixed_walk()));
    packing = packing.handle(PackEvent::Created(Ok(()))).0;
    let mut archive = Vec::new();
    while let PackAction::AddFile { index, name } = packing.action() {
        archive.push((index, name));
        packing = packing.handle(PackEvent::Added(Packed::Done)).0;
    }
    assert_eq!(
        archive,
        [(2, "map/1.bin".to_string()), (7, "MACOSX".to_string()), (9, "a".to_string())]
    );
    let mut packed: Vec<Packed> = (0..10).map(|_| Packed::StartFailed("e".to_string())).collect();
    for position in [2, 7, 9] {
        packed[position] = Packed::Done;
    }
    assert_eq!(zip_directory(mixed_walk(), Ok(()), &packed, Ok(())), Ok(3));
}

#[test]
fn a_save_named_like_archive_metadata_has_no_files() {
    let mut inside = entry_of("a", 1, 1);
    inside.names[0] = "__MACOSX".to_string();
    assert!(files_of_a_save(&vec![Ok(inside)]).unwrap().is_empty());
}

#[test]
fn what_is_no_file_of_the_save_may_be_unknown() {
    let unknown = |path: &str| WalkedEntry {
        relative: Err("e".to_string()),
        facts: Err("e".to_string()),
        ..entry_of(path, 1, 1)
    };
    let walked = || {
        vec![
            Ok(WalkedEntry { is_file: false, ..unknown("map") }),
            Ok(unknown("__MACOSX/x")),
            file("a", 1, 1),
        ]
    };
    assert_eq!(files_of_a_save(&walked()).unwrap().len(), 1);
    assert_eq!(sources_of_a_save(&walked()).unwrap().len(), 1);
}
