use zomboid_save_sync::download::machine::Download;
use zomboid_save_sync::download::types::{
    DownloadAction, DownloadEvent, DownloadRequest, SnapshotReply,
};
use zomboid_save_sync::http::{HttpReply, TransportError};
use zomboid_save_sync::remote::{
    delete_remote_save, DeleteEvent, DeletionRequest, ListAnswer, ListEvent, RemoteAction,
    RemoteDeletion, RemoteListing, RemoteManifest, RemoteSaveList,
};

fn request(overwrite_confirmed: bool) -> DownloadRequest {
    DownloadRequest {
        endpoint: "https://sync.example".to_string(),
        sync_key: "key".to_string(),
        save_mode: "Sandbox".to_string(),
        save_name: "World".to_string(),
        overwrite_confirmed,
    }
}

fn follow(request: DownloadRequest, events: Vec<DownloadEvent>) -> (Download, Vec<(u8, String)>) {
    let (mut download, reports) = Download::begin(request);
    let mut told: Vec<(u8, String)> =
        reports.into_iter().map(|report| (report.percent, report.message)).collect();
    for event in events {
        let (next, reports) = download.handle(event);
        download = next;
        told.extend(reports.into_iter().map(|report| (report.percent, report.message)));
    }
    (download, told)
}

fn outcome(download: &Download) -> Result<String, String> {
    match download.action() {
        DownloadAction::Finish { outcome } => outcome,
        _ => panic!("the download goes on"),
    }
}

fn done() -> DownloadEvent {
    DownloadEvent::Done(Ok(()))
}

fn undone() -> DownloadEvent {
    DownloadEvent::Done(Err("e".to_string()))
}

fn replied(status: u16, content_length: Option<u64>, body: &str) -> DownloadEvent {
    DownloadEvent::Replied(Ok(SnapshotReply { status, content_length, body: body.to_string() }))
}

/// The events of a download up to a network client.
fn connected(exists: bool) -> Vec<DownloadEvent> {
    vec![
        DownloadEvent::Processes(None),
        DownloadEvent::Found(true),
        DownloadEvent::Found(exists),
        done(),
    ]
}

/// The events of a download up to the unpacked save.
fn unpacked(exists: bool, unpacked: DownloadEvent) -> Vec<DownloadEvent> {
    let mut events = connected(exists);
    events.extend(vec![
        replied(200, Some(10), ""),
        done(),
        DownloadEvent::Received(Ok(4)),
        done(),
        DownloadEvent::Received(Ok(6)),
        done(),
        DownloadEvent::Received(Ok(0)),
        done(),
        done(),
        unpacked,
        undone(),
    ]);
    events
}

fn after(exists: bool, more: Vec<DownloadEvent>) -> (Download, Vec<(u8, String)>) {
    let mut events = unpacked(exists, done());
    events.extend(more);
    follow(request(true), events)
}

#[test]
fn a_download_replaces_a_save_and_keeps_a_backup() {
    let (download, _) = follow(request(true), connected(true));
    let DownloadAction::Request { url, authorization } = download.action() else {
        panic!("the server is asked");
    };
    assert_eq!(url, "https://sync.example/v1/snapshot?saveMode=Sandbox&saveName=World");
    assert_eq!(authorization, "Bearer key");
    let (download, told) = after(true, vec![]);
    assert!(matches!(download.action(), DownloadAction::SetAside));
    let expected = [
        (0, "正在检查游戏状态..."),
        (100, "游戏状态检查完成"),
        (0, "正在连接 VPS..."),
        (0, "正在下载：0/10 字节"),
        (40, "正在下载：4/10 字节"),
        (100, "正在下载：10/10 字节"),
        (100, "下载完成：10 字节"),
        (0, "正在覆盖本地存档..."),
    ];
    assert_eq!(told, expected.map(|(percent, message)| (percent, message.to_string())));
    let (download, _) = after(true, vec![done()]);
    assert!(matches!(download.action(), DownloadAction::MoveIn));
    let (download, told) = after(true, vec![done(), done()]);
    assert_eq!(outcome(&download), Ok("下载完成：Sandbox/World".to_string()));
    assert_eq!(
        told[8..],
        [(100, "本地存档覆盖完成".to_string()), (100, "存档解压完成".to_string())]
    );
}

#[test]
fn every_step_of_a_download_has_its_turn() {
    let mut seen = Vec::new();
    let (mut download, _) = Download::begin(request(false));
    for event in unpacked(false, done()) {
        seen.push(download.action());
        download = download.handle(event).0;
    }
    assert!(matches!(seen[0], DownloadAction::ListProcesses));
    assert!(matches!(seen[1], DownloadAction::CheckRoot));
    assert!(matches!(seen[2], DownloadAction::CheckTarget));
    assert!(matches!(seen[3], DownloadAction::BuildClient));
    assert!(matches!(seen[4], DownloadAction::Request { .. }));
    assert!(matches!(seen[5], DownloadAction::CreateArchive));
    assert!(matches!(seen[6], DownloadAction::Receive));
    assert!(matches!(seen[7], DownloadAction::Store));
    assert!(matches!(seen[10], DownloadAction::Receive));
    assert!(matches!(seen[11], DownloadAction::Flush));
    assert!(matches!(seen[12], DownloadAction::CreateModeDirectory));
    assert!(matches!(seen[13], DownloadAction::Unpack));
    assert!(matches!(seen[14], DownloadAction::RemoveArchive));
    assert!(matches!(download.action(), DownloadAction::MoveIn));
    let (download, _) = download.handle(done());
    assert_eq!(outcome(&download), Ok("下载完成：Sandbox/World".to_string()));
}

#[test]
fn a_download_is_refused_before_the_server_is_asked() {
    let game = DownloadEvent::Processes(Some("projectzomboid".to_string()));
    let (download, told) = follow(request(true), vec![game]);
    assert_eq!(told.len(), 1);
    assert_eq!(
        outcome(&download),
        Err("检测到 Project Zomboid 正在运行，请先退出游戏".to_string())
    );
    let events = vec![DownloadEvent::Processes(None), DownloadEvent::Found(false)];
    let (download, _) = follow(request(true), events);
    assert_eq!(outcome(&download), Err("Saves 目录不存在".to_string()));
    let checked = || vec![DownloadEvent::Processes(None), DownloadEvent::Found(true)];
    let bad_mode = DownloadRequest { save_mode: "a:b".to_string(), ..request(true) };
    assert_eq!(
        outcome(&follow(bad_mode, checked()).0),
        Err("无效的 远程存档模式".to_string())
    );
    let bad_name = DownloadRequest { save_name: String::new(), ..request(true) };
    assert_eq!(
        outcome(&follow(bad_name, checked()).0),
        Err("无效的 远程存档名称".to_string())
    );
    let mut events = checked();
    events.push(DownloadEvent::Found(true));
    assert_eq!(
        outcome(&follow(request(false), events).0),
        Err("本地已存在同名存档，需要确认覆盖后才能下载".to_string())
    );
    let mut events = checked();
    events.extend(vec![DownloadEvent::Found(false), undone()]);
    assert_eq!(
        outcome(&follow(request(false), events).0),
        Err("创建网络客户端失败: e".to_string())
    );
    let lost = DownloadRequest { endpoint: "nowhere".to_string(), ..request(false) };
    assert_eq!(
        outcome(&follow(lost, connected(false)).0),
        Err("VPS API 地址无效: relative URL without a base".to_string())
    );
}

#[test]
fn a_download_tells_what_went_wrong() {
    let error = TransportError { message: "lost".to_string(), causes: vec!["reset".to_string()] };
    let accepted = || replied(200, None, "");
    let courses = vec![
        (vec![DownloadEvent::Replied(Err(error))], "下载失败: lost: reset"),
        (vec![replied(404, Some(3), "no")], "下载失败（HTTP 404）: no"),
        (vec![accepted(), undone()], "创建下载临时文件失败: e"),
        (
            vec![accepted(), done(), DownloadEvent::Received(Err("e".to_string()))],
            "下载数据失败: e",
        ),
        (
            vec![accepted(), done(), DownloadEvent::Received(Ok(1)), undone()],
            "保存下载文件失败: e",
        ),
        (
            vec![accepted(), done(), DownloadEvent::Received(Ok(0)), undone()],
            "保存下载文件失败: e",
        ),
        (
            vec![accepted(), done(), DownloadEvent::Received(Ok(0)), done(), undone()],
            "创建存档模式目录失败: e",
        ),
    ];
    for (more, message) in courses {
        let mut events = connected(false);
        events.extend(more);
        let (download, _) = follow(request(false), events);
        assert_eq!(outcome(&download), Err(message.to_string()));
    }
}

#[test]
fn without_a_length_only_bytes_are_reported() {
    let mut events = connected(false);
    events.extend(vec![
        replied(206, None, ""),
        done(),
        DownloadEvent::Received(Ok(5)),
        done(),
        DownloadEvent::Received(Ok(7)),
        done(),
    ]);
    let (_, told) = follow(request(false), events);
    assert_eq!(
        told[3..],
        [
            (0, "正在下载：0/0 字节".to_string()),
            (0, "正在下载：5 字节".to_string()),
            (0, "正在下载：12 字节".to_string())
        ]
    );
}

#[test]
fn a_failed_download_leaves_the_save_in_its_place() {
    let broken = DownloadEvent::Done(Err("压缩包损坏: x".to_string()));
    let (download, _) = follow(request(true), unpacked(true, broken));
    assert!(matches!(download.action(), DownloadAction::RemoveStaging));
    let (download, _) = download.handle(done());
    assert_eq!(outcome(&download), Err("压缩包损坏: x".to_string()));
    let (download, _) = after(true, vec![undone()]);
    assert!(matches!(download.action(), DownloadAction::RemoveStaging));
    let (download, _) = download.handle(undone());
    assert_eq!(outcome(&download), Err("准备覆盖本地同名存档失败: e".to_string()));
    let (download, _) = after(true, vec![done(), undone()]);
    assert!(matches!(download.action(), DownloadAction::RemoveStaging));
    let (download, _) = download.handle(done());
    assert!(matches!(download.action(), DownloadAction::Restore));
    let (download, _) = download.handle(done());
    assert_eq!(outcome(&download), Err("写入下载存档失败: e".to_string()));
    let (download, _) = after(false, vec![undone(), done()]);
    assert_eq!(outcome(&download), Err("写入下载存档失败: e".to_string()));
}

fn manifest(name: &str) -> RemoteManifest {
    RemoteManifest {
        exists: true,
        bytes: Some(5),
        updated_at: None,
        save_mode: "Sandbox".to_string(),
        save_name: name.to_string(),
        device_name: Some("desk".to_string()),
    }
}

fn listing() -> RemoteListing {
    RemoteListing::begin("https://sync.example/".to_string(), "key".to_string())
}

fn reply(status: u16, body: &str) -> Result<HttpReply, TransportError> {
    Ok(HttpReply { status, body: body.to_string() })
}

fn lost() -> Result<HttpReply, TransportError> {
    Err(TransportError { message: "lost".to_string(), causes: vec!["reset".to_string()] })
}

#[test]
fn the_saves_on_the_server_are_listed() {
    assert!(matches!(listing().action(), RemoteAction::BuildClient));
    let asked = listing().handle(ListEvent::Built(Ok(())));
    let RemoteAction::Send { url, authorization } = asked.action() else {
        panic!("the server is asked");
    };
    assert_eq!(url, "https://sync.example/v1/saves");
    assert_eq!(authorization, "Bearer key");
    let list = RemoteSaveList { saves: vec![manifest("b"), manifest("a")], total_bytes: 17 };
    let answer = ListAnswer { outcome: reply(200, "{}"), parsed: Ok(list) };
    let listed = asked.handle(ListEvent::Answered(answer));
    assert!(matches!(listed.action(), RemoteAction::Finish));
    let library = listed.outcome().unwrap().unwrap();
    assert_eq!(library.saves, vec![manifest("b"), manifest("a")]);
    assert_eq!(library.total_bytes, 17);
}

#[test]
fn a_list_that_cannot_be_had_tells_why() {
    let unbuilt = listing().handle(ListEvent::Built(Err("e".to_string())));
    assert_eq!(unbuilt.outcome(), Some(Err("创建网络客户端失败: e".to_string())));
    assert_eq!(listing().outcome(), None);
    for (outcome, message) in [
        (lost(), "读取 VPS 存档信息失败: lost: reset"),
        (reply(401, "no"), "读取 VPS 存档信息失败（HTTP 401）: no"),
        (reply(200, "x"), "VPS 存档列表格式错误: bad"),
    ] {
        let answer = ListAnswer { outcome, parsed: Err("bad".to_string()) };
        let answered =
            listing().handle(ListEvent::Built(Ok(()))).handle(ListEvent::Answered(answer));
        assert_eq!(answered.outcome(), Some(Err(message.to_string())));
    }
}

fn deletion(endpoint: &str, save_mode: &str, save_name: &str) -> RemoteDeletion {
    RemoteDeletion::begin(DeletionRequest {
        endpoint: endpoint.to_string(),
        sync_key: "key".to_string(),
        save_mode: save_mode.to_string(),
        save_name: save_name.to_string(),
    })
}

#[test]
fn a_save_on_the_server_is_deleted_by_mode_and_name() {
    let begun = deletion("https://sync.example", "Sandbox", "My World");
    assert!(matches!(begun.action(), RemoteAction::BuildClient));
    let asked = begun.handle(DeleteEvent::Built(Ok(())));
    let RemoteAction::Send { url, authorization } = asked.action() else {
        panic!("the server is asked");
    };
    assert_eq!(url, "https://sync.example/v1/saves?saveMode=Sandbox&saveName=My+World");
    assert_eq!(authorization, "Bearer key");
    assert_eq!(asked.outcome(), None);
    let deleted = asked.handle(DeleteEvent::Answered(reply(204, "")));
    assert_eq!(deleted.outcome(), Some(Ok("已删除 VPS 存档：Sandbox/My World".to_string())));
}

#[test]
fn a_deletion_that_is_refused_tells_why() {
    for (endpoint, mode, name, message) in [
        ("https://sync.example", "..", "n", "无效的 远程存档模式"),
        ("https://sync.example", "m", "a\\b", "无效的 远程存档名称"),
        ("nowhere", "m", "n", "VPS API 地址无效: relative URL without a base"),
    ] {
        let refused = deletion(endpoint, mode, name);
        assert!(matches!(refused.action(), RemoteAction::Finish));
        assert_eq!(refused.outcome(), Some(Err(message.to_string())));
    }
    let built = || deletion("https://sync.example", "m", "n").handle(DeleteEvent::Built(Ok(())));
    let unbuilt = deletion("https://sync.example", "m", "n")
        .handle(DeleteEvent::Built(Err("e".to_string())));
    assert_eq!(unbuilt.outcome(), Some(Err("创建网络客户端失败: e".to_string())));
    for (outcome, message) in [
        (lost(), "删除 VPS 存档失败: lost: reset"),
        (reply(409, "busy"), "删除 VPS 存档失败（HTTP 409）: busy"),
    ] {
        let answered = built().handle(DeleteEvent::Answered(outcome));
        assert_eq!(answered.outcome(), Some(Err(message.to_string())));
    }
}

#[test]
fn an_unclean_name_is_refused_whatever_the_server_says() {
    let request = |save_mode: &str, save_name: &str| DeletionRequest {
        endpoint: "https://sync.example".to_string(),
        sync_key: "key".to_string(),
        save_mode: save_mode.to_string(),
        save_name: save_name.to_string(),
    };
    for outcome in [|| reply(204, ""), || reply(500, "no"), lost] {
        assert_eq!(
            delete_remote_save(&request("..", "n"), outcome()),
            Err("无效的 远程存档模式".to_string())
        );
        assert_eq!(
            delete_remote_save(&request("m", "a/b"), outcome()),
            Err("无效的 远程存档名称".to_string())
        );
    }
    assert_eq!(
        delete_remote_save(&request("m", "n"), reply(204, "")),
        Ok("已删除 VPS 存档：m/n".to_string())
    );
}

#[test]
fn a_request_that_fits_into_a_url_is_told_from_one_that_does_not() {
    check_bounds("a".repeat(67108864 - 28 - 12), true);
    check_bounds("a".repeat(67108864 - 28 - 11), false);
}

fn check_bounds(endpoint: String, fits: bool) {
    let longer = format!("{endpoint}aaa");
    assert_eq!(DownloadRequest { endpoint, ..request(true) }.fits_in_a_url(), fits);
    let deletion = DeletionRequest {
        endpoint: longer,
        sync_key: String::new(),
        save_mode: "Sandbox".to_string(),
        save_name: "World".to_string(),
    };
    assert_eq!(deletion.fits_in_a_url(), fits);
}
