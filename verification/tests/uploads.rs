use zomboid_save_sync::chunks::CHUNK_SIZE;
use zomboid_save_sync::digest::sha256_bytes;
use zomboid_save_sync::http::{HttpReply, TransportError};
use zomboid_save_sync::legacy::{LegacyAction, LegacyEvent, LegacyUpload};
use zomboid_save_sync::paths::{archive_file, cache_directory, resume_file, LocalPath};
use zomboid_save_sync::progress::UploadProgress;
use zomboid_save_sync::resume::{
    new_resume_state, PreparedArchive, ResumeState, StatusAnswer, UploadStatus,
};
use zomboid_save_sync::upload::machine::Upload;
use zomboid_save_sync::upload::types::{
    ChunkRead, SessionAnswer, UploadAction, UploadEvent, UploadRequest,
};

const ENDPOINT: &str = "https://sync.example/";
const KEY: &str = "a-sync-key";

fn request() -> UploadRequest {
    UploadRequest {
        save_path: "/saves/Sandbox/World".to_string(),
        save_mode: "Sandbox".to_string(),
        save_name: "World".to_string(),
        endpoint: ENDPOINT.to_string(),
        sync_key: KEY.to_string(),
        device_name: "desk".to_string(),
        overwrite_confirmed: true,
    }
}

fn cache() -> LocalPath {
    cache_directory("Sandbox", "World")
}

fn archive(bytes: u64) -> PreparedArchive {
    PreparedArchive {
        path: archive_file(cache()),
        file_count: 3,
        bytes,
        fingerprint: "f".repeat(64),
        zip_sha256: "a".repeat(64),
        cache_dir: cache(),
        reused: false,
    }
}

fn reply(status: u16, body: &str) -> Result<HttpReply, TransportError> {
    Ok(HttpReply { status, body: body.to_string() })
}

fn lost() -> Result<HttpReply, TransportError> {
    Err(TransportError { message: "lost".to_string(), causes: vec!["reset".to_string()] })
}

fn texts(reports: &[UploadProgress]) -> Vec<(u8, String)> {
    reports.iter().map(|report| (report.percent, report.message.clone())).collect()
}

/// Hands events to an upload one after the other, and collects what is reported.
fn follow(upload: Upload, events: Vec<UploadEvent>) -> (Upload, Vec<(u8, String)>) {
    let mut upload = upload;
    let mut told = Vec::new();
    for event in events {
        let (next, reports) = upload.handle(event);
        upload = next;
        told.extend(texts(&reports));
    }
    (upload, told)
}

fn finished(upload: &Upload) -> Result<String, String> {
    match upload.action() {
        UploadAction::Finish { outcome } => outcome,
        _ => panic!("the upload goes on"),
    }
}

/// An upload of `bytes` bytes that has come as far as looking for a stored state.
fn prepared(bytes: u64) -> Upload {
    let (upload, _) = Upload::begin(request());
    follow(
        upload,
        vec![
            UploadEvent::Processes(Some("sh".to_string())),
            UploadEvent::SourceIsDirectory(true),
            UploadEvent::Archive(Ok(archive(bytes))),
            UploadEvent::Client(Ok(())),
        ],
    )
    .0
}

fn new_session() -> UploadEvent {
    UploadEvent::Session(SessionAnswer {
        outcome: reply(201, "{}"),
        parsed: Ok("id7".to_string()),
    })
}

/// An upload of `bytes` bytes with a new session, about to read its first chunk.
fn sending(bytes: u64) -> Upload {
    follow(
        prepared(bytes),
        vec![
            UploadEvent::SavedResume(None),
            new_session(),
            UploadEvent::ResumeStored(Ok(())),
            UploadEvent::Opened(Ok(())),
        ],
    )
    .0
}

fn stored(bytes: u64) -> ResumeState {
    new_resume_state(
        ENDPOINT,
        KEY,
        "Sandbox",
        "World",
        &archive(bytes),
        CHUNK_SIZE,
        bytes.div_ceil(CHUNK_SIZE),
        "id7".to_string(),
    )
}

fn status(bytes: u64, completed: Vec<u64>) -> UploadStatus {
    UploadStatus {
        upload_id: "id7".to_string(),
        total_bytes: bytes,
        chunk_size: CHUNK_SIZE,
        chunk_count: bytes.div_ceil(CHUNK_SIZE),
        save_mode: "Sandbox".to_string(),
        save_name: "World".to_string(),
        zip_sha256: "a".repeat(64),
        completed_chunks: completed,
    }
}

#[test]
fn an_upload_goes_through_all_its_stages() {
    let bytes = CHUNK_SIZE + 5;
    let (upload, first) = Upload::begin(request());
    assert_eq!(texts(&first), [(0, "正在检查游戏状态...".to_string())]);
    assert!(matches!(upload.action(), UploadAction::ListProcesses));
    let (upload, told) = follow(upload, vec![UploadEvent::Processes(None)]);
    assert_eq!(told, [(100, "游戏状态检查完成".to_string())]);
    assert!(matches!(
        upload.action(),
        UploadAction::CheckSource { path } if path == "/saves/Sandbox/World"
    ));
    let (upload, _) = follow(upload, vec![UploadEvent::SourceIsDirectory(true)]);
    assert!(matches!(upload.action(), UploadAction::PrepareArchive));
    let (upload, _) = follow(upload, vec![UploadEvent::Archive(Ok(archive(bytes)))]);
    assert!(matches!(upload.action(), UploadAction::BuildClient));
    let (upload, _) = follow(upload, vec![UploadEvent::Client(Ok(()))]);
    assert!(matches!(
        upload.action(),
        UploadAction::LoadResume { file } if file == resume_file(cache())
    ));
    let (upload, told) = follow(upload, vec![UploadEvent::SavedResume(None)]);
    assert_eq!(told, [(0, "正在创建上传会话...".to_string())]);
    let UploadAction::CreateSession { url, authorization, session } = upload.action() else {
        panic!("a session is created");
    };
    assert_eq!(authorization, "Bearer a-sync-key");
    assert_eq!(url, "https://sync.example/v1/uploads");
    assert_eq!(session.total_bytes, bytes);
    assert_eq!(session.chunk_size, CHUNK_SIZE);
    assert_eq!(session.chunk_count, 2);
    assert_eq!(session.save_mode, "Sandbox");
    assert_eq!(session.save_name, "World");
    assert_eq!(session.device_name, "desk");
    assert_eq!(session.game_version, "Unknown");
    assert!(session.overwrite_confirmed);
    assert_eq!(session.zip_sha256, "a".repeat(64));
    let (upload, _) = follow(upload, vec![new_session()]);
    let UploadAction::StoreResume { file, state } = upload.action() else {
        panic!("the session is stored");
    };
    assert_eq!(file, resume_file(cache()));
    assert_eq!(state.upload_id, "id7");
    assert_eq!(state.schema_version, 1);
    assert_eq!(state.chunk_count, 2);
    assert_eq!(state.sync_key_hash, sha256_bytes(KEY.as_bytes()));
    assert_eq!(state.endpoint_hash, sha256_bytes(b"https://sync.example"));
    let (upload, told) = follow(upload, vec![UploadEvent::ResumeStored(Ok(()))]);
    assert_eq!(told, [(0, "正在上传：已完成 0/2 块".to_string())]);
    assert!(matches!(
        upload.action(),
        UploadAction::OpenArchive { file } if file == archive_file(cache())
    ));
    let (upload, _) = follow(upload, vec![UploadEvent::Opened(Ok(()))]);
    assert!(matches!(
        upload.action(),
        UploadAction::ReadChunk { offset: 0, length: CHUNK_SIZE }
    ));
    let chunk = vec![7u8; CHUNK_SIZE as usize];
    let (upload, _) = follow(upload, vec![UploadEvent::Chunk(ChunkRead::Bytes(chunk.clone()))]);
    let UploadAction::SendChunk { delay_seconds, url, authorization, digest, bytes: sent } =
        upload.action()
    else {
        panic!("the chunk is sent");
    };
    assert_eq!(authorization, "Bearer a-sync-key");
    assert_eq!(delay_seconds, 0);
    assert_eq!(url, "https://sync.example/v1/uploads/id7/chunks/0");
    assert_eq!(digest, sha256_bytes(&chunk));
    assert_eq!(sent, chunk);
    let (upload, told) = follow(upload, vec![UploadEvent::Sent(reply(200, ""))]);
    assert_eq!(told, [(99, "正在上传：已完成 1/2 块".to_string())]);
    assert!(matches!(
        upload.action(),
        UploadAction::ReadChunk { offset: CHUNK_SIZE, length: 5 }
    ));
    let (upload, told) = follow(
        upload,
        vec![
            UploadEvent::Chunk(ChunkRead::Bytes(vec![1, 2, 3, 4, 5])),
            UploadEvent::Sent(reply(204, "")),
        ],
    );
    assert_eq!(
        told,
        [
            (100, "正在上传：已完成 2/2 块".to_string()),
            (0, "服务器正在保存存档...".to_string())
        ]
    );
    assert!(matches!(
        upload.action(),
        UploadAction::CompleteUpload { url, authorization }
            if url == "https://sync.example/v1/uploads/id7/complete"
                && authorization == "Bearer a-sync-key"
    ));
    let (upload, _) = follow(upload, vec![UploadEvent::Completed(reply(200, ""))]);
    assert!(matches!(
        upload.action(),
        UploadAction::RemoveResume { file } if file == resume_file(cache())
    ));
    let (upload, told) = follow(upload, vec![UploadEvent::ResumeRemoved]);
    assert_eq!(told, [(100, "服务器保存完成".to_string())]);
    assert_eq!(
        finished(&upload),
        Ok("上传完成：Sandbox/World，3 个文件，压缩后 262149 字节，共 2 块".to_string())
    );
}

#[test]
fn a_running_game_blocks_uploads() {
    let message = "检测到 Project Zomboid 正在运行，请先退出游戏";
    let (upload, _) = Upload::begin(request());
    let game = Some("ProjectZomboid64.exe".to_string());
    let (upload, told) = follow(upload, vec![UploadEvent::Processes(game.clone())]);
    assert!(told.is_empty());
    assert_eq!(finished(&upload), Err(message.to_string()));
    let legacy = LegacyUpload::begin(request()).handle(LegacyEvent::Processes(game));
    assert!(matches!(
        legacy.action(),
        LegacyAction::Finish { outcome: Err(e) } if e == message
    ));
}

#[test]
fn an_upload_needs_clean_names_and_a_save() {
    let (upload, _) = Upload::begin(UploadRequest { save_mode: "..".to_string(), ..request() });
    let (upload, _) = follow(upload, vec![UploadEvent::Processes(None)]);
    assert_eq!(finished(&upload), Err("无效的 存档模式".to_string()));
    let (upload, _) = Upload::begin(UploadRequest { save_name: "a/b".to_string(), ..request() });
    let (upload, _) = follow(upload, vec![UploadEvent::Processes(None)]);
    assert_eq!(finished(&upload), Err("无效的 存档名称".to_string()));
    let (upload, _) = Upload::begin(request());
    let (upload, _) = follow(
        upload,
        vec![UploadEvent::Processes(None), UploadEvent::SourceIsDirectory(false)],
    );
    assert_eq!(finished(&upload), Err("本地存档目录不存在".to_string()));
}

#[test]
fn a_failure_before_the_first_chunk_ends_an_upload() {
    let failures = [
        (
            UploadEvent::Session(SessionAnswer { outcome: lost(), parsed: Err(String::new()) }),
            "创建上传会话失败: lost",
        ),
        (
            UploadEvent::Session(SessionAnswer {
                outcome: reply(507, "full"),
                parsed: Err(String::new()),
            }),
            "创建上传会话失败（HTTP 507）: full",
        ),
        (
            UploadEvent::Session(SessionAnswer {
                outcome: reply(200, "x"),
                parsed: Err("bad".to_string()),
            }),
            "上传会话格式错误: bad",
        ),
    ];
    for (event, message) in failures {
        let (upload, _) = follow(prepared(9), vec![UploadEvent::SavedResume(None), event]);
        assert_eq!(finished(&upload), Err(message.to_string()));
    }
    let (upload, _) = follow(
        prepared(9),
        vec![
            UploadEvent::SavedResume(None),
            new_session(),
            UploadEvent::ResumeStored(Err("写入缓存失败: full".to_string())),
        ],
    );
    assert_eq!(finished(&upload), Err("写入缓存失败: full".to_string()));
    let (upload, _) = follow(
        prepared(9),
        vec![
            UploadEvent::SavedResume(None),
            new_session(),
            UploadEvent::ResumeStored(Ok(())),
            UploadEvent::Opened(Err("gone".to_string())),
        ],
    );
    assert_eq!(finished(&upload), Err("打开压缩包失败: gone".to_string()));
    for (read, message) in [
        (ChunkRead::SeekFailed("e".to_string()), "定位上传分块失败: e"),
        (ChunkRead::ReadFailed("e".to_string()), "读取上传分块失败: e"),
    ] {
        let (upload, _) = follow(sending(9), vec![UploadEvent::Chunk(read)]);
        assert_eq!(finished(&upload), Err(message.to_string()));
    }
}

#[test]
fn a_temporary_failure_is_retried_three_times() {
    let (mut upload, _) =
        follow(sending(2), vec![UploadEvent::Chunk(ChunkRead::Bytes(vec![1, 2]))]);
    for (retry, delay) in [(1, 1), (2, 2), (3, 4)] {
        let failure = if retry == 2 { reply(503, "busy") } else { lost() };
        let (next, told) = follow(upload, vec![UploadEvent::Sent(failure)]);
        assert_eq!(told, [(0, format!("第 1 块上传中断，正在重试 {retry}/3..."))]);
        assert!(matches!(
            next.action(),
            UploadAction::SendChunk { delay_seconds, bytes, .. }
                if delay_seconds == delay && bytes == vec![1, 2]
        ));
        upload = next;
    }
    let (upload, _) = follow(upload, vec![UploadEvent::Sent(lost())]);
    assert_eq!(
        finished(&upload),
        Err("上传第 1 块失败，重试 3 次后仍未成功: lost: reset".to_string())
    );
}

#[test]
fn a_permanent_failure_is_not_retried() {
    let (upload, _) = follow(
        sending(2),
        vec![
            UploadEvent::Chunk(ChunkRead::Bytes(vec![1, 2])),
            UploadEvent::Sent(reply(401, "no")),
        ],
    );
    assert_eq!(finished(&upload), Err("上传第 1 块失败: HTTP 401: no".to_string()));
}

#[test]
fn an_interrupted_upload_is_resumed_where_it_was() {
    let bytes = 3 * CHUNK_SIZE;
    let (upload, told) =
        follow(prepared(bytes), vec![UploadEvent::SavedResume(Some(stored(bytes)))]);
    assert_eq!(told, [(0, "发现可续传任务，正在查询 VPS...".to_string())]);
    assert!(matches!(
        upload.action(),
        UploadAction::QueryStatus { url, authorization }
            if url == "https://sync.example/v1/uploads/id7"
                && authorization == "Bearer a-sync-key"
    ));
    let answer = StatusAnswer { outcome: reply(200, "{}"), parsed: Ok(status(bytes, vec![0, 2])) };
    let (upload, told) = follow(
        upload,
        vec![UploadEvent::Status(answer), UploadEvent::Opened(Ok(()))],
    );
    assert_eq!(told, [(66, "正在上传：已完成 2/3 块".to_string())]);
    assert!(matches!(
        upload.action(),
        UploadAction::ReadChunk { offset: CHUNK_SIZE, length: CHUNK_SIZE }
    ));
    let (upload, told) = follow(
        upload,
        vec![
            UploadEvent::Chunk(ChunkRead::Bytes(vec![0; CHUNK_SIZE as usize])),
            UploadEvent::Sent(reply(200, "")),
        ],
    );
    assert_eq!(told[0], (100, "正在上传：已完成 3/3 块".to_string()));
    assert!(matches!(upload.action(), UploadAction::CompleteUpload { .. }));
}

/// Answers the requests of an upload until the server is to put the chunks together; every second
/// attempt to send a chunk is lost. Returns the addresses and the bodies of what arrives.
fn arriving(upload: Upload, content: &[u8]) -> Vec<(String, Vec<u8>)> {
    let mut upload = upload;
    let mut arrived = Vec::new();
    let mut attempts = 0;
    loop {
        let event = match upload.action() {
            UploadAction::OpenArchive { .. } => UploadEvent::Opened(Ok(())),
            UploadAction::ReadChunk { offset, length } => {
                let from = offset as usize;
                UploadEvent::Chunk(ChunkRead::Bytes(content[from..from + length as usize].to_vec()))
            }
            UploadAction::SendChunk { url, digest, bytes, .. } => {
                attempts += 1;
                assert_eq!(digest, sha256_bytes(&bytes));
                if attempts % 2 == 0 {
                    UploadEvent::Sent(lost())
                } else {
                    arrived.push((url, bytes));
                    UploadEvent::Sent(reply(200, ""))
                }
            }
            UploadAction::CompleteUpload { .. } => return arrived,
            _ => panic!("the upload does something else"),
        };
        upload = upload.handle(event).0;
    }
}

/// The content of an archive of three chunks.
fn content() -> Vec<u8> {
    (0..2 * CHUNK_SIZE + 5).map(|i| (i % 251) as u8).collect()
}

#[test]
fn the_bodies_of_a_new_upload_are_the_archive() {
    let content = content();
    let bytes = content.len() as u64;
    let (upload, _) = follow(
        prepared(bytes),
        vec![UploadEvent::SavedResume(None), new_session(), UploadEvent::ResumeStored(Ok(()))],
    );
    let arrived = arriving(upload, &content);
    let urls: Vec<&str> = arrived.iter().map(|(url, _)| url.as_str()).collect();
    assert_eq!(
        urls,
        [
            "https://sync.example/v1/uploads/id7/chunks/0",
            "https://sync.example/v1/uploads/id7/chunks/1",
            "https://sync.example/v1/uploads/id7/chunks/2"
        ]
    );
    let joined: Vec<u8> = arrived.into_iter().flat_map(|(_, bytes)| bytes).collect();
    assert!(joined == content);
}

#[test]
fn a_resumed_upload_sends_exactly_the_missing_chunks() {
    let content = content();
    let bytes = content.len() as u64;
    let size = CHUNK_SIZE as usize;
    for (had, missing) in
        [(vec![1], vec![0, 2]), (vec![2, 0], vec![1]), (vec![0, 1, 2], vec![]), (vec![0], vec![1, 2])]
    {
        let answer = StatusAnswer { outcome: reply(200, "{}"), parsed: Ok(status(bytes, had)) };
        let (upload, _) = follow(
            prepared(bytes),
            vec![UploadEvent::SavedResume(Some(stored(bytes))), UploadEvent::Status(answer)],
        );
        let expected: Vec<(String, Vec<u8>)> = missing
            .into_iter()
            .map(|index: usize| {
                let end = content.len().min((index + 1) * size);
                (
                    format!("https://sync.example/v1/uploads/id7/chunks/{index}"),
                    content[index * size..end].to_vec(),
                )
            })
            .collect();
        assert!(arriving(upload, &content) == expected);
    }
}

#[test]
fn what_cannot_be_resumed_is_uploaded_anew() {
    let bytes = 9;
    let other_archive = ResumeState { zip_sha256: "b".repeat(64), ..stored(bytes) };
    let (upload, _) = follow(prepared(bytes), vec![UploadEvent::SavedResume(Some(other_archive))]);
    assert!(matches!(upload.action(), UploadAction::CreateSession { .. }));
    let unconfirmed = [
        StatusAnswer { outcome: reply(404, ""), parsed: Err(String::new()) },
        StatusAnswer { outcome: reply(500, "HTTP 404"), parsed: Err(String::new()) },
        StatusAnswer { outcome: reply(200, ""), parsed: Ok(status(bytes + 1, Vec::new())) },
    ];
    for answer in unconfirmed {
        let (upload, _) = follow(
            prepared(bytes),
            vec![UploadEvent::SavedResume(Some(stored(bytes))), UploadEvent::Status(answer)],
        );
        assert!(matches!(upload.action(), UploadAction::CreateSession { .. }));
    }
    let failures = [
        (
            StatusAnswer { outcome: lost(), parsed: Err(String::new()) },
            "查询上传进度失败: lost: reset",
        ),
        (
            StatusAnswer { outcome: reply(500, "x"), parsed: Err(String::new()) },
            "查询上传进度失败（HTTP 500）: x",
        ),
        (
            StatusAnswer { outcome: reply(200, "x"), parsed: Err("bad".to_string()) },
            "上传进度格式错误: bad",
        ),
    ];
    for (answer, message) in failures {
        let (upload, _) = follow(
            prepared(bytes),
            vec![UploadEvent::SavedResume(Some(stored(bytes))), UploadEvent::Status(answer)],
        );
        assert_eq!(finished(&upload), Err(message.to_string()));
    }
}

#[test]
fn conflicts_on_the_server_forget_the_session() {
    let complete = || {
        follow(
            sending(2),
            vec![
                UploadEvent::Chunk(ChunkRead::Bytes(vec![1, 2])),
                UploadEvent::Sent(reply(200, "")),
            ],
        )
        .0
    };
    for (body, message) in [
        (
            "{\"error\":\"remote_snapshot_changed\"}",
            "VPS 同名存档已被其他设备更新，请刷新列表并重新确认覆盖",
        ),
        ("assembled_verification_failed", "服务器校验上传分片失败，下次上传将创建新会话"),
    ] {
        let (upload, _) = follow(complete(), vec![UploadEvent::Completed(reply(409, body))]);
        assert!(matches!(upload.action(), UploadAction::RemoveResume { .. }));
        let (upload, told) = follow(upload, vec![UploadEvent::ResumeRemoved]);
        assert!(told.is_empty());
        assert_eq!(finished(&upload), Err(message.to_string()));
    }
    for (outcome, message) in [
        (reply(409, "other"), "完成上传失败（HTTP 409）: other"),
        (reply(500, "remote_snapshot_changed"), "完成上传失败（HTTP 500）: remote_snapshot_changed"),
        (lost(), "完成上传失败: lost"),
    ] {
        let (upload, _) = follow(complete(), vec![UploadEvent::Completed(outcome)]);
        assert_eq!(finished(&upload), Err(message.to_string()));
    }
}

#[test]
fn an_event_out_of_turn_changes_nothing() {
    let (upload, told) = follow(
        sending(2),
        vec![UploadEvent::Completed(reply(200, "")), UploadEvent::Opened(Err("x".to_string()))],
    );
    assert!(told.is_empty());
    assert!(matches!(upload.action(), UploadAction::ReadChunk { offset: 0, length: 2 }));
}

#[test]
fn an_upload_in_one_piece_removes_its_archive() {
    let mut upload = LegacyUpload::begin(request());
    for event in [
        LegacyEvent::Processes(None),
        LegacyEvent::SourceChecked(true),
        LegacyEvent::Compressed(Ok(3)),
        LegacyEvent::Measured(Ok(77)),
        LegacyEvent::Done(Ok(())),
        LegacyEvent::Done(Ok(())),
    ] {
        upload = upload.handle(event);
    }
    let LegacyAction::Send {
        url,
        authorization,
        content_length,
        save_mode,
        save_name,
        device_name,
    } = upload.action() else {
        panic!("the archive is sent");
    };
    assert_eq!(url, "https://sync.example/v1/snapshot");
    assert_eq!(authorization, "Bearer a-sync-key");
    assert_eq!(content_length, 77);
    assert_eq!((save_mode.as_str(), save_name.as_str()), ("Sandbox", "World"));
    assert_eq!(device_name, "desk");
    let upload = upload.handle(LegacyEvent::Answered(reply(200, "")));
    assert!(matches!(upload.action(), LegacyAction::RemoveArchive));
    let upload = upload.handle(LegacyEvent::Done(Err("busy".to_string())));
    assert!(matches!(
        upload.action(),
        LegacyAction::Finish { outcome: Ok(m) }
            if m == "上传完成：Sandbox/World，3 个文件，压缩后 77 字节"
    ));
}

#[test]
fn an_upload_in_one_piece_tells_what_went_wrong() {
    let courses = vec![
        (vec![LegacyEvent::SourceChecked(false)], "本地存档目录不存在"),
        (
            vec![LegacyEvent::SourceChecked(true), LegacyEvent::Compressed(Err("e".to_string()))],
            "e",
        ),
        (
            vec![
                LegacyEvent::SourceChecked(true),
                LegacyEvent::Compressed(Ok(1)),
                LegacyEvent::Measured(Err("e".to_string())),
            ],
            "读取压缩包大小失败: e",
        ),
        (
            vec![
                LegacyEvent::SourceChecked(true),
                LegacyEvent::Compressed(Ok(1)),
                LegacyEvent::Measured(Ok(1)),
                LegacyEvent::Done(Err("e".to_string())),
            ],
            "创建网络客户端失败: e",
        ),
        (
            vec![
                LegacyEvent::SourceChecked(true),
                LegacyEvent::Compressed(Ok(1)),
                LegacyEvent::Measured(Ok(1)),
                LegacyEvent::Done(Ok(())),
                LegacyEvent::Done(Err("e".to_string())),
            ],
            "打开压缩包失败: e",
        ),
        (
            vec![
                LegacyEvent::SourceChecked(true),
                LegacyEvent::Compressed(Ok(1)),
                LegacyEvent::Measured(Ok(1)),
                LegacyEvent::Done(Ok(())),
                LegacyEvent::Done(Ok(())),
                LegacyEvent::Answered(lost()),
            ],
            "上传失败: lost",
        ),
        (
            vec![
                LegacyEvent::SourceChecked(true),
                LegacyEvent::Compressed(Ok(1)),
                LegacyEvent::Measured(Ok(1)),
                LegacyEvent::Done(Ok(())),
                LegacyEvent::Done(Ok(())),
                LegacyEvent::Answered(reply(413, "big")),
                LegacyEvent::Done(Ok(())),
            ],
            "上传失败（HTTP 413）: big",
        ),
    ];
    for (events, message) in courses {
        let mut upload = LegacyUpload::begin(request()).handle(LegacyEvent::Processes(None));
        for event in events {
            upload = upload.handle(event);
        }
        assert!(matches!(
            upload.action(),
            LegacyAction::Finish { outcome: Err(e) } if e == message
        ));
    }
}
