//! The course of an upload as a transition system, and what holds of every course.

use crate::chunks::{
    chunk_count_of, chunk_length_of, chunk_offset, completed_bytes, law_all_chunks_are_all_bytes,
    CHUNK_SIZE,
};
use crate::digest::sha256_hex;
use crate::endpoint::api_address;
use crate::http::{
    authorization_value, error_details, is_retryable_status, is_success_status, refused_text,
    HttpReplyView, OutcomeView, CONFLICT,
};
use crate::messages::failed_text;
use crate::names::{is_clean_component, unclean_message};
use crate::paths::{resume_file_of, LocalPathView};
use crate::process::listing_names_game;
use crate::progress::{law_full_percent_means_complete, percent_of, report, ProgressView};
use crate::resume::{
    belongs_to, resume_state_of, status_confirms, status_of_answer, PreparedArchiveView,
    ResumeStateView,
};
use crate::text::{contains_text, decimal};
use crate::upload::types::{
    ChunkReadView, NewSessionView, UploadActionView, UploadEventView, UploadRequestView,
};
use vstd::prelude::*;

verus! {

/// How often one chunk is sent before the upload is given up.
pub const MAX_ATTEMPTS: u8 = 4;

/// An upload that the server has accepted, and the chunks that it has.
pub struct SessionView {
    pub archive: PreparedArchiveView,
    pub upload_id: Seq<char>,
    pub completed: Set<u64>,
}

impl SessionView {
    /// The number of chunks of the archive.
    pub open spec fn count(self) -> nat {
        chunk_count_of(self.archive.bytes as nat)
    }

    /// The percentage of the archive that the server has.
    pub open spec fn percent(self) -> nat {
        let bytes = completed_bytes(
            self.completed,
            self.archive.bytes as nat,
            CHUNK_SIZE as nat,
            self.count(),
        );
        percent_of(
            if bytes <= u64::MAX {
                bytes
            } else {
                u64::MAX as nat
            },
            self.archive.bytes as nat,
        )
    }

    /// The session after chunk `index` has been received.
    pub open spec fn with_chunk(self, index: u64) -> SessionView {
        SessionView { completed: self.completed.insert(index), ..self }
    }

    /// Whether the server has every chunk.
    pub open spec fn is_complete(self) -> bool {
        forall|i: u64| i < self.count() ==> self.completed.contains(i)
    }
}

/// What an upload is waiting for.
pub enum PhaseView {
    /// Whether the game runs.
    CheckGame,
    /// Whether the save is there.
    CheckSource,
    /// The archive of the save.
    Prepare,
    /// A network client.
    Connect { archive: PreparedArchiveView },
    /// The state that an earlier attempt left.
    LoadResume { archive: PreparedArchiveView },
    /// What the server has of the upload that `state` is about.
    Query { archive: PreparedArchiveView, state: ResumeStateView },
    /// A new upload on the server.
    Create { archive: PreparedArchiveView },
    /// That `state` is stored.
    StoreResume { archive: PreparedArchiveView, state: ResumeStateView },
    /// The archive to be opened.
    Open { session: SessionView },
    /// The bytes of chunk `index`.
    Read { session: SessionView, index: u64 },
    /// The answer to sending chunk `index` for the `attempt`-th time.
    Send { session: SessionView, index: u64, attempt: u8, bytes: Seq<u8>, digest: Seq<char> },
    /// The answer to the request to put the chunks together.
    Complete { session: SessionView },
    /// That the stored state is removed.
    Clear { cache_dir: LocalPathView, outcome: Result<Seq<char>, Seq<char>> },
    /// Nothing any more.
    Finished { outcome: Result<Seq<char>, Seq<char>> },
}

/// An upload under way: what was asked for, and what it is waiting for.
pub struct UploadView {
    pub request: UploadRequestView,
    pub phase: PhaseView,
}

/// What an event leads to: the next phase, and what is reported on the way.
pub struct StepView {
    pub phase: PhaseView,
    pub reports: Seq<ProgressView>,
}

/// The message for an operation that is refused because the game runs.
pub open spec fn game_running_message() -> Seq<char> {
    "检测到 Project Zomboid 正在运行，请先退出游戏"@
}

/// The phase changes to `phase`, and nothing is reported.
pub open spec fn goes_to(phase: PhaseView) -> StepView {
    StepView { phase, reports: Seq::empty() }
}

/// The phase changes to `phase`, and one report is made.
pub open spec fn reports_and_goes_to(
    percent: nat,
    message: Seq<char>,
    phase: PhaseView,
) -> StepView {
    StepView { phase, reports: seq![report(percent, message)] }
}

/// The upload ends with an error.
pub open spec fn fails(message: Seq<char>) -> StepView {
    goes_to(PhaseView::Finished { outcome: Err(message) })
}

/// Whether `state` is about uploading this archive for this request.
pub open spec fn resumes(
    request: UploadRequestView,
    archive: PreparedArchiveView,
    state: ResumeStateView,
) -> bool {
    belongs_to(
        state,
        request.endpoint,
        request.sync_key,
        request.save_mode,
        request.save_name,
        archive,
        CHUNK_SIZE,
        chunk_count_of(archive.bytes as nat) as u64,
    )
}

/// The state to be stored for upload `upload_id` of this archive for this request.
pub open spec fn stored_state(
    request: UploadRequestView,
    archive: PreparedArchiveView,
    upload_id: Seq<char>,
) -> ResumeStateView {
    resume_state_of(
        request.endpoint,
        request.sync_key,
        request.save_mode,
        request.save_name,
        archive,
        CHUNK_SIZE,
        chunk_count_of(archive.bytes as nat) as u64,
        upload_id,
    )
}

pub open spec fn uploading_message(session: SessionView) -> Seq<char> {
    "正在上传：已完成 "@ + decimal(session.completed.len()) + "/"@ + decimal(session.count())
        + " 块"@
}

/// After the game check: with the game closed, the components of the save's path are checked.
pub open spec fn after_game_check(
    request: UploadRequestView,
    listing: Option<Seq<char>>,
) -> StepView {
    if listing is Some && listing_names_game(listing->0) {
        fails(game_running_message())
    } else {
        reports_and_goes_to(
            100,
            "游戏状态检查完成"@,
            if !is_clean_component(request.save_mode) {
                PhaseView::Finished { outcome: Err(unclean_message("存档模式"@)) }
            } else if !is_clean_component(request.save_name) {
                PhaseView::Finished { outcome: Err(unclean_message("存档名称"@)) }
            } else {
                PhaseView::CheckSource
            },
        )
    }
}

/// A new upload is opened on the server.
pub open spec fn creates(archive: PreparedArchiveView) -> StepView {
    reports_and_goes_to(0, "正在创建上传会话..."@, PhaseView::Create { archive })
}

/// The chunks are uploaded, starting with the archive being opened.
pub open spec fn uploads(session: SessionView) -> StepView {
    reports_and_goes_to(session.percent(), uploading_message(session), PhaseView::Open { session })
}

/// A stored state that is about this upload is followed up; any other leads to a new upload.
pub open spec fn after_resume_loaded(
    request: UploadRequestView,
    archive: PreparedArchiveView,
    saved: Option<ResumeStateView>,
) -> StepView {
    if saved is Some && resumes(request, archive, saved->0) {
        reports_and_goes_to(
            0,
            "发现可续传任务，正在查询 VPS..."@,
            PhaseView::Query { archive, state: saved->0 },
        )
    } else {
        creates(archive)
    }
}

/// An upload that the server confirms is continued with the chunks that it has; one that it does
/// not know or does not confirm is replaced by a new one.
pub open spec fn after_query(
    archive: PreparedArchiveView,
    state: ResumeStateView,
    answer: crate::resume::StatusAnswerView,
) -> StepView {
    match status_of_answer(answer) {
        Ok(Some(status)) => if status_confirms(status, state) {
            uploads(
                SessionView {
                    archive,
                    upload_id: state.upload_id,
                    completed: status.completed_chunks.to_set(),
                },
            )
        } else {
            creates(archive)
        },
        Ok(None) => creates(archive),
        Err(e) => if contains_text(e, "HTTP 404"@) {
            creates(archive)
        } else {
            fails(e)
        },
    }
}

/// A new upload that the server has opened is stored before its first chunk is sent.
pub open spec fn after_create(
    request: UploadRequestView,
    archive: PreparedArchiveView,
    answer: crate::upload::types::SessionAnswerView,
) -> StepView {
    match answer.outcome {
        Err(error) => fails(failed_text("创建上传会话失败"@, error.message)),
        Ok(reply) => if !is_success_status(reply.status) {
            fails(refused_text("创建上传会话失败"@, reply.status, reply.body))
        } else {
            match answer.parsed {
                Ok(upload_id) => goes_to(
                    PhaseView::StoreResume {
                        archive,
                        state: stored_state(request, archive, upload_id),
                    },
                ),
                Err(e) => fails(failed_text("上传会话格式错误"@, e)),
            }
        },
    }
}

/// The least number from `from` on, below `count`, that is not in `done`; `count` if there is
/// none.
pub open spec fn next_missing(done: Set<u64>, from: nat, count: nat) -> nat
    decreases count - from,
{
    if from >= count {
        count
    } else if !done.contains(from as u64) {
        from
    } else {
        next_missing(done, from + 1, count)
    }
}

/// The next chunk from `from` on that the server does not have is read; when there is none, the
/// server is asked to put the chunks together.
pub open spec fn continues_from(session: SessionView, from: nat) -> StepView {
    let index = next_missing(session.completed, from, session.count());
    if index < session.count() {
        goes_to(PhaseView::Read { session, index: index as u64 })
    } else {
        reports_and_goes_to(0, "服务器正在保存存档..."@, PhaseView::Complete { session })
    }
}

/// A chunk that was read in full is sent for the first time.
pub open spec fn after_read(
    session: SessionView,
    index: u64,
    read: ChunkReadView,
) -> StepView {
    match read {
        ChunkReadView::SeekFailed(e) => fails(failed_text("定位上传分块失败"@, e)),
        ChunkReadView::ReadFailed(e) => fails(failed_text("读取上传分块失败"@, e)),
        ChunkReadView::Bytes(bytes) => if bytes.len() == chunk_length_of(
            session.archive.bytes as nat,
            index as nat,
        ) {
            goes_to(
                PhaseView::Send { session, index, attempt: 1, bytes, digest: sha256_hex(bytes) },
            )
        } else {
            goes_to(PhaseView::Read { session, index })
        },
    }
}

/// Whether a chunk has been received.
pub open spec fn chunk_received(outcome: OutcomeView) -> bool {
    outcome matches Ok(reply) && is_success_status(reply.status)
}

/// Whether a chunk that was not received is worth another attempt: no reply came, or one that
/// speaks of a temporary failure.
pub open spec fn worth_retrying(outcome: OutcomeView) -> bool {
    match outcome {
        Ok(reply) => is_retryable_status(reply.status),
        Err(_) => true,
    }
}

/// Why a chunk was not received.
pub open spec fn send_error(outcome: OutcomeView) -> Seq<char> {
    match outcome {
        Ok(reply) => "HTTP "@ + decimal(reply.status as nat) + ": "@ + reply.body,
        Err(error) => error_details(error),
    }
}

/// The message before a chunk is sent again.
pub open spec fn retry_message(index: u64, retry: u8) -> Seq<char> {
    "第 "@ + decimal(index as nat + 1) + " 块上传中断，正在重试 "@ + decimal(retry as nat)
        + "/3..."@
}

/// The message when a chunk is not sent again.
pub open spec fn give_up_message(index: u64, attempt: u8, error: Seq<char>) -> Seq<char> {
    "上传第 "@ + decimal(index as nat + 1) + " 块失败"@ + (if attempt == MAX_ATTEMPTS {
        "，重试 3 次后仍未成功"@
    } else {
        ""@
    }) + ": "@ + error
}

/// A received chunk is counted, and the next one follows. One that was not received is sent
/// again when that may help and attempts are left; otherwise the upload ends.
pub open spec fn after_send(
    session: SessionView,
    index: u64,
    attempt: u8,
    bytes: Seq<u8>,
    digest: Seq<char>,
    outcome: OutcomeView,
) -> StepView {
    if chunk_received(outcome) {
        let now = session.with_chunk(index);
        let next = continues_from(now, index as nat + 1);
        StepView {
            phase: next.phase,
            reports: seq![report(now.percent(), uploading_message(now))] + next.reports,
        }
    } else if worth_retrying(outcome) && attempt < MAX_ATTEMPTS {
        reports_and_goes_to(
            session.percent(),
            retry_message(index, attempt),
            PhaseView::Send { session, index, attempt: (attempt + 1) as u8, bytes, digest },
        )
    } else {
        fails(give_up_message(index, attempt, send_error(outcome)))
    }
}

pub open spec fn success_message(request: UploadRequestView, session: SessionView) -> Seq<char> {
    "上传完成："@ + request.save_mode + "/"@ + request.save_name + "，"@ + decimal(
        session.archive.file_count as nat,
    ) + " 个文件，压缩后 "@ + decimal(session.archive.bytes as nat) + " 字节，共 "@ + decimal(
        session.count(),
    ) + " 块"@ + (if session.archive.reused {
        "，已复用本地缓存"@
    } else {
        ""@
    })
}

/// What a reply to the request to put the chunks together means for the user, and whether the
/// stored state has served its purpose.
pub open spec fn after_complete(
    request: UploadRequestView,
    session: SessionView,
    outcome: OutcomeView,
) -> StepView {
    match outcome {
        Err(error) => fails(failed_text("完成上传失败"@, error.message)),
        Ok(reply) => if is_success_status(reply.status) {
            goes_to(
                PhaseView::Clear {
                    cache_dir: session.archive.cache_dir,
                    outcome: Ok(success_message(request, session)),
                },
            )
        } else if reply.status == CONFLICT && contains_text(
            reply.body,
            "remote_snapshot_changed"@,
        ) {
            goes_to(
                PhaseView::Clear {
                    cache_dir: session.archive.cache_dir,
                    outcome: Err("VPS 同名存档已被其他设备更新，请刷新列表并重新确认覆盖"@),
                },
            )
        } else if reply.status == CONFLICT && contains_text(
            reply.body,
            "assembled_verification_failed"@,
        ) {
            goes_to(
                PhaseView::Clear {
                    cache_dir: session.archive.cache_dir,
                    outcome: Err("服务器校验上传分片失败，下次上传将创建新会话"@),
                },
            )
        } else {
            fails(refused_text("完成上传失败"@, reply.status, reply.body))
        },
    }
}

/// What an event leads to. An event that does not answer what the upload is waiting for leads
/// nowhere.
pub open spec fn upload_step(s: UploadView, event: UploadEventView) -> StepView {
    match (s.phase, event) {
        (PhaseView::CheckGame, UploadEventView::Processes(listing)) => after_game_check(
            s.request,
            listing,
        ),
        (PhaseView::CheckSource, UploadEventView::SourceIsDirectory(is_directory)) =>
            if is_directory {
            goes_to(PhaseView::Prepare)
        } else {
            fails("本地存档目录不存在"@)
        },
        (PhaseView::Prepare, UploadEventView::Archive(prepared)) => match prepared {
            Ok(archive) => goes_to(PhaseView::Connect { archive }),
            Err(e) => fails(e),
        },
        (PhaseView::Connect { archive }, UploadEventView::Client(built)) => match built {
            Ok(_) => goes_to(PhaseView::LoadResume { archive }),
            Err(e) => fails(failed_text("创建网络客户端失败"@, e)),
        },
        (PhaseView::LoadResume { archive }, UploadEventView::SavedResume(saved)) =>
            after_resume_loaded(s.request, archive, saved),
        (PhaseView::Query { archive, state }, UploadEventView::Status(answer)) => after_query(
            archive,
            state,
            answer,
        ),
        (PhaseView::Create { archive }, UploadEventView::Session(answer)) => after_create(
            s.request,
            archive,
            answer,
        ),
        (PhaseView::StoreResume { archive, state }, UploadEventView::ResumeStored(stored)) =>
            match stored {
            Ok(_) => uploads(
                SessionView { archive, upload_id: state.upload_id, completed: Set::empty() },
            ),
            Err(e) => fails(e),
        },
        (PhaseView::Open { session }, UploadEventView::Opened(opened)) => match opened {
            Ok(_) => continues_from(session, 0),
            Err(e) => fails(failed_text("打开压缩包失败"@, e)),
        },
        (PhaseView::Read { session, index }, UploadEventView::Chunk(read)) => after_read(
            session,
            index,
            read,
        ),
        (
            PhaseView::Send { session, index, attempt, bytes, digest },
            UploadEventView::Sent(outcome),
        ) => after_send(session, index, attempt, bytes, digest, outcome),
        (PhaseView::Complete { session }, UploadEventView::Completed(outcome)) => after_complete(
            s.request,
            session,
            outcome,
        ),
        (PhaseView::Clear { outcome, .. }, UploadEventView::ResumeRemoved) => StepView {
            phase: PhaseView::Finished { outcome },
            reports: if outcome is Ok {
                seq![report(100, "服务器保存完成"@)]
            } else {
                Seq::empty()
            },
        },
        (phase, _) => goes_to(phase),
    }
}

/// The upload after an event.
pub open spec fn upload_next(s: UploadView, event: UploadEventView) -> UploadView {
    UploadView { request: s.request, phase: upload_step(s, event).phase }
}

/// An upload at its start.
pub open spec fn upload_start(request: UploadRequestView) -> UploadView {
    UploadView { request, phase: PhaseView::CheckGame }
}

/// The path of an upload on the server.
pub open spec fn upload_path(upload_id: Seq<char>) -> Seq<char> {
    "v1/uploads/"@ + upload_id
}

/// How long to wait before an attempt to send a chunk: not at all before the first, then twice
/// as long each time, starting with one second.
pub open spec fn delay_before(attempt: u8) -> nat {
    if attempt <= 1 {
        0
    } else if attempt == 2 {
        1
    } else if attempt == 3 {
        2
    } else {
        4
    }
}

/// What is to be done next.
pub open spec fn upload_action(s: UploadView) -> UploadActionView {
    let endpoint = s.request.endpoint;
    let authorization = authorization_value(s.request.sync_key);
    match s.phase {
        PhaseView::CheckGame => UploadActionView::ListProcesses,
        PhaseView::CheckSource => UploadActionView::CheckSource { path: s.request.save_path },
        PhaseView::Prepare => UploadActionView::PrepareArchive,
        PhaseView::Connect { .. } => UploadActionView::BuildClient,
        PhaseView::LoadResume { archive } => UploadActionView::LoadResume {
            file: resume_file_of(archive.cache_dir),
        },
        PhaseView::Query { state, .. } => UploadActionView::QueryStatus {
            url: api_address(endpoint, upload_path(state.upload_id)),
            authorization,
        },
        PhaseView::Create { archive } => UploadActionView::CreateSession {
            url: api_address(endpoint, "v1/uploads"@),
            authorization,
            session: NewSessionView {
                total_bytes: archive.bytes,
                chunk_size: CHUNK_SIZE,
                chunk_count: chunk_count_of(archive.bytes as nat) as u64,
                save_mode: s.request.save_mode,
                save_name: s.request.save_name,
                device_name: s.request.device_name,
                game_version: "Unknown"@,
                overwrite_confirmed: s.request.overwrite_confirmed,
                zip_sha256: archive.zip_sha256,
            },
        },
        PhaseView::StoreResume { archive, state } => UploadActionView::StoreResume {
            file: resume_file_of(archive.cache_dir),
            state,
        },
        PhaseView::Open { session } => UploadActionView::OpenArchive {
            file: session.archive.path,
        },
        PhaseView::Read { session, index } => UploadActionView::ReadChunk {
            offset: chunk_offset(index as nat),
            length: chunk_length_of(session.archive.bytes as nat, index as nat) as nat,
        },
        PhaseView::Send { session, index, attempt, bytes, digest } =>
            UploadActionView::SendChunk {
            delay_seconds: delay_before(attempt),
            url: api_address(
                endpoint,
                upload_path(session.upload_id) + "/chunks/"@ + decimal(index as nat),
            ),
            authorization,
            digest,
            bytes,
        },
        PhaseView::Complete { session } => UploadActionView::CompleteUpload {
            url: api_address(endpoint, upload_path(session.upload_id) + "/complete"@),
            authorization,
        },
        PhaseView::Clear { cache_dir, .. } => UploadActionView::RemoveResume {
            file: resume_file_of(cache_dir),
        },
        PhaseView::Finished { outcome } => UploadActionView::Finish { outcome },
    }
}

/// What holds of every upload: chunks are worked off in order, the one in hand is missing on the
/// server and is what its digest and its length say, and the server is asked to put the chunks
/// together only when it has them all.
pub open spec fn well_formed(s: UploadView) -> bool {
    match s.phase {
        PhaseView::Query { archive, state } => resumes(s.request, archive, state),
        PhaseView::StoreResume { archive, state } => resumes(s.request, archive, state),
        PhaseView::Read { session, index } => in_hand(session, index),
        PhaseView::Send { session, index, attempt, bytes, digest } => {
            &&& in_hand(session, index)
            &&& 1 <= attempt <= MAX_ATTEMPTS
            &&& bytes.len() == chunk_length_of(session.archive.bytes as nat, index as nat)
            &&& digest == sha256_hex(bytes)
        },
        PhaseView::Complete { session } => session.is_complete(),
        _ => true,
    }
}

/// Chunk `index` is the first one that the server does not have.
pub open spec fn in_hand(session: SessionView, index: u64) -> bool {
    &&& index < session.count()
    &&& !session.completed.contains(index)
    &&& forall|i: u64| i < index ==> session.completed.contains(i)
}

/// The next missing number is missing, and none before it is.
pub proof fn lemma_next_missing(done: Set<u64>, from: nat, count: nat)
    requires
        count <= u64::MAX,
        from <= count,
    ensures
        from <= next_missing(done, from, count) <= count,
        forall|i: u64|
            from <= i < next_missing(done, from, count) ==> #[trigger] done.contains(i),
        next_missing(done, from, count) < count ==> !done.contains(
            next_missing(done, from, count) as u64,
        ),
    decreases count - from,
{
    if from < count && done.contains(from as u64) {
        lemma_next_missing(done, from + 1, count);
    }
}

pub(crate) proof fn lemma_continues_well_formed(
    request: UploadRequestView,
    session: SessionView,
    from: nat,
)
    requires
        from <= session.count(),
        forall|i: u64| i < from ==> session.completed.contains(i),
    ensures
        well_formed(UploadView { request, phase: continues_from(session, from).phase }),
{
    lemma_next_missing(session.completed, from, session.count());
}

/// An upload starts well-formed, and stays so whatever happens.
pub proof fn law_uploads_stay_well_formed(s: UploadView, event: UploadEventView)
    ensures
        well_formed(upload_start(s.request)),
        well_formed(s) ==> well_formed(upload_next(s, event)),
{
    if well_formed(s) {
        match (s.phase, event) {
            (PhaseView::Open { session }, UploadEventView::Opened(_)) => {
                lemma_continues_well_formed(s.request, session, 0);
            },
            (
                PhaseView::Send { session, index, .. },
                UploadEventView::Sent(_),
            ) => {
                lemma_continues_well_formed(
                    s.request,
                    session.with_chunk(index),
                    index as nat + 1,
                );
            },
            _ => {},
        }
    }
}

/// While the game runs nothing is uploaded: the upload ends with an error, and listing the
/// processes was all that it did. No other event gets it past that point.
pub proof fn law_running_game_blocks_upload(
    request: UploadRequestView,
    listing: Seq<char>,
    event: UploadEventView,
)
    requires
        listing_names_game(listing),
    ensures
        upload_action(upload_start(request)) == UploadActionView::ListProcesses,
        upload_step(upload_start(request), UploadEventView::Processes(Some(listing))) == fails(
            game_running_message(),
        ),
        !(event is Processes) ==> upload_next(upload_start(request), event) == upload_start(request),
{
}

/// A mode or a name that is not clean ends an upload before anything is read or sent.
pub proof fn law_unclean_names_block_upload(
    request: UploadRequestView,
    listing: Option<Seq<char>>,
)
    requires
        !is_clean_component(request.save_mode) || !is_clean_component(request.save_name),
    ensures
        upload_action(upload_next(upload_start(request), UploadEventView::Processes(listing)))
            is Finish,
        upload_next(
            upload_start(request),
            UploadEventView::Processes(listing),
        ).phase->Finished_outcome is Err,
{
}

/// The server is asked to put the chunks together only when it has every chunk.
pub proof fn law_completion_follows_all_chunks(s: UploadView)
    requires
        well_formed(s),
        upload_action(s) is CompleteUpload,
    ensures
        s.phase matches PhaseView::Complete { session } && session.is_complete(),
{
}

/// A chunk that is sent is one that the server does not have, whole and with its own digest.
pub proof fn law_sent_chunk_is_missing_and_whole(s: UploadView)
    requires
        well_formed(s),
        upload_action(s) is SendChunk,
    ensures
        s.phase matches PhaseView::Send { session, index, bytes, .. } && {
            &&& !session.completed.contains(index)
            &&& bytes.len() == chunk_length_of(session.archive.bytes as nat, index as nat)
            &&& upload_action(s)->bytes == bytes
            &&& upload_action(s)->SendChunk_digest == sha256_hex(bytes)
        },
{
}

/// The chunks that the server has, as far as an upload has come to know them.
pub open spec fn known_chunks(phase: PhaseView) -> Set<u64> {
    match phase {
        PhaseView::Open { session } => session.completed,
        PhaseView::Read { session, .. } => session.completed,
        PhaseView::Send { session, .. } => session.completed,
        PhaseView::Complete { session } => session.completed,
        _ => Set::empty(),
    }
}

/// A chunk that is known to be on the server stays known while the upload goes on, so that it is
/// not sent again.
pub proof fn law_known_chunks_stay_known(s: UploadView, event: UploadEventView)
    ensures
        upload_next(s, event).phase is Finished || upload_next(s, event).phase is Clear
            || known_chunks(s.phase).subset_of(known_chunks(upload_next(s, event).phase)),
{
}

/// The report that follows the last chunk shows 100 percent.
pub proof fn law_last_chunk_completes_the_stage(s: UploadView, event: UploadEventView)
    requires
        well_formed(s),
        s.phase is Send,
        upload_next(s, event).phase is Complete,
    ensures
        upload_step(s, event).reports.len() == 2,
        upload_step(s, event).reports[0].percent == 100,
{
    law_uploads_stay_well_formed(s, event);
    let session = upload_next(s, event).phase->Complete_session;
    law_all_chunks_are_all_bytes(session.completed, session.archive.bytes as nat);
    law_full_percent_means_complete(session.archive.bytes as nat, session.archive.bytes as nat);
}

/// An upload that was interrupted is taken up again: the state that was stored for it leads back
/// to the same upload on the server, as long as the archive holds the same, and a confirmation by
/// the server leaves only the chunks to be sent that it does not have.
pub proof fn law_interrupted_upload_is_resumed(
    request: UploadRequestView,
    before: PreparedArchiveView,
    now: PreparedArchiveView,
    upload_id: Seq<char>,
    answer: crate::resume::StatusAnswerView,
)
    requires
        before.bytes == now.bytes,
        before.fingerprint == now.fingerprint,
        before.zip_sha256 == now.zip_sha256,
    ensures
        ({
            let state = stored_state(request, before, upload_id);
            let loaded = upload_step(
                UploadView { request, phase: PhaseView::LoadResume { archive: now } },
                UploadEventView::SavedResume(Some(state)),
            ).phase;
            &&& loaded == PhaseView::Query { archive: now, state }
            &&& status_of_answer(answer) matches Ok(Some(status)) ==> (status_confirms(
                status,
                state,
            ) ==> upload_step(
                UploadView { request, phase: loaded },
                UploadEventView::Status(answer),
            ).phase == (PhaseView::Open {
                session: SessionView {
                    archive: now,
                    upload_id,
                    completed: status.completed_chunks.to_set(),
                },
            }))
        }),
{
}

/// A save that has changed since is uploaded anew: a stored state for other files, or for another
/// archive of them, is not followed up.
pub proof fn law_changed_save_is_uploaded_anew(
    request: UploadRequestView,
    before: PreparedArchiveView,
    now: PreparedArchiveView,
    upload_id: Seq<char>,
)
    requires
        before.fingerprint != now.fingerprint || before.zip_sha256 != now.zip_sha256,
    ensures
        upload_step(
            UploadView { request, phase: PhaseView::LoadResume { archive: now } },
            UploadEventView::SavedResume(Some(stored_state(request, before, upload_id))),
        ).phase == (PhaseView::Create { archive: now }),
{
}

/// The number of chunks below `n` that are not in `done`.
pub open spec fn missing_below(done: Set<u64>, n: nat) -> nat
    decreases n,
{
    if n == 0 {
        0
    } else {
        missing_below(done, (n - 1) as nat) + if done.contains((n - 1) as u64) {
            0nat
        } else {
            1nat
        }
    }
}

proof fn lemma_missing_insert(done: Set<u64>, index: u64, n: nat)
    requires
        n <= u64::MAX,
        !done.contains(index),
    ensures
        missing_below(done.insert(index), n) + (if index < n {
            1nat
        } else {
            0nat
        }) == missing_below(done, n),
    decreases n,
{
    if n > 0 {
        lemma_missing_insert(done, index, (n - 1) as nat);
    }
}

/// How much of an upload lies ahead: the stages to come, then the chunks to be sent, then what is
/// left to do for the chunk in hand.
pub open spec fn ahead(phase: PhaseView) -> (nat, nat, nat) {
    match phase {
        PhaseView::CheckGame => (12, 0, 0),
        PhaseView::CheckSource => (11, 0, 0),
        PhaseView::Prepare => (10, 0, 0),
        PhaseView::Connect { .. } => (9, 0, 0),
        PhaseView::LoadResume { .. } => (8, 0, 0),
        PhaseView::Query { .. } => (7, 0, 0),
        PhaseView::Create { .. } => (6, 0, 0),
        PhaseView::StoreResume { .. } => (5, 0, 0),
        PhaseView::Open { .. } => (4, 0, 0),
        PhaseView::Read { session, .. } => (
            3,
            missing_below(session.completed, session.count()),
            MAX_ATTEMPTS as nat,
        ),
        PhaseView::Send { session, attempt, .. } => (
            3,
            missing_below(session.completed, session.count()),
            (MAX_ATTEMPTS - attempt) as nat,
        ),
        PhaseView::Complete { .. } => (2, 0, 0),
        PhaseView::Clear { .. } => (1, 0, 0),
        PhaseView::Finished { .. } => (0, 0, 0),
    }
}

/// Whether less lies ahead.
pub open spec fn is_less(a: (nat, nat, nat), b: (nat, nat, nat)) -> bool {
    ||| a.0 < b.0
    ||| a.0 == b.0 && a.1 < b.1
    ||| a.0 == b.0 && a.1 == b.1 && a.2 < b.2
}

/// Every event that an upload takes up brings it nearer to its end: an upload ends after finitely
/// many requests, and no chunk is sent more than four times.
pub proof fn law_every_answer_leads_on(s: UploadView, event: UploadEventView)
    requires
        well_formed(s),
    ensures
        upload_next(s, event) != s ==> is_less(ahead(upload_next(s, event).phase), ahead(s.phase)),
{
    match (s.phase, event) {
        (PhaseView::Send { session, index, .. }, UploadEventView::Sent(_)) => {
            lemma_missing_insert(session.completed, index, session.count());
        },
        _ => {},
    }
}

/// A new upload is opened for the requested save and the archive at hand, with what the user
/// decided about overwriting.
pub proof fn law_new_session_is_for_the_request(s: UploadView, archive: PreparedArchiveView)
    requires
        s.phase == (PhaseView::Create { archive }),
    ensures
        upload_action(s) matches UploadActionView::CreateSession { session, .. } && {
            &&& session.save_mode == s.request.save_mode
            &&& session.save_name == s.request.save_name
            &&& session.overwrite_confirmed == s.request.overwrite_confirmed
            &&& session.total_bytes == archive.bytes
            &&& session.zip_sha256 == archive.zip_sha256
        },
{
}

/// A chunk that a temporary failure kept from arriving is sent again as it is, after a wait that
/// doubles from one second on, until the fourth attempt has failed; any other failure ends the
/// upload at once.
pub proof fn law_only_temporary_failures_are_retried(s: UploadView, outcome: OutcomeView)
    requires
        well_formed(s),
        s.phase is Send,
        !chunk_received(outcome),
    ensures
        ({
            let attempt = s.phase->attempt;
            let next = upload_next(s, UploadEventView::Sent(outcome));
            if worth_retrying(outcome) && attempt < MAX_ATTEMPTS {
                let sent = upload_action(s);
                let again = upload_action(next);
                &&& sent is SendChunk && again is SendChunk
                &&& again->SendChunk_url == sent->SendChunk_url
                &&& again->SendChunk_authorization == sent->SendChunk_authorization
                &&& again->SendChunk_digest == sent->SendChunk_digest
                &&& again->bytes == sent->bytes
                &&& again->delay_seconds == (if attempt == 1 {
                    1
                } else {
                    2 * sent->delay_seconds
                })
            } else {
                next.phase == (PhaseView::Finished {
                    outcome: Err(
                        give_up_message(s.phase->Send_index, attempt, send_error(outcome)),
                    ),
                })
            }
        }),
{
}

/// An upload that the server does not know any more is opened anew.
pub proof fn law_forgotten_upload_is_opened_anew(
    s: UploadView,
    answer: crate::resume::StatusAnswerView,
)
    requires
        s.phase is Query,
        answer.outcome is Ok,
        answer.outcome->Ok_0.status == crate::http::NOT_FOUND,
    ensures
        upload_next(s, UploadEventView::Status(answer)).phase == (PhaseView::Create {
            archive: s.phase->Query_archive,
        }),
{
}

/// An upload succeeds only after the server, having every chunk, has put them together.
pub proof fn law_success_follows_the_word_of_the_server(s: UploadView, event: UploadEventView)
    requires
        well_formed(s),
    ensures
        ({
            let next = upload_next(s, event).phase;
            &&& next is Clear && next->Clear_outcome is Ok && !(s.phase is Clear) ==> {
                &&& s.phase matches PhaseView::Complete { session } && session.is_complete()
                &&& event matches UploadEventView::Completed(Ok(reply)) && is_success_status(
                    reply.status,
                )
            }
            &&& next is Finished && next->Finished_outcome is Ok && !(s.phase is Finished)
                ==> s.phase is Clear && s.phase->Clear_outcome is Ok
        }),
{
}

/// What was stored to resume an upload is removed only after the server has answered to the
/// request to put the chunks together: an upload that fails before can be taken up again.
pub proof fn law_stored_state_outlives_failures(s: UploadView, event: UploadEventView)
    requires
        upload_action(upload_next(s, event)) is RemoveResume,
        !(upload_action(s) is RemoveResume),
    ensures
        s.phase is Complete,
        event matches UploadEventView::Completed(outcome) && outcome is Ok,
{
}

/// After a conflict on the server the stored state is removed, so that the next upload opens a new
/// session.
pub proof fn law_conflict_forgets_the_session(s: UploadView, body: Seq<char>)
    requires
        s.phase is Complete,
        contains_text(body, "remote_snapshot_changed"@) || contains_text(
            body,
            "assembled_verification_failed"@,
        ),
    ensures
        ({
            let reply = crate::http::HttpReplyView { status: CONFLICT, body };
            let next = upload_next(s, UploadEventView::Completed(Ok(reply)));
            let ended = upload_next(next, UploadEventView::ResumeRemoved);
            &&& upload_action(next) == (UploadActionView::RemoveResume {
                file: resume_file_of(s.phase->Complete_session.archive.cache_dir),
            })
            &&& ended.phase is Finished
            &&& ended.phase->Finished_outcome is Err
        }),
{
}

/// The authorization that an action carries to the server, where it sends something there.
pub open spec fn sent_authorization(action: UploadActionView) -> Option<Seq<char>> {
    match action {
        UploadActionView::QueryStatus { authorization, .. } => Some(authorization),
        UploadActionView::CreateSession { authorization, .. } => Some(authorization),
        UploadActionView::SendChunk { authorization, .. } => Some(authorization),
        UploadActionView::CompleteUpload { authorization, .. } => Some(authorization),
        _ => None,
    }
}

/// Every request of an upload carries the key of the user.
pub proof fn law_requests_carry_the_key(s: UploadView)
    requires
        sent_authorization(upload_action(s)) is Some,
    ensures
        sent_authorization(upload_action(s)) == Some(authorization_value(s.request.sync_key)),
{
}

}
