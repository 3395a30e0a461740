//! The executable course of an upload.

use crate::chunks::{chunk_count, chunk_length, completed_upload_bytes, CHUNK_SIZE};
use crate::digest::sha256_bytes;
use crate::endpoint::api_url;
use crate::http::{
    authorization, authorization_value, is_success, outcome_view, refused, request_error_details, retryable_upload_status, Outcome,
    CONFLICT,
};
use crate::messages::failed;
use crate::names::clean_component;
use crate::paths::{resume_file, LocalPath};
use crate::process::game_is_running;
use crate::progress::{
    no_reports, one_report, report, report_views, stage_percent, UploadProgress,
};
use crate::resume::{
    confirms, new_resume_state, query_upload_status, resume_matches, PreparedArchive, ResumeState,
    StatusAnswer,
};
use crate::text::{copy_result, has_text, joined, number, text_result};
use crate::upload::model::{
    after_complete, after_create, after_game_check, after_query, after_read, after_resume_loaded,
    after_send, continues_from, creates, delay_before, give_up_message,
    law_uploads_stay_well_formed, next_missing, retry_message, send_error, success_message,
    upload_action, upload_next, upload_path, upload_start, upload_step, uploading_message, uploads,
    well_formed, PhaseView, SessionView, StepView, UploadView, MAX_ATTEMPTS,
};
use crate::upload::types::{
    ChunkRead, NewSession, SessionAnswer, UploadAction, UploadEvent, UploadRequest,
};
use std::collections::HashSet;
use vstd::prelude::*;

verus! {

broadcast use vstd::std_specs::hash::group_hash_axioms;

/// An upload that the server has accepted, and the chunks that it has.
struct Session {
    archive: PreparedArchive,
    upload_id: String,
    completed: HashSet<u64>,
}

impl View for Session {
    type V = SessionView;

    closed spec fn view(&self) -> SessionView {
        SessionView {
            archive: self.archive@,
            upload_id: self.upload_id@,
            completed: self.completed@,
        }
    }
}

/// What an upload is waiting for.
enum Phase {
    CheckGame,
    CheckSource,
    Prepare,
    Connect { archive: PreparedArchive },
    LoadResume { archive: PreparedArchive },
    Query { archive: PreparedArchive, state: ResumeState },
    Create { archive: PreparedArchive },
    StoreResume { archive: PreparedArchive, state: ResumeState },
    Open { session: Session },
    Read { session: Session, index: u64 },
    Send { session: Session, index: u64, attempt: u8, bytes: Vec<u8>, digest: String },
    Complete { session: Session },
    Clear { cache_dir: LocalPath, outcome: Result<String, String> },
    Finished { outcome: Result<String, String> },
}

impl View for Phase {
    type V = PhaseView;

    closed spec fn view(&self) -> PhaseView {
        match *self {
            Phase::CheckGame => PhaseView::CheckGame,
            Phase::CheckSource => PhaseView::CheckSource,
            Phase::Prepare => PhaseView::Prepare,
            Phase::Connect { archive } => PhaseView::Connect { archive: archive@ },
            Phase::LoadResume { archive } => PhaseView::LoadResume { archive: archive@ },
            Phase::Query { archive, state } => PhaseView::Query {
                archive: archive@,
                state: state@,
            },
            Phase::Create { archive } => PhaseView::Create { archive: archive@ },
            Phase::StoreResume { archive, state } => PhaseView::StoreResume {
                archive: archive@,
                state: state@,
            },
            Phase::Open { session } => PhaseView::Open { session: session@ },
            Phase::Read { session, index } => PhaseView::Read { session: session@, index },
            Phase::Send { session, index, attempt, bytes, digest } => PhaseView::Send {
                session: session@,
                index,
                attempt,
                bytes: bytes@,
                digest: digest@,
            },
            Phase::Complete { session } => PhaseView::Complete { session: session@ },
            Phase::Clear { cache_dir, outcome } => PhaseView::Clear {
                cache_dir: cache_dir@,
                outcome: text_result(outcome),
            },
            Phase::Finished { outcome } => PhaseView::Finished { outcome: text_result(outcome) },
        }
    }
}

/// An upload under way.
pub struct Upload {
    request: UploadRequest,
    phase: Phase,
}

impl View for Upload {
    type V = UploadView;

    closed spec fn view(&self) -> UploadView {
        UploadView { request: self.request@, phase: self.phase@ }
    }
}

/// A phase together with the reports made on the way to it.
struct Step {
    phase: Phase,
    reports: Vec<UploadProgress>,
}

impl View for Step {
    type V = StepView;

    closed spec fn view(&self) -> StepView {
        StepView { phase: self.phase@, reports: report_views(self.reports@) }
    }
}

fn go_to(phase: Phase) -> (step: Step)
    ensures
        step@ == crate::upload::model::goes_to(phase@),
{
    Step { phase, reports: no_reports() }
}

fn report_and_go_to(percent: u8, message: &str, phase: Phase) -> (step: Step)
    ensures
        step@ == crate::upload::model::reports_and_goes_to(percent as nat, message@, phase@),
{
    Step { phase, reports: one_report(percent, message.to_owned()) }
}

fn fail(message: String) -> (step: Step)
    ensures
        step@ == crate::upload::model::fails(message@),
{
    go_to(Phase::Finished { outcome: Err(message) })
}

impl Session {
    fn percent(&self) -> (percent: u8)
        ensures
            percent == self@.percent(),
    {
        let bytes = self.archive.bytes;
        stage_percent(
            completed_upload_bytes(&self.completed, bytes, CHUNK_SIZE, chunk_count(bytes)),
            bytes,
        )
    }

    fn uploading_text(&self) -> (message: String)
        ensures
            message@ == uploading_message(self@),
    {
        let mut message = joined("正在上传：已完成 ", number(self.completed.len() as u128).as_str());
        message.append("/");
        message.append(number(chunk_count(self.archive.bytes) as u128).as_str());
        message.append(" 块");
        message
    }
}

fn check_game(request: &UploadRequest, listing: &Option<String>) -> (step: Step)
    ensures
        step@ == after_game_check(request@, crate::text::text_option(*listing)),
{
    if game_is_running(listing) {
        return fail("检测到 Project Zomboid 正在运行，请先退出游戏".to_owned());
    }
    let phase = match clean_component(request.save_mode.as_str(), "存档模式") {
        Err(e) => Phase::Finished { outcome: Err(e) },
        Ok(_) => match clean_component(request.save_name.as_str(), "存档名称") {
            Err(e) => Phase::Finished { outcome: Err(e) },
            Ok(_) => Phase::CheckSource,
        },
    };
    report_and_go_to(100, "游戏状态检查完成", phase)
}

fn create(archive: PreparedArchive) -> (step: Step)
    ensures
        step@ == creates(archive@),
{
    report_and_go_to(0, "正在创建上传会话...", Phase::Create { archive })
}

fn upload(session: Session) -> (step: Step)
    ensures
        step@ == uploads(session@),
{
    let percent = session.percent();
    let message = session.uploading_text();
    report_and_go_to(percent, message.as_str(), Phase::Open { session })
}

fn follow_saved(
    request: &UploadRequest,
    archive: PreparedArchive,
    saved: Option<ResumeState>,
) -> (step: Step)
    ensures
        step@ == after_resume_loaded(
            request@,
            archive@,
            match saved {
                Some(state) => Some(state@),
                None => None,
            },
        ),
{
    match saved {
        Some(state) => {
            if resume_matches(
                &state,
                request.endpoint.as_str(),
                request.sync_key.as_str(),
                request.save_mode.as_str(),
                request.save_name.as_str(),
                &archive,
                CHUNK_SIZE,
                chunk_count(archive.bytes),
            ) {
                report_and_go_to(
                    0,
                    "发现可续传任务，正在查询 VPS...",
                    Phase::Query { archive, state },
                )
            } else {
                create(archive)
            }
        },
        None => create(archive),
    }
}

/// The set of the numbers in `list`.
fn to_set(list: &Vec<u64>) -> (set: HashSet<u64>)
    ensures
        set@ == list@.to_set(),
{
    let mut set: HashSet<u64> = HashSet::new();
    assert(list@.take(0).to_set() == Set::<u64>::empty());
    let mut i: usize = 0;
    while i < list.len()
        invariant
            i <= list@.len(),
            set@ == list@.take(i as int).to_set(),
        decreases list@.len() - i,
    {
        set.insert(list[i]);
        proof {
            assert(list@.take(i + 1) == list@.take(i as int).push(list@[i as int]));
            list@.take(i as int).lemma_push_to_set_commute(list@[i as int]);
        }
        i = i + 1;
    }
    assert(list@.take(list@.len() as int) == list@);
    set
}

fn follow_status(archive: PreparedArchive, state: ResumeState, answer: StatusAnswer) -> (step: Step)
    ensures
        step@ == after_query(archive@, state@, answer@),
{
    match query_upload_status(answer) {
        Ok(Some(status)) => {
            if confirms(&status, &state) {
                let completed = to_set(&status.completed_chunks);
                upload(Session { archive, upload_id: state.upload_id, completed })
            } else {
                create(archive)
            }
        },
        Ok(None) => create(archive),
        Err(e) => {
            if has_text(e.as_str(), "HTTP 404") {
                create(archive)
            } else {
                fail(e)
            }
        },
    }
}

fn follow_create(
    request: &UploadRequest,
    archive: PreparedArchive,
    answer: SessionAnswer,
) -> (step: Step)
    ensures
        step@ == after_create(request@, archive@, answer@),
{
    match answer.outcome {
        Err(error) => fail(failed("创建上传会话失败", error.message.as_str())),
        Ok(reply) => {
            if !is_success(reply.status) {
                return fail(refused("创建上传会话失败", &reply));
            }
            match answer.parsed {
                Ok(upload_id) => {
                    let state = new_resume_state(
                        request.endpoint.as_str(),
                        request.sync_key.as_str(),
                        request.save_mode.as_str(),
                        request.save_name.as_str(),
                        &archive,
                        CHUNK_SIZE,
                        chunk_count(archive.bytes),
                        upload_id,
                    );
                    go_to(Phase::StoreResume { archive, state })
                },
                Err(e) => fail(failed("上传会话格式错误", e.as_str())),
            }
        },
    }
}

fn continue_from(session: Session, from: u64) -> (step: Step)
    requires
        from <= session@.count(),
    ensures
        step@ == continues_from(session@, from as nat),
{
    let count = chunk_count(session.archive.bytes);
    let ghost done = session.completed@;
    let mut index: u64 = from;
    while index < count && session.completed.contains(&index)
        invariant
            from <= index <= count,
            done == session.completed@,
            next_missing(done, index as nat, count as nat) == next_missing(
                done,
                from as nat,
                count as nat,
            ),
        decreases count - index,
    {
        index = index + 1;
    }
    if index < count {
        go_to(Phase::Read { session, index })
    } else {
        report_and_go_to(0, "服务器正在保存存档...", Phase::Complete { session })
    }
}

fn follow_read(session: Session, index: u64, read: ChunkRead) -> (step: Step)
    requires
        index < session@.count(),
    ensures
        step@ == after_read(session@, index, read@),
{
    match read {
        ChunkRead::SeekFailed(e) => fail(failed("定位上传分块失败", e.as_str())),
        ChunkRead::ReadFailed(e) => fail(failed("读取上传分块失败", e.as_str())),
        ChunkRead::Bytes(bytes) => {
            if bytes.len() as u64 == chunk_length(session.archive.bytes, index) {
                let digest = sha256_bytes(bytes.as_slice());
                go_to(Phase::Send { session, index, attempt: 1, bytes, digest })
            } else {
                go_to(Phase::Read { session, index })
            }
        },
    }
}

fn send_error_text(outcome: &Outcome) -> (error: String)
    ensures
        error@ == send_error(outcome_view(*outcome)),
{
    match outcome {
        Ok(reply) => {
            let mut error = joined("HTTP ", number(reply.status as u128).as_str());
            error.append(": ");
            error.append(reply.body.as_str());
            error
        },
        Err(error) => request_error_details(error),
    }
}

fn retry_text(index: u64, retry: u8) -> (message: String)
    ensures
        message@ == retry_message(index, retry),
{
    let mut message = joined("第 ", number(index as u128 + 1).as_str());
    message.append(" 块上传中断，正在重试 ");
    message.append(number(retry as u128).as_str());
    message.append("/3...");
    message
}

fn give_up_text(index: u64, attempt: u8, error: &str) -> (message: String)
    ensures
        message@ == give_up_message(index, attempt, error@),
{
    let mut message = joined("上传第 ", number(index as u128 + 1).as_str());
    message.append(" 块失败");
    message.append(
        if attempt == MAX_ATTEMPTS {
            "，重试 3 次后仍未成功"
        } else {
            ""
        },
    );
    message.append(": ");
    message.append(error);
    message
}

fn follow_send(
    session: Session,
    index: u64,
    attempt: u8,
    bytes: Vec<u8>,
    digest: String,
    outcome: Outcome,
) -> (step: Step)
    requires
        index < session@.count(),
        attempt <= MAX_ATTEMPTS,
    ensures
        step@ == after_send(
            session@,
            index,
            attempt,
            bytes@,
            digest@,
            outcome_view(outcome),
        ),
{
    let (received, retry) = match &outcome {
        Ok(reply) => (is_success(reply.status), retryable_upload_status(reply.status)),
        Err(_) => (false, true),
    };
    if received {
        let mut session = session;
        session.completed.insert(index);
        let mut reports = one_report(session.percent(), session.uploading_text());
        let ghost counted = report_views(reports@);
        let mut next = continue_from(session, index + 1);
        let ghost rest = report_views(next.reports@);
        let ghost first = reports@;
        let ghost second = next.reports@;
        reports.append(&mut next.reports);
        assert(report_views(first + second) == counted + rest);
        Step { phase: next.phase, reports }
    } else if retry && attempt < MAX_ATTEMPTS {
        let percent = session.percent();
        let message = retry_text(index, attempt);
        report_and_go_to(
            percent,
            message.as_str(),
            Phase::Send { session, index, attempt: attempt + 1, bytes, digest },
        )
    } else {
        fail(give_up_text(index, attempt, send_error_text(&outcome).as_str()))
    }
}

fn success_text(request: &UploadRequest, session: &Session) -> (message: String)
    ensures
        message@ == success_message(request@, session@),
{
    let mut message = joined("上传完成：", request.save_mode.as_str());
    message.append("/");
    message.append(request.save_name.as_str());
    message.append("，");
    message.append(number(session.archive.file_count as u128).as_str());
    message.append(" 个文件，压缩后 ");
    message.append(number(session.archive.bytes as u128).as_str());
    message.append(" 字节，共 ");
    message.append(number(chunk_count(session.archive.bytes) as u128).as_str());
    message.append(" 块");
    message.append(
        if session.archive.reused {
            "，已复用本地缓存"
        } else {
            ""
        },
    );
    message
}

fn follow_complete(request: &UploadRequest, session: Session, outcome: Outcome) -> (step: Step)
    ensures
        step@ == after_complete(request@, session@, outcome_view(outcome)),
{
    match outcome {
        Err(error) => fail(failed("完成上传失败", error.message.as_str())),
        Ok(reply) => {
            if is_success(reply.status) {
                let outcome = Ok(success_text(request, &session));
                return go_to(Phase::Clear { cache_dir: session.archive.cache_dir, outcome });
            }
            if reply.status == CONFLICT && has_text(reply.body.as_str(), "remote_snapshot_changed") {
                return go_to(
                    Phase::Clear {
                        cache_dir: session.archive.cache_dir,
                        outcome: Err(
                            "VPS 同名存档已被其他设备更新，请刷新列表并重新确认覆盖".to_owned(),
                        ),
                    },
                );
            }
            if reply.status == CONFLICT && has_text(
                reply.body.as_str(),
                "assembled_verification_failed",
            ) {
                return go_to(
                    Phase::Clear {
                        cache_dir: session.archive.cache_dir,
                        outcome: Err("服务器校验上传分片失败，下次上传将创建新会话".to_owned()),
                    },
                );
            }
            fail(refused("完成上传失败", &reply))
        },
    }
}

fn path_of(upload_id: &str) -> (path: String)
    ensures
        path@ == upload_path(upload_id@),
{
    joined("v1/uploads/", upload_id)
}

fn delay(attempt: u8) -> (seconds: u64)
    ensures
        seconds == delay_before(attempt),
{
    if attempt <= 1 {
        0
    } else if attempt == 2 {
        1
    } else if attempt == 3 {
        2
    } else {
        4
    }
}

/// A copy of some bytes.
fn copy_bytes(bytes: &Vec<u8>) -> (copy: Vec<u8>)
    ensures
        copy@ == bytes@,
{
    let copy = bytes.clone();
    assert(copy@ == bytes@);
    copy
}

impl Upload {
    #[verifier::type_invariant]
    spec fn is_well_formed(self) -> bool {
        well_formed(self@)
    }

    /// An upload at its start, and the first report.
    pub fn begin(request: UploadRequest) -> (res: (Upload, Vec<UploadProgress>))
        ensures
            res.0@ == upload_start(request@),
            report_views(res.1@) == seq![report(0, "正在检查游戏状态..."@)],
    {
        (
            Upload { request, phase: Phase::CheckGame },
            one_report(0, "正在检查游戏状态...".to_owned()),
        )
    }

    fn authorization(&self) -> (value: String)
        ensures
            value@ == authorization_value(self@.request.sync_key),
    {
        authorization(self.request.sync_key.as_str())
    }

    /// What is to be done next.
    pub fn action(&self) -> (action: UploadAction)
        ensures
            action@ == upload_action(self@),
    {
        proof {
            use_type_invariant(self);
        }
        let endpoint = self.request.endpoint.as_str();
        match &self.phase {
            Phase::CheckGame => UploadAction::ListProcesses,
            Phase::CheckSource => UploadAction::CheckSource { path: self.request.save_path.clone() },
            Phase::Prepare => UploadAction::PrepareArchive,
            Phase::Connect { .. } => UploadAction::BuildClient,
            Phase::LoadResume { archive } => UploadAction::LoadResume {
                file: resume_file(archive.cache_dir.copy()),
            },
            Phase::Query { state, .. } => UploadAction::QueryStatus {
                url: api_url(endpoint, path_of(state.upload_id.as_str()).as_str()),
                authorization: self.authorization(),
            },
            Phase::Create { archive } => UploadAction::CreateSession {
                url: api_url(endpoint, "v1/uploads"),
                authorization: self.authorization(),
                session: NewSession {
                    total_bytes: archive.bytes,
                    chunk_size: CHUNK_SIZE,
                    chunk_count: chunk_count(archive.bytes),
                    save_mode: self.request.save_mode.clone(),
                    save_name: self.request.save_name.clone(),
                    device_name: self.request.device_name.clone(),
                    game_version: "Unknown".to_owned(),
                    overwrite_confirmed: self.request.overwrite_confirmed,
                    zip_sha256: archive.zip_sha256.clone(),
                },
            },
            Phase::StoreResume { archive, state } => UploadAction::StoreResume {
                file: resume_file(archive.cache_dir.copy()),
                state: state.copy(),
            },
            Phase::Open { session } => UploadAction::OpenArchive {
                file: session.archive.path.copy(),
            },
            Phase::Read { session, index } => {
                let length = chunk_length(session.archive.bytes, *index);
                UploadAction::ReadChunk { offset: *index * CHUNK_SIZE, length }
            },
            Phase::Send { session, index, attempt, bytes, digest } => {
                let mut path = path_of(session.upload_id.as_str());
                path.append("/chunks/");
                path.append(number(*index as u128).as_str());
                UploadAction::SendChunk {
                    delay_seconds: delay(*attempt),
                    url: api_url(endpoint, path.as_str()),
                    authorization: self.authorization(),
                    digest: digest.clone(),
                    bytes: copy_bytes(bytes),
                }
            },
            Phase::Complete { session } => {
                let mut path = path_of(session.upload_id.as_str());
                path.append("/complete");
                UploadAction::CompleteUpload {
                    url: api_url(endpoint, path.as_str()),
                    authorization: self.authorization(),
                }
            },
            Phase::Clear { cache_dir, .. } => UploadAction::RemoveResume {
                file: resume_file(cache_dir.copy()),
            },
            Phase::Finished { outcome } => UploadAction::Finish { outcome: copy_result(outcome) },
        }
    }

    /// Takes what the pending action came to, and returns the upload after it with what is to be
    /// reported. Anything that does not answer the pending action changes nothing.
    pub fn handle(self, event: UploadEvent) -> (res: (Upload, Vec<UploadProgress>))
        ensures
            res.0@ == upload_next(self@, event@),
            report_views(res.1@) == upload_step(self@, event@).reports,
    {
        proof {
            use_type_invariant(&self);
            law_uploads_stay_well_formed(self@, event@);
        }
        let Upload { request, phase } = self;
        let step = match (phase, event) {
            (Phase::CheckGame, UploadEvent::Processes(listing)) => check_game(&request, &listing),
            (Phase::CheckSource, UploadEvent::SourceIsDirectory(is_directory)) => {
                if is_directory {
                    go_to(Phase::Prepare)
                } else {
                    fail("本地存档目录不存在".to_owned())
                }
            },
            (Phase::Prepare, UploadEvent::Archive(prepared)) => match prepared {
                Ok(archive) => go_to(Phase::Connect { archive }),
                Err(e) => fail(e),
            },
            (Phase::Connect { archive }, UploadEvent::Client(built)) => match built {
                Ok(_) => go_to(Phase::LoadResume { archive }),
                Err(e) => fail(failed("创建网络客户端失败", e.as_str())),
            },
            (Phase::LoadResume { archive }, UploadEvent::SavedResume(saved)) => follow_saved(
                &request,
                archive,
                saved,
            ),
            (Phase::Query { archive, state }, UploadEvent::Status(answer)) => follow_status(
                archive,
                state,
                answer,
            ),
            (Phase::Create { archive }, UploadEvent::Session(answer)) => follow_create(
                &request,
                archive,
                answer,
            ),
            (Phase::StoreResume { archive, state }, UploadEvent::ResumeStored(stored)) =>
                match stored {
                Ok(_) => upload(
                    Session { archive, upload_id: state.upload_id, completed: HashSet::new() },
                ),
                Err(e) => fail(e),
            },
            (Phase::Open { session }, UploadEvent::Opened(opened)) => match opened {
                Ok(_) => continue_from(session, 0),
                Err(e) => fail(failed("打开压缩包失败", e.as_str())),
            },
            (Phase::Read { session, index }, UploadEvent::Chunk(read)) => follow_read(
                session,
                index,
                read,
            ),
            (
                Phase::Send { session, index, attempt, bytes, digest },
                UploadEvent::Sent(outcome),
            ) => follow_send(session, index, attempt, bytes, digest, outcome),
            (Phase::Complete { session }, UploadEvent::Completed(outcome)) => follow_complete(
                &request,
                session,
                outcome,
            ),
            (Phase::Clear { outcome, .. }, UploadEvent::ResumeRemoved) => {
                let reports = if outcome.is_ok() {
                    one_report(100, "服务器保存完成".to_owned())
                } else {
                    no_reports()
                };
                Step { phase: Phase::Finished { outcome }, reports }
            },
            (phase, _) => go_to(phase),
        };
        (Upload { request, phase: step.phase }, step.reports)
    }
}

}
