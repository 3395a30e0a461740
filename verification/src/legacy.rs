//! The upload of a save in one piece, without a cache and without a session.

use crate::compress::count_result;
use crate::endpoint::{api_address, api_url, law_address_joins_endpoint_and_path};
use crate::http::{
    authorization, authorization_value, is_success, is_success_status, outcome_view, refused,
    refused_text, HttpReply, HttpReplyView, Outcome, OutcomeView,
};
use crate::messages::{failed, failed_text};
use crate::names::{clean_component, is_clean_component, unclean_message};
use crate::process::{game_is_running, listing_names_game};
use crate::text::{
    copy_result, decimal, done_result, joined, number, text_option, text_result, trim_end_char,
};
use crate::upload::model::game_running_message;
use crate::upload::types::{UploadRequest, UploadRequestView};
use vstd::prelude::*;

verus! {

/// What is to be done next for an upload in one piece.
pub enum LegacyAction {
    /// List the running processes.
    ListProcesses,
    /// See whether the save is a directory.
    CheckSource { path: String },
    /// Pack the save into a temporary archive.
    Compress,
    /// Find the size of the archive.
    Measure,
    /// Make a network client.
    BuildClient,
    /// Open the archive.
    OpenArchive,
    /// Send the archive.
    Send {
        url: String,
        authorization: String,
        content_length: u64,
        save_mode: String,
        save_name: String,
        device_name: String,
    },
    /// Remove the archive; a failure to do so is of no consequence.
    RemoveArchive,
    /// The upload is over.
    Finish { outcome: Result<String, String> },
}

pub enum LegacyActionView {
    ListProcesses,
    CheckSource { path: Seq<char> },
    Compress,
    Measure,
    BuildClient,
    OpenArchive,
    Send {
        url: Seq<char>,
        authorization: Seq<char>,
        content_length: u64,
        save_mode: Seq<char>,
        save_name: Seq<char>,
        device_name: Seq<char>,
    },
    RemoveArchive,
    Finish { outcome: Result<Seq<char>, Seq<char>> },
}

impl View for LegacyAction {
    type V = LegacyActionView;

    open spec fn view(&self) -> LegacyActionView {
        match *self {
            LegacyAction::ListProcesses => LegacyActionView::ListProcesses,
            LegacyAction::CheckSource { path } => LegacyActionView::CheckSource { path: path@ },
            LegacyAction::Compress => LegacyActionView::Compress,
            LegacyAction::Measure => LegacyActionView::Measure,
            LegacyAction::BuildClient => LegacyActionView::BuildClient,
            LegacyAction::OpenArchive => LegacyActionView::OpenArchive,
            LegacyAction::Send {
                url,
                authorization,
                content_length,
                save_mode,
                save_name,
                device_name,
            } => LegacyActionView::Send {
                url: url@,
                authorization: authorization@,
                content_length,
                save_mode: save_mode@,
                save_name: save_name@,
                device_name: device_name@,
            },
            LegacyAction::RemoveArchive => LegacyActionView::RemoveArchive,
            LegacyAction::Finish { outcome } => LegacyActionView::Finish {
                outcome: text_result(outcome),
            },
        }
    }
}

/// What an action of an upload in one piece came to.
pub enum LegacyEvent {
    Processes(Option<String>),
    SourceChecked(bool),
    Compressed(Result<u64, String>),
    Measured(Result<u64, String>),
    Answered(Outcome),
    Done(Result<(), String>),
}

pub enum LegacyEventView {
    Processes(Option<Seq<char>>),
    SourceChecked(bool),
    Compressed(Result<u64, Seq<char>>),
    Measured(Result<u64, Seq<char>>),
    Answered(OutcomeView),
    Done(Result<(), Seq<char>>),
}

impl View for LegacyEvent {
    type V = LegacyEventView;

    open spec fn view(&self) -> LegacyEventView {
        match *self {
            LegacyEvent::Processes(listing) => LegacyEventView::Processes(text_option(listing)),
            LegacyEvent::SourceChecked(found) => LegacyEventView::SourceChecked(found),
            LegacyEvent::Compressed(r) => LegacyEventView::Compressed(count_result(r)),
            LegacyEvent::Measured(r) => LegacyEventView::Measured(count_result(r)),
            LegacyEvent::Answered(outcome) => LegacyEventView::Answered(outcome_view(outcome)),
            LegacyEvent::Done(r) => LegacyEventView::Done(done_result(r)),
        }
    }
}

/// What an upload in one piece is waiting for.
enum LegacyPhase {
    CheckGame,
    CheckSource,
    Compress,
    Measure { file_count: u64 },
    Connect { file_count: u64, bytes: u64 },
    Open { file_count: u64, bytes: u64 },
    Send { file_count: u64, bytes: u64 },
    RemoveArchive { file_count: u64, bytes: u64, reply: HttpReply },
    Finished { outcome: Result<String, String> },
}

pub enum LegacyPhaseView {
    /// Which processes run.
    CheckGame,
    /// Whether the save is a directory.
    CheckSource,
    /// The archive.
    Compress,
    /// The size of the archive.
    Measure { file_count: u64 },
    /// A network client.
    Connect { file_count: u64, bytes: u64 },
    /// The archive, open.
    Open { file_count: u64, bytes: u64 },
    /// The answer of the server.
    Send { file_count: u64, bytes: u64 },
    /// That the archive is gone; the server has answered.
    RemoveArchive { file_count: u64, bytes: u64, reply: HttpReplyView },
    /// Nothing any more.
    Finished { outcome: Result<Seq<char>, Seq<char>> },
}

impl View for LegacyPhase {
    type V = LegacyPhaseView;

    closed spec fn view(&self) -> LegacyPhaseView {
        match *self {
            LegacyPhase::CheckGame => LegacyPhaseView::CheckGame,
            LegacyPhase::CheckSource => LegacyPhaseView::CheckSource,
            LegacyPhase::Compress => LegacyPhaseView::Compress,
            LegacyPhase::Measure { file_count } => LegacyPhaseView::Measure { file_count },
            LegacyPhase::Connect { file_count, bytes } => LegacyPhaseView::Connect {
                file_count,
                bytes,
            },
            LegacyPhase::Open { file_count, bytes } => LegacyPhaseView::Open { file_count, bytes },
            LegacyPhase::Send { file_count, bytes } => LegacyPhaseView::Send { file_count, bytes },
            LegacyPhase::RemoveArchive { file_count, bytes, reply } =>
                LegacyPhaseView::RemoveArchive { file_count, bytes, reply: reply@ },
            LegacyPhase::Finished { outcome } => LegacyPhaseView::Finished {
                outcome: text_result(outcome),
            },
        }
    }
}

/// An upload in one piece under way.
pub struct LegacyView {
    pub request: UploadRequestView,
    pub phase: LegacyPhaseView,
}

/// An upload in one piece at its start.
pub open spec fn legacy_start(request: UploadRequestView) -> LegacyView {
    LegacyView { request, phase: LegacyPhaseView::CheckGame }
}

/// The upload ends with this message.
pub open spec fn legacy_fails(message: Seq<char>) -> LegacyPhaseView {
    LegacyPhaseView::Finished { outcome: Err(message) }
}

/// After the check for the game.
pub open spec fn legacy_after_processes(
    request: UploadRequestView,
    listing: Option<Seq<char>>,
) -> LegacyPhaseView {
    if listing is Some && listing_names_game(listing->0) {
        legacy_fails(game_running_message())
    } else if !is_clean_component(request.save_mode) {
        legacy_fails(unclean_message("存档模式"@))
    } else if !is_clean_component(request.save_name) {
        legacy_fails(unclean_message("存档名称"@))
    } else {
        LegacyPhaseView::CheckSource
    }
}

/// The message of an upload in one piece that succeeded.
pub open spec fn legacy_message(
    request: UploadRequestView,
    file_count: u64,
    bytes: u64,
) -> Seq<char> {
    "上传完成："@ + request.save_mode + "/"@ + request.save_name + "，"@ + decimal(
        file_count as nat,
    ) + " 个文件，压缩后 "@ + decimal(bytes as nat) + " 字节"@
}

/// What the upload comes to, given the reply of the server.
pub open spec fn legacy_outcome(
    request: UploadRequestView,
    file_count: u64,
    bytes: u64,
    reply: HttpReplyView,
) -> Result<Seq<char>, Seq<char>> {
    if is_success_status(reply.status) {
        Ok(legacy_message(request, file_count, bytes))
    } else {
        Err(refused_text("上传失败"@, reply.status, reply.body))
    }
}

/// The upload after an event; one that does not answer the pending action changes nothing.
pub open spec fn legacy_next(s: LegacyView, event: LegacyEventView) -> LegacyView {
    LegacyView {
        phase: match (s.phase, event) {
            (LegacyPhaseView::CheckGame, LegacyEventView::Processes(listing)) =>
                legacy_after_processes(s.request, listing),
            (LegacyPhaseView::CheckSource, LegacyEventView::SourceChecked(found)) => if found {
                LegacyPhaseView::Compress
            } else {
                legacy_fails("本地存档目录不存在"@)
            },
            (LegacyPhaseView::Compress, LegacyEventView::Compressed(packed)) => match packed {
                Ok(file_count) => LegacyPhaseView::Measure { file_count },
                Err(e) => legacy_fails(e),
            },
            (LegacyPhaseView::Measure { file_count }, LegacyEventView::Measured(measured)) =>
                match measured {
                Ok(bytes) => LegacyPhaseView::Connect { file_count, bytes },
                Err(e) => legacy_fails(failed_text("读取压缩包大小失败"@, e)),
            },
            (LegacyPhaseView::Connect { file_count, bytes }, LegacyEventView::Done(done)) =>
                match done {
                Ok(_) => LegacyPhaseView::Open { file_count, bytes },
                Err(e) => legacy_fails(failed_text("创建网络客户端失败"@, e)),
            },
            (LegacyPhaseView::Open { file_count, bytes }, LegacyEventView::Done(done)) =>
                match done {
                Ok(_) => LegacyPhaseView::Send { file_count, bytes },
                Err(e) => legacy_fails(failed_text("打开压缩包失败"@, e)),
            },
            (LegacyPhaseView::Send { file_count, bytes }, LegacyEventView::Answered(outcome)) =>
                match outcome {
                Ok(reply) => LegacyPhaseView::RemoveArchive { file_count, bytes, reply },
                Err(e) => legacy_fails(failed_text("上传失败"@, e.message)),
            },
            (
                LegacyPhaseView::RemoveArchive { file_count, bytes, reply },
                LegacyEventView::Done(_),
            ) => LegacyPhaseView::Finished {
                outcome: legacy_outcome(s.request, file_count, bytes, reply),
            },
            (phase, _) => phase,
        },
        ..s
    }
}

/// What is to be done next.
pub open spec fn legacy_action(s: LegacyView) -> LegacyActionView {
    match s.phase {
        LegacyPhaseView::CheckGame => LegacyActionView::ListProcesses,
        LegacyPhaseView::CheckSource => LegacyActionView::CheckSource {
            path: s.request.save_path,
        },
        LegacyPhaseView::Compress => LegacyActionView::Compress,
        LegacyPhaseView::Measure { .. } => LegacyActionView::Measure,
        LegacyPhaseView::Connect { .. } => LegacyActionView::BuildClient,
        LegacyPhaseView::Open { .. } => LegacyActionView::OpenArchive,
        LegacyPhaseView::Send { bytes, .. } => LegacyActionView::Send {
            url: api_address(s.request.endpoint, "v1/snapshot"@),
            authorization: authorization_value(s.request.sync_key),
            content_length: bytes,
            save_mode: s.request.save_mode,
            save_name: s.request.save_name,
            device_name: s.request.device_name,
        },
        LegacyPhaseView::RemoveArchive { .. } => LegacyActionView::RemoveArchive,
        LegacyPhaseView::Finished { outcome } => LegacyActionView::Finish { outcome },
    }
}

fn fail(message: String) -> (phase: LegacyPhase)
    ensures
        phase@ == legacy_fails(message@),
{
    LegacyPhase::Finished { outcome: Err(message) }
}

fn check_game(request: &UploadRequest, listing: &Option<String>) -> (phase: LegacyPhase)
    ensures
        phase@ == legacy_after_processes(request@, text_option(*listing)),
{
    if game_is_running(listing) {
        return fail("检测到 Project Zomboid 正在运行，请先退出游戏".to_owned());
    }
    match clean_component(request.save_mode.as_str(), "存档模式") {
        Err(e) => fail(e),
        Ok(_) => match clean_component(request.save_name.as_str(), "存档名称") {
            Err(e) => fail(e),
            Ok(_) => LegacyPhase::CheckSource,
        },
    }
}

fn conclude(request: &UploadRequest, file_count: u64, bytes: u64, reply: &HttpReply) -> (res: Result<
    String,
    String,
>)
    ensures
        text_result(res) == legacy_outcome(request@, file_count, bytes, reply@),
{
    if !is_success(reply.status) {
        return Err(refused("上传失败", reply));
    }
    let mut message = joined("上传完成：", request.save_mode.as_str());
    message.append("/");
    message.append(request.save_name.as_str());
    message.append("，");
    message.append(number(file_count as u128).as_str());
    message.append(" 个文件，压缩后 ");
    message.append(number(bytes as u128).as_str());
    message.append(" 字节");
    Ok(message)
}

/// An upload in one piece under way.
pub struct LegacyUpload {
    request: UploadRequest,
    phase: LegacyPhase,
}

impl View for LegacyUpload {
    type V = LegacyView;

    closed spec fn view(&self) -> LegacyView {
        LegacyView { request: self.request@, phase: self.phase@ }
    }
}

impl LegacyUpload {
    /// Starts an upload in one piece.
    pub fn begin(request: UploadRequest) -> (upload: LegacyUpload)
        ensures
            upload@ == legacy_start(request@),
    {
        LegacyUpload { request, phase: LegacyPhase::CheckGame }
    }

    /// What is to be done next.
    pub fn action(&self) -> (action: LegacyAction)
        ensures
            action@ == legacy_action(self@),
    {
        match &self.phase {
            LegacyPhase::CheckGame => LegacyAction::ListProcesses,
            LegacyPhase::CheckSource => LegacyAction::CheckSource {
                path: self.request.save_path.clone(),
            },
            LegacyPhase::Compress => LegacyAction::Compress,
            LegacyPhase::Measure { .. } => LegacyAction::Measure,
            LegacyPhase::Connect { .. } => LegacyAction::BuildClient,
            LegacyPhase::Open { .. } => LegacyAction::OpenArchive,
            LegacyPhase::Send { bytes, .. } => LegacyAction::Send {
                url: api_url(self.request.endpoint.as_str(), "v1/snapshot"),
                authorization: authorization(self.request.sync_key.as_str()),
                content_length: *bytes,
                save_mode: self.request.save_mode.clone(),
                save_name: self.request.save_name.clone(),
                device_name: self.request.device_name.clone(),
            },
            LegacyPhase::RemoveArchive { .. } => LegacyAction::RemoveArchive,
            LegacyPhase::Finished { outcome } => LegacyAction::Finish {
                outcome: copy_result(outcome),
            },
        }
    }

    /// Takes what the pending action came to.
    pub fn handle(self, event: LegacyEvent) -> (next: LegacyUpload)
        ensures
            next@ == legacy_next(self@, event@),
    {
        let LegacyUpload { request, phase } = self;
        let phase = match (phase, event) {
            (LegacyPhase::CheckGame, LegacyEvent::Processes(listing)) => check_game(
                &request,
                &listing,
            ),
            (LegacyPhase::CheckSource, LegacyEvent::SourceChecked(found)) => {
                if found {
                    LegacyPhase::Compress
                } else {
                    fail("本地存档目录不存在".to_owned())
                }
            },
            (LegacyPhase::Compress, LegacyEvent::Compressed(packed)) => match packed {
                Ok(file_count) => LegacyPhase::Measure { file_count },
                Err(e) => fail(e),
            },
            (LegacyPhase::Measure { file_count }, LegacyEvent::Measured(measured)) =>
                match measured {
                Ok(bytes) => LegacyPhase::Connect { file_count, bytes },
                Err(e) => fail(failed("读取压缩包大小失败", e.as_str())),
            },
            (LegacyPhase::Connect { file_count, bytes }, LegacyEvent::Done(done)) => match done {
                Ok(_) => LegacyPhase::Open { file_count, bytes },
                Err(e) => fail(failed("创建网络客户端失败", e.as_str())),
            },
            (LegacyPhase::Open { file_count, bytes }, LegacyEvent::Done(done)) => match done {
                Ok(_) => LegacyPhase::Send { file_count, bytes },
                Err(e) => fail(failed("打开压缩包失败", e.as_str())),
            },
            (LegacyPhase::Send { file_count, bytes }, LegacyEvent::Answered(outcome)) =>
                match outcome {
                Ok(reply) => LegacyPhase::RemoveArchive { file_count, bytes, reply },
                Err(e) => fail(failed("上传失败", e.message.as_str())),
            },
            (LegacyPhase::RemoveArchive { file_count, bytes, reply }, LegacyEvent::Done(_)) =>
                LegacyPhase::Finished { outcome: conclude(&request, file_count, bytes, &reply) },
            (phase, _) => phase,
        };
        LegacyUpload { request, phase }
    }
}

/// An upload in one piece starts with the check for the game, and ends there when the game runs.
pub proof fn law_running_game_blocks_legacy_upload(request: UploadRequestView, listing: Seq<char>)
    requires
        listing_names_game(listing),
    ensures
        legacy_action(legacy_start(request)) == LegacyActionView::ListProcesses,
        legacy_action(
            legacy_next(legacy_start(request), LegacyEventView::Processes(Some(listing))),
        ) == (LegacyActionView::Finish { outcome: Err(game_running_message()) }),
{
}

/// An archive that the server has answered to is removed, whether it was accepted or refused; only
/// one that was accepted makes a successful upload.
pub proof fn law_answered_archive_is_removed(s: LegacyView, reply: HttpReplyView)
    requires
        s.phase is Send,
    ensures
        ({
            let answered = legacy_next(s, LegacyEventView::Answered(Ok(reply)));
            let ended = legacy_next(answered, LegacyEventView::Done(Ok(())));
            &&& legacy_action(answered) == LegacyActionView::RemoveArchive
            &&& ended.phase is Finished
            &&& ended.phase->outcome is Ok <==> is_success_status(reply.status)
        }),
{
}

/// An upload in one piece goes its way as long as nothing fails: the save is looked up and packed,
/// and the whole archive is sent to `v1/snapshot` with the mode, the name and the device as they
/// are, under the key of the user. Its outcome is what the server says.
pub proof fn law_way_of_a_legacy_upload(
    request: UploadRequestView,
    listing: Option<Seq<char>>,
    file_count: u64,
    bytes: u64,
    reply: HttpReplyView,
    removed: Result<(), Seq<char>>,
)
    requires
        listing is Some ==> !listing_names_game(listing->0),
        is_clean_component(request.save_mode),
        is_clean_component(request.save_name),
    ensures
        ({
            let done = LegacyEventView::Done(Ok(()));
            let s0 = legacy_start(request);
            let s1 = legacy_next(s0, LegacyEventView::Processes(listing));
            let s2 = legacy_next(s1, LegacyEventView::SourceChecked(true));
            let s3 = legacy_next(s2, LegacyEventView::Compressed(Ok(file_count)));
            let s4 = legacy_next(s3, LegacyEventView::Measured(Ok(bytes)));
            let s5 = legacy_next(s4, done);
            let s6 = legacy_next(s5, done);
            let s7 = legacy_next(s6, LegacyEventView::Answered(Ok(reply)));
            let s8 = legacy_next(s7, LegacyEventView::Done(removed));
            &&& legacy_action(s1) == (LegacyActionView::CheckSource { path: request.save_path })
            &&& legacy_action(s2) == LegacyActionView::Compress
            &&& legacy_action(s3) == LegacyActionView::Measure
            &&& legacy_action(s4) == LegacyActionView::BuildClient
            &&& legacy_action(s5) == LegacyActionView::OpenArchive
            &&& legacy_action(s6) == (LegacyActionView::Send {
                url: trim_end_char(request.endpoint, '/') + seq!['/'] + "v1/snapshot"@,
                authorization: "Bearer "@ + request.sync_key,
                content_length: bytes,
                save_mode: request.save_mode,
                save_name: request.save_name,
                device_name: request.device_name,
            })
            &&& legacy_action(s7) == LegacyActionView::RemoveArchive
            &&& legacy_action(s8) == (LegacyActionView::Finish {
                outcome: if 200 <= reply.status <= 299 {
                    Ok::<Seq<char>, Seq<char>>(
                        "上传完成："@ + request.save_mode + "/"@ + request.save_name + "，"@ + decimal(
                            file_count as nat,
                        ) + " 个文件，压缩后 "@ + decimal(bytes as nat) + " 字节"@,
                    )
                } else {
                    Err(refused_text("上传失败"@, reply.status, reply.body))
                },
            })
        }),
{
    reveal_strlit("v1/snapshot");
    law_address_joins_endpoint_and_path(request.endpoint, "v1/snapshot"@);
}

/// A step that fails ends an upload in one piece with its reason.
pub proof fn law_failed_step_ends_the_legacy_upload(
    request: UploadRequestView,
    file_count: u64,
    bytes: u64,
    e: Seq<char>,
    error: crate::http::TransportErrorView,
)
    ensures
        ({
            let ends = |phase: LegacyPhaseView, event: LegacyEventView, message: Seq<char>|
                legacy_action(legacy_next(LegacyView { request, phase }, event))
                    == (LegacyActionView::Finish { outcome: Err(message) });
            let failed = LegacyEventView::Done(Err(e));
            &&& !is_clean_component(request.save_mode) ==> ends(
                LegacyPhaseView::CheckGame,
                LegacyEventView::Processes(None),
                "无效的 "@ + "存档模式"@,
            )
            &&& is_clean_component(request.save_mode) && !is_clean_component(request.save_name)
                ==> ends(
                LegacyPhaseView::CheckGame,
                LegacyEventView::Processes(None),
                "无效的 "@ + "存档名称"@,
            )
            &&& ends(
                LegacyPhaseView::CheckSource,
                LegacyEventView::SourceChecked(false),
                "本地存档目录不存在"@,
            )
            &&& ends(LegacyPhaseView::Compress, LegacyEventView::Compressed(Err(e)), e)
            &&& ends(
                LegacyPhaseView::Measure { file_count },
                LegacyEventView::Measured(Err(e)),
                "读取压缩包大小失败"@ + ": "@ + e,
            )
            &&& ends(
                LegacyPhaseView::Connect { file_count, bytes },
                failed,
                "创建网络客户端失败"@ + ": "@ + e,
            )
            &&& ends(
                LegacyPhaseView::Open { file_count, bytes },
                failed,
                "打开压缩包失败"@ + ": "@ + e,
            )
            &&& ends(
                LegacyPhaseView::Send { file_count, bytes },
                LegacyEventView::Answered(Err(error)),
                "上传失败"@ + ": "@ + error.message,
            )
        }),
{
}

/// An upload in one piece moves on only by an answer to what it asked for; anything else leaves it
/// as it is, and one that is over stays so.
pub proof fn law_only_an_answer_moves_a_legacy_upload(s: LegacyView, event: LegacyEventView)
    requires
        legacy_next(s, event) != s,
    ensures
        match legacy_action(s) {
            LegacyActionView::ListProcesses => event is Processes,
            LegacyActionView::CheckSource { .. } => event is SourceChecked,
            LegacyActionView::Compress => event is Compressed,
            LegacyActionView::Measure => event is Measured,
            LegacyActionView::Send { .. } => event is Answered,
            LegacyActionView::Finish { .. } => false,
            _ => event is Done,
        },
        legacy_next(s, event).request == s.request,
{
}

}
