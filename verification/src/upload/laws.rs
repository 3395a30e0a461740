//! What an upload asks for, and what it makes of each answer.

use crate::chunks::{
    chunk_count_of, completed_bytes, law_chunks_are_as_few_as_hold_the_archive,
    law_each_completed_chunk_counts_once,
};
use crate::digest::{sha256_hex, text_digest};
use crate::endpoint::{law_address_joins_endpoint_and_path, normalized_endpoint};
use crate::http::{error_details, refused_text, HttpReplyView, OutcomeView, TransportErrorView};
use crate::names::is_clean_component;
use crate::paths::LocalPathView;
use crate::process::listing_names_game;
use crate::progress::{percent_of, ProgressView};
use crate::resume::{PreparedArchiveView, ResumeStateView, StatusAnswerView, UploadStatusView};
use crate::text::{contains_text, decimal, trim_end_char};
use crate::upload::model::{
    chunk_received, upload_action, upload_next, upload_start, upload_step, PhaseView, SessionView,
    UploadView,
};
use crate::upload::types::{
    ChunkReadView, NewSessionView, SessionAnswerView, UploadActionView, UploadEventView,
    UploadRequestView,
};
use vstd::prelude::*;

verus! {

/// An upload that the server still has is continued, whatever chunks it has already: a status with
/// the stored identifier, size, division into chunks, mode, name and digest leads on with exactly
/// these chunks done, and with any other status a new upload is opened.
pub proof fn law_confirmed_upload_is_continued(
    request: UploadRequestView,
    archive: PreparedArchiveView,
    state: ResumeStateView,
    reply: HttpReplyView,
    status: UploadStatusView,
)
    requires
        200 <= reply.status <= 299,
    ensures
        ({
            let next = upload_next(
                UploadView { request, phase: PhaseView::Query { archive, state } },
                UploadEventView::Status(
                    StatusAnswerView { outcome: Ok(reply), parsed: Ok(status) },
                ),
            ).phase;
            if status.upload_id == state.upload_id && status.total_bytes == state.zip_bytes
                && status.chunk_size == state.chunk_size && status.chunk_count
                == state.chunk_count && status.save_mode == state.save_mode && status.save_name
                == state.save_name && status.zip_sha256 == state.zip_sha256 {
                &&& next matches PhaseView::Open { session }
                &&& session.archive == archive
                &&& session.upload_id == state.upload_id
                &&& forall|i: u64| #[trigger]
                    session.completed.contains(i) <==> status.completed_chunks.contains(i)
            } else {
                next == (PhaseView::Create { archive })
            }
        }),
{
}

/// When the server does not tell the status of an upload, the upload ends with the reason, unless
/// it says that it does not know the upload: then a new one is opened.
pub proof fn law_untold_status_ends_the_upload(
    request: UploadRequestView,
    archive: PreparedArchiveView,
    state: ResumeStateView,
    answer: StatusAnswerView,
)
    ensures
        ({
            let next = upload_next(
                UploadView { request, phase: PhaseView::Query { archive, state } },
                UploadEventView::Status(answer),
            ).phase;
            match answer.outcome {
                Err(error) => {
                    let reason = "查询上传进度失败"@ + ": "@ + error_details(error);
                    next == if contains_text(reason, "HTTP 404"@) {
                        PhaseView::Create { archive }
                    } else {
                        PhaseView::Finished { outcome: Err(reason) }
                    }
                },
                Ok(reply) => {
                    &&& reply.status == 404 ==> next == (PhaseView::Create { archive })
                    &&& reply.status != 404 && reply.status / 100 != 2 ==> {
                        let reason = refused_text(
                            "查询上传进度失败"@,
                            reply.status,
                            reply.body,
                        );
                        next == if contains_text(reason, "HTTP 404"@) {
                            PhaseView::Create { archive }
                        } else {
                            PhaseView::Finished { outcome: Err(reason) }
                        }
                    }
                    &&& reply.status / 100 == 2 && answer.parsed is Err ==> {
                        let reason = "上传进度格式错误"@ + ": "@ + answer.parsed->Err_0;
                        next == if contains_text(reason, "HTTP 404"@) {
                            PhaseView::Create { archive }
                        } else {
                            PhaseView::Finished { outcome: Err(reason) }
                        }
                    }
                },
            }
        }),
{
}

/// A stored state is followed up exactly when it is about this upload: of the known format, for the
/// same server and key, the same save, the same files in the same archive, and the same chunks of
/// 256 KiB.
pub proof fn law_stored_state_of_this_upload_is_followed_up(
    request: UploadRequestView,
    archive: PreparedArchiveView,
    state: ResumeStateView,
)
    ensures
        ({
            let s = UploadView { request, phase: PhaseView::LoadResume { archive } };
            let next = upload_next(s, UploadEventView::SavedResume(Some(state))).phase;
            if state.schema_version == 1 && state.endpoint_hash == text_digest(
                normalized_endpoint(request.endpoint),
            ) && state.sync_key_hash == text_digest(request.sync_key) && state.save_mode
                == request.save_mode && state.save_name == request.save_name && state.fingerprint
                == archive.fingerprint && state.zip_sha256 == archive.zip_sha256
                && state.zip_bytes == archive.bytes && state.chunk_size == 262144
                && state.chunk_count == chunk_count_of(archive.bytes as nat) {
                next == (PhaseView::Query { archive, state })
            } else {
                next == (PhaseView::Create { archive })
            }
        }),
        upload_next(
            UploadView { request, phase: PhaseView::LoadResume { archive } },
            UploadEventView::SavedResume(None),
        ).phase == (PhaseView::Create { archive }),
{
    law_chunks_are_as_few_as_hold_the_archive(archive.bytes as nat, 0);
}

/// A new upload goes its way as long as nothing fails: the game is looked for, the save is looked
/// up, its archive is prepared, the stored state is looked up, a new upload is opened on the server
/// and remembered, and then the archive is opened, with no chunk sent yet.
pub proof fn law_way_of_a_new_upload(
    request: UploadRequestView,
    listing: Option<Seq<char>>,
    archive: PreparedArchiveView,
    reply: HttpReplyView,
    upload_id: Seq<char>,
)
    requires
        listing is Some ==> !listing_names_game(listing->0),
        is_clean_component(request.save_mode),
        is_clean_component(request.save_name),
        200 <= reply.status <= 299,
    ensures
        ({
            let s0 = upload_start(request);
            let s1 = upload_next(s0, UploadEventView::Processes(listing));
            let s2 = upload_next(s1, UploadEventView::SourceIsDirectory(true));
            let s3 = upload_next(s2, UploadEventView::Archive(Ok(archive)));
            let s4 = upload_next(s3, UploadEventView::Client(Ok(())));
            let s5 = upload_next(s4, UploadEventView::SavedResume(None));
            let answer = SessionAnswerView { outcome: Ok(reply), parsed: Ok(upload_id) };
            let s6 = upload_next(s5, UploadEventView::Session(answer));
            let s7 = upload_next(s6, UploadEventView::ResumeStored(Ok(())));
            &&& upload_action(s0) == UploadActionView::ListProcesses
            &&& upload_action(s1) == (UploadActionView::CheckSource { path: request.save_path })
            &&& upload_action(s2) == UploadActionView::PrepareArchive
            &&& upload_action(s3) == UploadActionView::BuildClient
            &&& upload_action(s4) is LoadResume
            &&& upload_action(s5) is CreateSession
            &&& upload_action(s6) is StoreResume
            &&& upload_action(s7) == (UploadActionView::OpenArchive { file: archive.path })
            &&& s7.phase == (PhaseView::Open {
                session: SessionView { archive, upload_id, completed: Set::empty() },
            })
        }),
{
}

/// What is stored of a new upload is what it takes to find it again: the identifier that the server
/// gave, and what the upload is about. It is stored in the cache of the save, as `resume.json`.
pub proof fn law_new_upload_is_remembered(
    request: UploadRequestView,
    archive: PreparedArchiveView,
    reply: HttpReplyView,
    upload_id: Seq<char>,
)
    requires
        200 <= reply.status <= 299,
    ensures
        ({
            let next = upload_next(
                UploadView { request, phase: PhaseView::Create { archive } },
                UploadEventView::Session(
                    SessionAnswerView { outcome: Ok(reply), parsed: Ok(upload_id) },
                ),
            );
            &&& upload_action(next) matches UploadActionView::StoreResume { file, state }
            &&& file.anchor == archive.cache_dir.anchor
            &&& file.components == archive.cache_dir.components.push("resume.json"@)
            &&& state == (ResumeStateView {
                schema_version: 1,
                endpoint_hash: text_digest(normalized_endpoint(request.endpoint)),
                sync_key_hash: text_digest(request.sync_key),
                save_mode: request.save_mode,
                save_name: request.save_name,
                fingerprint: archive.fingerprint,
                zip_sha256: archive.zip_sha256,
                zip_bytes: archive.bytes,
                chunk_size: 262144,
                chunk_count: chunk_count_of(archive.bytes as nat) as u64,
                upload_id,
            })
            &&& upload_action(
                UploadView { request, phase: PhaseView::LoadResume { archive } },
            ) == (UploadActionView::LoadResume { file })
        }),
{
}

/// A request to open an upload tells all that the server has to know of it.
pub proof fn law_new_session_tells_all(s: UploadView, archive: PreparedArchiveView)
    requires
        s.phase == (PhaseView::Create { archive }),
    ensures
        upload_action(s) == (UploadActionView::CreateSession {
            url: trim_end_char(s.request.endpoint, '/') + seq!['/'] + "v1/uploads"@,
            authorization: "Bearer "@ + s.request.sync_key,
            session: NewSessionView {
                total_bytes: archive.bytes,
                chunk_size: 262144,
                chunk_count: chunk_count_of(archive.bytes as nat) as u64,
                save_mode: s.request.save_mode,
                save_name: s.request.save_name,
                device_name: s.request.device_name,
                game_version: "Unknown"@,
                overwrite_confirmed: s.request.overwrite_confirmed,
                zip_sha256: archive.zip_sha256,
            },
        }),
{
    reveal_strlit("v1/uploads");
    law_address_joins_endpoint_and_path(s.request.endpoint, "v1/uploads"@);
}

/// The requests about an upload go to its place on the server: its status is asked for there, each
/// chunk goes to its own number there, and putting the chunks together is asked for there.
pub proof fn law_requests_go_to_the_upload(s: UploadView)
    ensures
        ({
            let base = trim_end_char(s.request.endpoint, '/') + seq!['/'];
            let key = "Bearer "@ + s.request.sync_key;
            match s.phase {
                PhaseView::Query { state, .. } => upload_action(s)
                    == (UploadActionView::QueryStatus {
                    url: base + ("v1/uploads/"@ + state.upload_id),
                    authorization: key,
                }),
                PhaseView::Send { session, index, bytes, digest, .. } => {
                    &&& upload_action(s) matches UploadActionView::SendChunk {
                        url,
                        authorization,
                        digest: sent_digest,
                        bytes: sent_bytes,
                        ..
                    }
                    &&& url == base + ("v1/uploads/"@ + session.upload_id + "/chunks/"@ + decimal(
                        index as nat,
                    ))
                    &&& authorization == key
                    &&& sent_digest == digest
                    &&& sent_bytes == bytes
                },
                PhaseView::Complete { session } => upload_action(s)
                    == (UploadActionView::CompleteUpload {
                    url: base + ("v1/uploads/"@ + session.upload_id + "/complete"@),
                    authorization: key,
                }),
                PhaseView::Open { session } => upload_action(s) == (UploadActionView::OpenArchive {
                    file: session.archive.path,
                }),
                _ => true,
            }
        }),
{
    reveal_strlit("v1/uploads/");
    let endpoint = s.request.endpoint;
    match s.phase {
        PhaseView::Query { state, .. } => {
            law_address_joins_endpoint_and_path(endpoint, "v1/uploads/"@ + state.upload_id);
        },
        PhaseView::Send { session, index, .. } => {
            law_address_joins_endpoint_and_path(
                endpoint,
                "v1/uploads/"@ + session.upload_id + "/chunks/"@ + decimal(index as nat),
            );
        },
        PhaseView::Complete { session } => {
            law_address_joins_endpoint_and_path(
                endpoint,
                "v1/uploads/"@ + session.upload_id + "/complete"@,
            );
        },
        _ => {},
    }
}

/// Chunk `index` is read from where it lies in the archive, up to 256 KiB or the end of the archive,
/// and a chunk that was read in full is sent at once, as it is and with its digest.
pub proof fn law_chunk_is_read_and_sent(
    request: UploadRequestView,
    session: SessionView,
    index: u64,
    bytes: Seq<u8>,
)
    requires
        index * 262144 < session.archive.bytes,
    ensures
        ({
            let s = UploadView { request, phase: PhaseView::Read { session, index } };
            let rest = session.archive.bytes - index * 262144;
            let length = if rest < 262144 {
                rest
            } else {
                262144
            };
            let next = upload_next(s, UploadEventView::Chunk(ChunkReadView::Bytes(bytes)));
            &&& upload_action(s) == (UploadActionView::ReadChunk {
                offset: (index * 262144) as nat,
                length: length as nat,
            })
            &&& bytes.len() == length ==> {
                &&& next.phase matches PhaseView::Send {
                    session: same,
                    index: sent,
                    attempt,
                    bytes: body,
                    digest,
                }
                &&& same == session && sent == index && attempt == 1 && body == bytes && digest
                    == sha256_hex(bytes)
                &&& upload_action(next) matches UploadActionView::SendChunk { delay_seconds, .. }
                &&& delay_seconds == 0
            }
            &&& bytes.len() != length ==> next == s
        }),
{
    law_chunks_are_as_few_as_hold_the_archive(session.archive.bytes as nat, index as nat);
}

/// A chunk is sent up to four times, with one, two and four seconds between the attempts, as long as
/// no reply comes or one of the statuses 408, 429 and 500 to 599; anything else but success ends the
/// upload at once, and so does the fourth failure.
pub proof fn law_chunk_is_sent_up_to_four_times(
    request: UploadRequestView,
    session: SessionView,
    index: u64,
    attempt: u8,
    bytes: Seq<u8>,
    digest: Seq<char>,
    outcome: OutcomeView,
)
    requires
        1 <= attempt <= 4,
    ensures
        ({
            let s = UploadView {
                request,
                phase: PhaseView::Send { session, index, attempt, bytes, digest },
            };
            let next = upload_next(s, UploadEventView::Sent(outcome));
            let temporary = match outcome {
                Err(_) => true,
                Ok(reply) => reply.status == 408 || reply.status == 429 || 500 <= reply.status
                    <= 599,
            };
            let arrived = outcome is Ok && 200 <= outcome->Ok_0.status <= 299;
            &&& arrived == chunk_received(outcome)
            &&& !arrived && temporary && attempt < 4 ==> {
                &&& next.phase == (PhaseView::Send {
                    session,
                    index,
                    attempt: (attempt + 1) as u8,
                    bytes,
                    digest,
                })
                &&& upload_action(next)->delay_seconds == (if attempt == 1 {
                    1int
                } else if attempt == 2 {
                    2int
                } else {
                    4int
                })
            }
            &&& !arrived && !(temporary && attempt < 4) ==> next.phase is Finished
                && next.phase->Finished_outcome is Err
            &&& arrived ==> next.phase is Read || next.phase is Complete
        }),
{
}

/// Once the server has put the chunks together, what was stored is removed, and the upload has
/// succeeded with a message that names the save; when it has not, the upload fails, and what was
/// stored is removed only when the server cannot use the chunks any more.
pub proof fn law_upload_ends_as_the_server_says(
    request: UploadRequestView,
    session: SessionView,
    outcome: OutcomeView,
)
    ensures
        ({
            let s = UploadView { request, phase: PhaseView::Complete { session } };
            let next = upload_next(s, UploadEventView::Completed(outcome));
            let ended = upload_next(next, UploadEventView::ResumeRemoved);
            if outcome is Ok && 200 <= outcome->Ok_0.status <= 299 {
                &&& upload_action(next) matches UploadActionView::RemoveResume { file }
                &&& file.components == session.archive.cache_dir.components.push("resume.json"@)
                &&& ended.phase is Finished
                &&& ended.phase->Finished_outcome is Ok
                &&& ended.phase->Finished_outcome->Ok_0 == "上传完成："@ + request.save_mode + "/"@
                    + request.save_name + "，"@ + decimal(session.archive.file_count as nat)
                    + " 个文件，压缩后 "@ + decimal(session.archive.bytes as nat) + " 字节，共 "@
                    + decimal(chunk_count_of(session.archive.bytes as nat)) + " 块"@ + (
                if session.archive.reused {
                    "，已复用本地缓存"@
                } else {
                    ""@
                })
            } else {
                let conflict = outcome is Ok && outcome->Ok_0.status == 409;
                let changed = conflict && contains_text(
                    outcome->Ok_0.body,
                    "remote_snapshot_changed"@,
                );
                let damaged = conflict && contains_text(
                    outcome->Ok_0.body,
                    "assembled_verification_failed"@,
                );
                &&& ended.phase is Finished
                &&& ended.phase->Finished_outcome is Err
                &&& upload_action(next) is RemoveResume <==> changed || damaged
                &&& changed ==> ended.phase->Finished_outcome->Err_0
                    == "VPS 同名存档已被其他设备更新，请刷新列表并重新确认覆盖"@
                &&& damaged && !changed ==> ended.phase->Finished_outcome->Err_0
                    == "服务器校验上传分片失败，下次上传将创建新会话"@
                &&& outcome is Err ==> ended.phase->Finished_outcome->Err_0 == "完成上传失败"@ + ": "@
                    + outcome->Err_0.message
                &&& outcome is Ok && !changed && !damaged ==> ended.phase->Finished_outcome->Err_0
                    == refused_text(
                    "完成上传失败"@,
                    outcome->Ok_0.status,
                    outcome->Ok_0.body,
                )
            }
        }),
{
}

/// A step that fails before the chunks are sent ends the upload with its reason.
pub proof fn law_failed_step_ends_the_upload(
    request: UploadRequestView,
    archive: PreparedArchiveView,
    state: ResumeStateView,
    session: SessionView,
    index: u64,
    e: Seq<char>,
    error: TransportErrorView,
    reply: HttpReplyView,
    parsed: Result<Seq<char>, Seq<char>>,
)
    requires
        reply.status < 200 || reply.status > 299,
    ensures
        ({
            let at = |phase: PhaseView| UploadView { request, phase };
            let ends = |phase: PhaseView, event: UploadEventView, message: Seq<char>|
                upload_next(at(phase), event).phase == (PhaseView::Finished {
                    outcome: Err(message),
                });
            &&& ends(
                PhaseView::CheckSource,
                UploadEventView::SourceIsDirectory(false),
                "本地存档目录不存在"@,
            )
            &&& ends(PhaseView::Prepare, UploadEventView::Archive(Err(e)), e)
            &&& ends(
                PhaseView::Connect { archive },
                UploadEventView::Client(Err(e)),
                "创建网络客户端失败"@ + ": "@ + e,
            )
            &&& ends(
                PhaseView::Create { archive },
                UploadEventView::Session(SessionAnswerView { outcome: Err(error), parsed }),
                "创建上传会话失败"@ + ": "@ + error.message,
            )
            &&& ends(
                PhaseView::Create { archive },
                UploadEventView::Session(SessionAnswerView { outcome: Ok(reply), parsed }),
                refused_text("创建上传会话失败"@, reply.status, reply.body),
            )
            &&& ends(
                PhaseView::StoreResume { archive, state },
                UploadEventView::ResumeStored(Err(e)),
                e,
            )
            &&& ends(
                PhaseView::Open { session },
                UploadEventView::Opened(Err(e)),
                "打开压缩包失败"@ + ": "@ + e,
            )
            &&& ends(
                PhaseView::Read { session, index },
                UploadEventView::Chunk(ChunkReadView::SeekFailed(e)),
                "定位上传分块失败"@ + ": "@ + e,
            )
            &&& ends(
                PhaseView::Read { session, index },
                UploadEventView::Chunk(ChunkReadView::ReadFailed(e)),
                "读取上传分块失败"@ + ": "@ + e,
            )
        }),
{
}

/// While chunks are sent, what is reported is the part of the archive that the server has: that of
/// the chunks that it has, by their bytes.
pub proof fn law_reported_part_is_what_the_server_has(
    request: UploadRequestView,
    session: SessionView,
    index: u64,
    attempt: u8,
    bytes: Seq<u8>,
    digest: Seq<char>,
    reply: HttpReplyView,
)
    requires
        200 <= reply.status <= 299,
    ensures
        ({
            let s = UploadView {
                request,
                phase: PhaseView::Send { session, index, attempt, bytes, digest },
            };
            let step = upload_step(s, UploadEventView::Sent(Ok(reply)));
            let total = session.archive.bytes as nat;
            let has = completed_bytes(
                session.completed.insert(index),
                total,
                262144,
                chunk_count_of(total),
            );
            &&& step.reports.len() >= 1
            &&& has <= u64::MAX ==> step.reports[0].percent == percent_of(has, total)
            &&& step.reports[0].message == "正在上传：已完成 "@ + decimal(
                session.completed.insert(index).len(),
            ) + "/"@ + decimal(chunk_count_of(total)) + " 块"@
        }),
{
    law_chunks_are_as_few_as_hold_the_archive(session.archive.bytes as nat, 0);
}

/// While the game runs, the user is asked to leave it first, and an upload does nothing else;
/// without it, an upload of a save with clean names goes on to the save.
pub proof fn law_game_must_be_left_first(request: UploadRequestView, listing: Seq<char>)
    ensures
        ({
            let next = upload_next(
                upload_start(request),
                UploadEventView::Processes(Some(listing)),
            );
            &&& listing_names_game(listing) <==> upload_action(next) == (UploadActionView::Finish {
                outcome: Err("检测到 Project Zomboid 正在运行，请先退出游戏"@),
            })
            &&& !listing_names_game(listing) && is_clean_component(request.save_mode)
                && is_clean_component(request.save_name) ==> upload_action(next)
                == (UploadActionView::CheckSource { path: request.save_path })
            &&& !listing_names_game(listing) && !is_clean_component(request.save_mode)
                ==> upload_action(next) == (UploadActionView::Finish {
                outcome: Err("无效的 "@ + "存档模式"@),
            })
            &&& !listing_names_game(listing) && is_clean_component(request.save_mode)
                && !is_clean_component(request.save_name) ==> upload_action(next)
                == (UploadActionView::Finish { outcome: Err("无效的 "@ + "存档名称"@) })
        }),
{
    reveal_strlit("检测到 Project Zomboid 正在运行，请先退出游戏");
    reveal_strlit("无效的 ");
    let running = "检测到 Project Zomboid 正在运行，请先退出游戏"@;
    assert(running[0] != ("无效的 "@ + "存档模式"@)[0]);
    assert(running[0] != ("无效的 "@ + "存档名称"@)[0]);
}

/// Each stage of an upload is reported when it begins, and the parts of an upload that is taken up
/// again count from the start.
pub proof fn law_stages_are_reported(
    request: UploadRequestView,
    listing: Option<Seq<char>>,
    archive: PreparedArchiveView,
    state: ResumeStateView,
    cache_dir: LocalPathView,
    message: Seq<char>,
)
    requires
        listing is Some ==> !listing_names_game(listing->0),
    ensures
        ({
            let reports = |phase: PhaseView, event: UploadEventView|
                upload_step(UploadView { request, phase }, event).reports;
            let one = |percent: nat, text: Seq<char>|
                seq![ProgressView { percent, message: text }];
            &&& reports(PhaseView::CheckGame, UploadEventView::Processes(listing)) == one(
                100,
                "游戏状态检查完成"@,
            )
            &&& reports(PhaseView::LoadResume { archive }, UploadEventView::SavedResume(None))
                == one(0, "正在创建上传会话..."@)
            &&& reports(
                PhaseView::StoreResume { archive, state },
                UploadEventView::ResumeStored(Ok(())),
            ) == one(
                percent_of(0, archive.bytes as nat),
                "正在上传：已完成 "@ + decimal(0) + "/"@ + decimal(
                    chunk_count_of(archive.bytes as nat),
                ) + " 块"@,
            )
            &&& reports(
                PhaseView::Clear { cache_dir, outcome: Ok(message) },
                UploadEventView::ResumeRemoved,
            ) == one(100, "服务器保存完成"@)
        }),
{
    let total = archive.bytes as nat;
    law_chunks_are_as_few_as_hold_the_archive(total, 0);
    law_each_completed_chunk_counts_once(Set::empty(), 0, total, 262144, chunk_count_of(total));
}

/// An upload moves on only by an answer to what it asked for; anything else leaves it as it is, and
/// an upload that is over stays so.
pub proof fn law_only_an_answer_moves_an_upload(s: UploadView, event: UploadEventView)
    requires
        upload_next(s, event) != s,
    ensures
        match upload_action(s) {
            UploadActionView::ListProcesses => event is Processes,
            UploadActionView::CheckSource { .. } => event is SourceIsDirectory,
            UploadActionView::PrepareArchive => event is Archive,
            UploadActionView::BuildClient => event is Client,
            UploadActionView::LoadResume { .. } => event is SavedResume,
            UploadActionView::QueryStatus { .. } => event is Status,
            UploadActionView::CreateSession { .. } => event is Session,
            UploadActionView::StoreResume { .. } => event is ResumeStored,
            UploadActionView::OpenArchive { .. } => event is Opened,
            UploadActionView::ReadChunk { .. } => event is Chunk,
            UploadActionView::SendChunk { .. } => event is Sent,
            UploadActionView::CompleteUpload { .. } => event is Completed,
            UploadActionView::RemoveResume { .. } => event is ResumeRemoved,
            UploadActionView::Finish { .. } => false,
        },
        upload_next(s, event).request == s.request,
{
}

}
