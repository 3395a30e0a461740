//! The state that lets an interrupted upload be continued, also after a restart of the program.

use crate::digest::{sha256_text, text_digest};
use crate::endpoint::{normalize_endpoint, normalized_endpoint};
use crate::http::{outcome_view, refused, refused_text, request_error_details, error_details};
use crate::http::{is_success, is_success_status, Outcome, OutcomeView, NOT_FOUND};
use crate::messages::{failed, failed_text};
use crate::paths::{LocalPath, LocalPathView};
use crate::text::same_text;
use vstd::prelude::*;

verus! {

/// An archive of a save that is ready to be uploaded.
pub struct PreparedArchive {
    /// Where the archive is.
    pub path: LocalPath,
    /// How many files of the save it holds.
    pub file_count: u64,
    /// Its size.
    pub bytes: u64,
    /// The fingerprint of the files that went into it.
    pub fingerprint: String,
    /// Its digest.
    pub zip_sha256: String,
    /// The directory of the save's cache.
    pub cache_dir: LocalPath,
    /// Whether it is the archive of an earlier upload.
    pub reused: bool,
}

pub struct PreparedArchiveView {
    pub path: LocalPathView,
    pub file_count: u64,
    pub bytes: u64,
    pub fingerprint: Seq<char>,
    pub zip_sha256: Seq<char>,
    pub cache_dir: LocalPathView,
    pub reused: bool,
}

impl View for PreparedArchive {
    type V = PreparedArchiveView;

    open spec fn view(&self) -> PreparedArchiveView {
        PreparedArchiveView {
            path: self.path@,
            file_count: self.file_count,
            bytes: self.bytes,
            fingerprint: self.fingerprint@,
            zip_sha256: self.zip_sha256@,
            cache_dir: self.cache_dir@,
            reused: self.reused,
        }
    }
}

/// The version of the state's format.
pub const SCHEMA_VERSION: u8 = 1;

/// What is stored about an upload under way. Server and sync key stand in it by digest only.
pub struct ResumeState {
    pub schema_version: u8,
    pub endpoint_hash: String,
    pub sync_key_hash: String,
    pub save_mode: String,
    pub save_name: String,
    pub fingerprint: String,
    pub zip_sha256: String,
    pub zip_bytes: u64,
    pub chunk_size: u64,
    pub chunk_count: u64,
    pub upload_id: String,
}

pub struct ResumeStateView {
    pub schema_version: u8,
    pub endpoint_hash: Seq<char>,
    pub sync_key_hash: Seq<char>,
    pub save_mode: Seq<char>,
    pub save_name: Seq<char>,
    pub fingerprint: Seq<char>,
    pub zip_sha256: Seq<char>,
    pub zip_bytes: u64,
    pub chunk_size: u64,
    pub chunk_count: u64,
    pub upload_id: Seq<char>,
}

impl View for ResumeState {
    type V = ResumeStateView;

    open spec fn view(&self) -> ResumeStateView {
        ResumeStateView {
            schema_version: self.schema_version,
            endpoint_hash: self.endpoint_hash@,
            sync_key_hash: self.sync_key_hash@,
            save_mode: self.save_mode@,
            save_name: self.save_name@,
            fingerprint: self.fingerprint@,
            zip_sha256: self.zip_sha256@,
            zip_bytes: self.zip_bytes,
            chunk_size: self.chunk_size,
            chunk_count: self.chunk_count,
            upload_id: self.upload_id@,
        }
    }
}

/// The state of upload `upload_id` of `archive`, the save `save_mode`/`save_name`, to `endpoint`
/// with `sync_key`.
pub open spec fn resume_state_of(
    endpoint: Seq<char>,
    sync_key: Seq<char>,
    save_mode: Seq<char>,
    save_name: Seq<char>,
    archive: PreparedArchiveView,
    chunk_size: u64,
    chunk_count: u64,
    upload_id: Seq<char>,
) -> ResumeStateView {
    ResumeStateView {
        schema_version: SCHEMA_VERSION,
        endpoint_hash: text_digest(normalized_endpoint(endpoint)),
        sync_key_hash: text_digest(sync_key),
        save_mode,
        save_name,
        fingerprint: archive.fingerprint,
        zip_sha256: archive.zip_sha256,
        zip_bytes: archive.bytes,
        chunk_size,
        chunk_count,
        upload_id,
    }
}

/// Whether `state` belongs to an upload of this archive of this save to this server with this
/// key, cut into chunks in this way. The upload's own identifier is free.
pub open spec fn belongs_to(
    state: ResumeStateView,
    endpoint: Seq<char>,
    sync_key: Seq<char>,
    save_mode: Seq<char>,
    save_name: Seq<char>,
    archive: PreparedArchiveView,
    chunk_size: u64,
    chunk_count: u64,
) -> bool {
    state == resume_state_of(
        endpoint,
        sync_key,
        save_mode,
        save_name,
        archive,
        chunk_size,
        chunk_count,
        state.upload_id,
    )
}

impl ResumeState {
    /// A copy of the state.
    pub fn copy(&self) -> (copy: ResumeState)
        ensures
            copy@ == self@,
    {
        ResumeState {
            schema_version: self.schema_version,
            endpoint_hash: self.endpoint_hash.clone(),
            sync_key_hash: self.sync_key_hash.clone(),
            save_mode: self.save_mode.clone(),
            save_name: self.save_name.clone(),
            fingerprint: self.fingerprint.clone(),
            zip_sha256: self.zip_sha256.clone(),
            zip_bytes: self.zip_bytes,
            chunk_size: self.chunk_size,
            chunk_count: self.chunk_count,
            upload_id: self.upload_id.clone(),
        }
    }
}

/// The state to be stored for an upload that has just been accepted by the server.
pub fn new_resume_state(
    endpoint: &str,
    sync_key: &str,
    save_mode: &str,
    save_name: &str,
    archive: &PreparedArchive,
    chunk_size: u64,
    chunk_count: u64,
    upload_id: String,
) -> (state: ResumeState)
    ensures
        state@ == resume_state_of(
            endpoint@,
            sync_key@,
            save_mode@,
            save_name@,
            archive@,
            chunk_size,
            chunk_count,
            upload_id@,
        ),
{
    ResumeState {
        schema_version: SCHEMA_VERSION,
        endpoint_hash: sha256_text(normalize_endpoint(endpoint).as_str()),
        sync_key_hash: sha256_text(sync_key),
        save_mode: save_mode.to_owned(),
        save_name: save_name.to_owned(),
        fingerprint: archive.fingerprint.clone(),
        zip_sha256: archive.zip_sha256.clone(),
        zip_bytes: archive.bytes,
        chunk_size,
        chunk_count,
        upload_id,
    }
}

/// Whether a stored state is about an upload of the same archive of the same save to the same
/// server with the same key and chunks, so that it can be continued.
pub fn resume_matches(
    state: &ResumeState,
    endpoint: &str,
    sync_key: &str,
    save_mode: &str,
    save_name: &str,
    archive: &PreparedArchive,
    chunk_size: u64,
    chunk_count: u64,
) -> (matching: bool)
    ensures
        matching == belongs_to(
            state@,
            endpoint@,
            sync_key@,
            save_mode@,
            save_name@,
            archive@,
            chunk_size,
            chunk_count,
        ),
{
    state.schema_version == SCHEMA_VERSION && state.endpoint_hash == sha256_text(
        normalize_endpoint(endpoint).as_str(),
    ) && state.sync_key_hash == sha256_text(sync_key) && same_text(
        state.save_mode.as_str(),
        save_mode,
    ) && same_text(state.save_name.as_str(), save_name) && state.fingerprint == archive.fingerprint
        && state.zip_sha256 == archive.zip_sha256 && state.zip_bytes == archive.bytes
        && state.chunk_size == chunk_size && state.chunk_count == chunk_count
}

/// A state that was stored for an upload is accepted when the same upload is tried again, also
/// when the endpoint is spelled in another way with the same normal form.
pub proof fn law_stored_state_is_accepted_again(
    endpoint: Seq<char>,
    endpoint_again: Seq<char>,
    sync_key: Seq<char>,
    save_mode: Seq<char>,
    save_name: Seq<char>,
    archive: PreparedArchiveView,
    chunk_size: u64,
    chunk_count: u64,
    upload_id: Seq<char>,
)
    requires
        normalized_endpoint(endpoint) == normalized_endpoint(endpoint_again),
    ensures
        belongs_to(
            resume_state_of(
                endpoint,
                sync_key,
                save_mode,
                save_name,
                archive,
                chunk_size,
                chunk_count,
                upload_id,
            ),
            endpoint_again,
            sync_key,
            save_mode,
            save_name,
            archive,
            chunk_size,
            chunk_count,
        ),
{
}

/// A stored state is refused when server or key differ, unless their digests collide, and when
/// the save, the contents of the archive or the chunks differ.
pub proof fn law_stored_state_is_bound(
    endpoint: Seq<char>,
    sync_key: Seq<char>,
    save_mode: Seq<char>,
    save_name: Seq<char>,
    archive: PreparedArchiveView,
    chunk_size: u64,
    chunk_count: u64,
    upload_id: Seq<char>,
    endpoint_b: Seq<char>,
    sync_key_b: Seq<char>,
    save_mode_b: Seq<char>,
    save_name_b: Seq<char>,
    archive_b: PreparedArchiveView,
    chunk_size_b: u64,
    chunk_count_b: u64,
)
    requires
        belongs_to(
            resume_state_of(
                endpoint,
                sync_key,
                save_mode,
                save_name,
                archive,
                chunk_size,
                chunk_count,
                upload_id,
            ),
            endpoint_b,
            sync_key_b,
            save_mode_b,
            save_name_b,
            archive_b,
            chunk_size_b,
            chunk_count_b,
        ),
    ensures
        text_digest(normalized_endpoint(endpoint)) == text_digest(normalized_endpoint(endpoint_b)),
        text_digest(sync_key) == text_digest(sync_key_b),
        save_mode == save_mode_b,
        save_name == save_name_b,
        archive.fingerprint == archive_b.fingerprint,
        archive.zip_sha256 == archive_b.zip_sha256,
        archive.bytes == archive_b.bytes,
        chunk_size == chunk_size_b,
        chunk_count == chunk_count_b,
{
}

/// The sync key reaches the stored state through its digest alone: keys with one digest give
/// one state.
pub proof fn law_sync_key_is_stored_by_digest_only(
    endpoint: Seq<char>,
    key_a: Seq<char>,
    key_b: Seq<char>,
    save_mode: Seq<char>,
    save_name: Seq<char>,
    archive: PreparedArchiveView,
    chunk_size: u64,
    chunk_count: u64,
    upload_id: Seq<char>,
)
    requires
        text_digest(key_a) == text_digest(key_b),
    ensures
        resume_state_of(
            endpoint,
            key_a,
            save_mode,
            save_name,
            archive,
            chunk_size,
            chunk_count,
            upload_id,
        ) == resume_state_of(
            endpoint,
            key_b,
            save_mode,
            save_name,
            archive,
            chunk_size,
            chunk_count,
            upload_id,
        ),
{
}

/// What the server says about an upload under way.
pub struct UploadStatus {
    pub upload_id: String,
    pub total_bytes: u64,
    pub chunk_size: u64,
    pub chunk_count: u64,
    pub save_mode: String,
    pub save_name: String,
    pub zip_sha256: String,
    pub completed_chunks: Vec<u64>,
}

pub struct UploadStatusView {
    pub upload_id: Seq<char>,
    pub total_bytes: u64,
    pub chunk_size: u64,
    pub chunk_count: u64,
    pub save_mode: Seq<char>,
    pub save_name: Seq<char>,
    pub zip_sha256: Seq<char>,
    pub completed_chunks: Seq<u64>,
}

impl View for UploadStatus {
    type V = UploadStatusView;

    open spec fn view(&self) -> UploadStatusView {
        UploadStatusView {
            upload_id: self.upload_id@,
            total_bytes: self.total_bytes,
            chunk_size: self.chunk_size,
            chunk_count: self.chunk_count,
            save_mode: self.save_mode@,
            save_name: self.save_name@,
            zip_sha256: self.zip_sha256@,
            completed_chunks: self.completed_chunks@,
        }
    }
}

/// Whether the server's upload is the one that `state` is about.
pub open spec fn status_confirms(status: UploadStatusView, state: ResumeStateView) -> bool {
    &&& status.upload_id == state.upload_id
    &&& status.total_bytes == state.zip_bytes
    &&& status.chunk_size == state.chunk_size
    &&& status.chunk_count == state.chunk_count
    &&& status.save_mode == state.save_mode
    &&& status.save_name == state.save_name
    &&& status.zip_sha256 == state.zip_sha256
}

/// Whether the server's upload is the one that `state` is about.
pub fn confirms(status: &UploadStatus, state: &ResumeState) -> (r: bool)
    ensures
        r == status_confirms(status@, state@),
{
    status.upload_id == state.upload_id && status.total_bytes == state.zip_bytes
        && status.chunk_size == state.chunk_size && status.chunk_count == state.chunk_count
        && status.save_mode == state.save_mode && status.save_name == state.save_name
        && status.zip_sha256 == state.zip_sha256
}

/// What querying an upload gave: the outcome of the request, and what its body holds when read
/// as a status.
pub struct StatusAnswer {
    pub outcome: Outcome,
    pub parsed: Result<UploadStatus, String>,
}

pub struct StatusAnswerView {
    pub outcome: OutcomeView,
    pub parsed: Result<UploadStatusView, Seq<char>>,
}

impl View for StatusAnswer {
    type V = StatusAnswerView;

    open spec fn view(&self) -> StatusAnswerView {
        StatusAnswerView {
            outcome: outcome_view(self.outcome),
            parsed: match self.parsed {
                Ok(status) => Ok(status@),
                Err(e) => Err(e@),
            },
        }
    }
}

/// The status of an upload as far as the answer tells it: `None` when the server does not know
/// the upload, an error when the request or the reading of its body failed.
pub open spec fn status_of_answer(answer: StatusAnswerView) -> Result<
    Option<UploadStatusView>,
    Seq<char>,
> {
    match answer.outcome {
        Err(error) => Err(failed_text("查询上传进度失败"@, error_details(error))),
        Ok(reply) => if reply.status == NOT_FOUND {
            Ok(None)
        } else if !is_success_status(reply.status) {
            Err(refused_text("查询上传进度失败"@, reply.status, reply.body))
        } else {
            match answer.parsed {
                Ok(status) => Ok(Some(status)),
                Err(e) => Err(failed_text("上传进度格式错误"@, e)),
            }
        },
    }
}

/// The view of what a status query came to.
pub open spec fn query_view(r: Result<Option<UploadStatus>, String>) -> Result<
    Option<UploadStatusView>,
    Seq<char>,
> {
    match r {
        Ok(Some(status)) => Ok(Some(status@)),
        Ok(None) => Ok(None),
        Err(e) => Err(e@),
    }
}

/// The status of an upload, given the answer of the server.
pub fn query_upload_status(answer: StatusAnswer) -> (r: Result<Option<UploadStatus>, String>)
    ensures
        query_view(r) == status_of_answer(answer@),
{
    match answer.outcome {
        Err(error) => Err(failed("查询上传进度失败", request_error_details(&error).as_str())),
        Ok(reply) => {
            if reply.status == NOT_FOUND {
                return Ok(None);
            }
            if !is_success(reply.status) {
                return Err(refused("查询上传进度失败", &reply));
            }
            match answer.parsed {
                Ok(status) => Ok(Some(status)),
                Err(e) => Err(failed("上传进度格式错误", e.as_str())),
            }
        },
    }
}

/// A stored state belongs to an upload exactly when it is of the known format and tells of the same
/// server and key, by their digests, of the same save, of the same files in the same archive, and
/// of the same chunks. The identifier of the upload does not matter.
pub proof fn law_what_a_state_belongs_to(
    state: ResumeStateView,
    endpoint: Seq<char>,
    sync_key: Seq<char>,
    save_mode: Seq<char>,
    save_name: Seq<char>,
    archive: PreparedArchiveView,
    chunk_size: u64,
    chunk_count: u64,
)
    ensures
        belongs_to(
            state,
            endpoint,
            sync_key,
            save_mode,
            save_name,
            archive,
            chunk_size,
            chunk_count,
        ) <==> {
            &&& state.schema_version == 1
            &&& state.endpoint_hash == text_digest(normalized_endpoint(endpoint))
            &&& state.sync_key_hash == text_digest(sync_key)
            &&& state.save_mode == save_mode
            &&& state.save_name == save_name
            &&& state.fingerprint == archive.fingerprint
            &&& state.zip_sha256 == archive.zip_sha256
            &&& state.zip_bytes == archive.bytes
            &&& state.chunk_size == chunk_size
            &&& state.chunk_count == chunk_count
        },
{
}

/// The status of an upload is told exactly when the server answers with success and the body reads
/// as a status, and then as it stands there; 404 means that there is none, and anything else is an
/// error.
pub proof fn law_status_is_told_as_it_was_sent(answer: StatusAnswerView)
    ensures
        match status_of_answer(answer) {
            Ok(Some(status)) => {
                &&& answer.outcome matches Ok(reply) && 200 <= reply.status <= 299
                &&& answer.parsed == Ok::<UploadStatusView, Seq<char>>(status)
            },
            Ok(None) => answer.outcome matches Ok(reply) && reply.status == 404,
            Err(_) => {
                ||| answer.outcome is Err
                ||| answer.outcome->Ok_0.status / 100 != 2 && answer.outcome->Ok_0.status != 404
                ||| answer.outcome->Ok_0.status / 100 == 2 && answer.parsed is Err
            },
        },
{
}

}
