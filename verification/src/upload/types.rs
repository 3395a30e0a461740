//! What an upload is asked to do, what it asks for, and what comes back.

use crate::http::{outcome_view, Outcome, OutcomeView};
use crate::paths::{LocalPath, LocalPathView};
use crate::resume::{
    PreparedArchive, PreparedArchiveView, ResumeState, ResumeStateView, StatusAnswer,
    StatusAnswerView,
};
use crate::text::{done_result, text_option, text_result};
use vstd::prelude::*;

verus! {

/// What the user asked to be uploaded, and where to.
pub struct UploadRequest {
    pub save_path: String,
    pub save_mode: String,
    pub save_name: String,
    pub endpoint: String,
    pub sync_key: String,
    pub device_name: String,
    pub overwrite_confirmed: bool,
}

pub struct UploadRequestView {
    pub save_path: Seq<char>,
    pub save_mode: Seq<char>,
    pub save_name: Seq<char>,
    pub endpoint: Seq<char>,
    pub sync_key: Seq<char>,
    pub device_name: Seq<char>,
    pub overwrite_confirmed: bool,
}

impl View for UploadRequest {
    type V = UploadRequestView;

    open spec fn view(&self) -> UploadRequestView {
        UploadRequestView {
            save_path: self.save_path@,
            save_mode: self.save_mode@,
            save_name: self.save_name@,
            endpoint: self.endpoint@,
            sync_key: self.sync_key@,
            device_name: self.device_name@,
            overwrite_confirmed: self.overwrite_confirmed,
        }
    }
}

/// What opening a new upload on the server asks for.
pub struct NewSession {
    pub total_bytes: u64,
    pub chunk_size: u64,
    pub chunk_count: u64,
    pub save_mode: String,
    pub save_name: String,
    pub device_name: String,
    pub game_version: String,
    pub overwrite_confirmed: bool,
    pub zip_sha256: String,
}

pub struct NewSessionView {
    pub total_bytes: u64,
    pub chunk_size: u64,
    pub chunk_count: u64,
    pub save_mode: Seq<char>,
    pub save_name: Seq<char>,
    pub device_name: Seq<char>,
    pub game_version: Seq<char>,
    pub overwrite_confirmed: bool,
    pub zip_sha256: Seq<char>,
}

impl View for NewSession {
    type V = NewSessionView;

    open spec fn view(&self) -> NewSessionView {
        NewSessionView {
            total_bytes: self.total_bytes,
            chunk_size: self.chunk_size,
            chunk_count: self.chunk_count,
            save_mode: self.save_mode@,
            save_name: self.save_name@,
            device_name: self.device_name@,
            game_version: self.game_version@,
            overwrite_confirmed: self.overwrite_confirmed,
            zip_sha256: self.zip_sha256@,
        }
    }
}

/// What is to be done next for an upload.
pub enum UploadAction {
    /// List the running processes.
    ListProcesses,
    /// See whether the save is a directory.
    CheckSource { path: String },
    /// Bring the archive of the save up to date.
    PrepareArchive,
    /// Make a network client.
    BuildClient,
    /// Read the state that an earlier attempt left.
    LoadResume { file: LocalPath },
    /// Ask the server about an upload.
    QueryStatus { url: String, authorization: String },
    /// Open a new upload on the server.
    CreateSession { url: String, authorization: String, session: NewSession },
    /// Store the state of the upload.
    StoreResume { file: LocalPath, state: ResumeState },
    /// Open the archive.
    OpenArchive { file: LocalPath },
    /// Read a part of the archive.
    ReadChunk { offset: u64, length: u64 },
    /// Wait, then send a chunk.
    SendChunk {
        delay_seconds: u64,
        url: String,
        authorization: String,
        digest: String,
        bytes: Vec<u8>,
    },
    /// Have the server put the chunks together.
    CompleteUpload { url: String, authorization: String },
    /// Remove the stored state; a failure to do so is of no consequence.
    RemoveResume { file: LocalPath },
    /// Hand this outcome to the user.
    Finish { outcome: Result<String, String> },
}

pub enum UploadActionView {
    ListProcesses,
    CheckSource { path: Seq<char> },
    PrepareArchive,
    BuildClient,
    LoadResume { file: LocalPathView },
    QueryStatus { url: Seq<char>, authorization: Seq<char> },
    CreateSession { url: Seq<char>, authorization: Seq<char>, session: NewSessionView },
    StoreResume { file: LocalPathView, state: ResumeStateView },
    OpenArchive { file: LocalPathView },
    ReadChunk { offset: nat, length: nat },
    SendChunk {
        delay_seconds: nat,
        url: Seq<char>,
        authorization: Seq<char>,
        digest: Seq<char>,
        bytes: Seq<u8>,
    },
    CompleteUpload { url: Seq<char>, authorization: Seq<char> },
    RemoveResume { file: LocalPathView },
    Finish { outcome: Result<Seq<char>, Seq<char>> },
}

impl View for UploadAction {
    type V = UploadActionView;

    open spec fn view(&self) -> UploadActionView {
        match *self {
            UploadAction::ListProcesses => UploadActionView::ListProcesses,
            UploadAction::CheckSource { path } => UploadActionView::CheckSource { path: path@ },
            UploadAction::PrepareArchive => UploadActionView::PrepareArchive,
            UploadAction::BuildClient => UploadActionView::BuildClient,
            UploadAction::LoadResume { file } => UploadActionView::LoadResume { file: file@ },
            UploadAction::QueryStatus { url, authorization } => UploadActionView::QueryStatus {
                url: url@,
                authorization: authorization@,
            },
            UploadAction::CreateSession { url, authorization, session } =>
                UploadActionView::CreateSession {
                url: url@,
                authorization: authorization@,
                session: session@,
            },
            UploadAction::StoreResume { file, state } => UploadActionView::StoreResume {
                file: file@,
                state: state@,
            },
            UploadAction::OpenArchive { file } => UploadActionView::OpenArchive { file: file@ },
            UploadAction::ReadChunk { offset, length } => UploadActionView::ReadChunk {
                offset: offset as nat,
                length: length as nat,
            },
            UploadAction::SendChunk { delay_seconds, url, authorization, digest, bytes } =>
                UploadActionView::SendChunk {
                delay_seconds: delay_seconds as nat,
                url: url@,
                authorization: authorization@,
                digest: digest@,
                bytes: bytes@,
            },
            UploadAction::CompleteUpload { url, authorization } =>
                UploadActionView::CompleteUpload { url: url@, authorization: authorization@ },
            UploadAction::RemoveResume { file } => UploadActionView::RemoveResume { file: file@ },
            UploadAction::Finish { outcome } => UploadActionView::Finish {
                outcome: text_result(outcome),
            },
        }
    }
}

/// What reading a chunk gave.
pub enum ChunkRead {
    SeekFailed(String),
    ReadFailed(String),
    Bytes(Vec<u8>),
}

pub enum ChunkReadView {
    SeekFailed(Seq<char>),
    ReadFailed(Seq<char>),
    Bytes(Seq<u8>),
}

impl View for ChunkRead {
    type V = ChunkReadView;

    open spec fn view(&self) -> ChunkReadView {
        match *self {
            ChunkRead::SeekFailed(e) => ChunkReadView::SeekFailed(e@),
            ChunkRead::ReadFailed(e) => ChunkReadView::ReadFailed(e@),
            ChunkRead::Bytes(b) => ChunkReadView::Bytes(b@),
        }
    }
}

/// What opening a new upload gave: the outcome of the request, and the upload's identifier as
/// far as the body could be read.
pub struct SessionAnswer {
    pub outcome: Outcome,
    pub parsed: Result<String, String>,
}

pub struct SessionAnswerView {
    pub outcome: OutcomeView,
    pub parsed: Result<Seq<char>, Seq<char>>,
}

impl View for SessionAnswer {
    type V = SessionAnswerView;

    open spec fn view(&self) -> SessionAnswerView {
        SessionAnswerView {
            outcome: outcome_view(self.outcome),
            parsed: text_result(self.parsed),
        }
    }
}

/// What an action of an upload came to.
pub enum UploadEvent {
    Processes(Option<String>),
    SourceIsDirectory(bool),
    Archive(Result<PreparedArchive, String>),
    Client(Result<(), String>),
    SavedResume(Option<ResumeState>),
    Status(StatusAnswer),
    Session(SessionAnswer),
    ResumeStored(Result<(), String>),
    Opened(Result<(), String>),
    Chunk(ChunkRead),
    Sent(Outcome),
    Completed(Outcome),
    ResumeRemoved,
}

pub enum UploadEventView {
    Processes(Option<Seq<char>>),
    SourceIsDirectory(bool),
    Archive(Result<PreparedArchiveView, Seq<char>>),
    Client(Result<(), Seq<char>>),
    SavedResume(Option<ResumeStateView>),
    Status(StatusAnswerView),
    Session(SessionAnswerView),
    ResumeStored(Result<(), Seq<char>>),
    Opened(Result<(), Seq<char>>),
    Chunk(ChunkReadView),
    Sent(OutcomeView),
    Completed(OutcomeView),
    ResumeRemoved,
}

impl View for UploadEvent {
    type V = UploadEventView;

    open spec fn view(&self) -> UploadEventView {
        match *self {
            UploadEvent::Processes(listing) => UploadEventView::Processes(text_option(listing)),
            UploadEvent::SourceIsDirectory(b) => UploadEventView::SourceIsDirectory(b),
            UploadEvent::Archive(Ok(a)) => UploadEventView::Archive(Ok(a@)),
            UploadEvent::Archive(Err(e)) => UploadEventView::Archive(Err(e@)),
            UploadEvent::Client(r) => UploadEventView::Client(done_result(r)),
            UploadEvent::SavedResume(Some(s)) => UploadEventView::SavedResume(Some(s@)),
            UploadEvent::SavedResume(None) => UploadEventView::SavedResume(None),
            UploadEvent::Status(a) => UploadEventView::Status(a@),
            UploadEvent::Session(a) => UploadEventView::Session(a@),
            UploadEvent::ResumeStored(r) => UploadEventView::ResumeStored(done_result(r)),
            UploadEvent::Opened(r) => UploadEventView::Opened(done_result(r)),
            UploadEvent::Chunk(c) => UploadEventView::Chunk(c@),
            UploadEvent::Sent(o) => UploadEventView::Sent(outcome_view(o)),
            UploadEvent::Completed(o) => UploadEventView::Completed(outcome_view(o)),
            UploadEvent::ResumeRemoved => UploadEventView::ResumeRemoved,
        }
    }
}

}
