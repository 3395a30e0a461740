//! What a download is asked to do, what it asks for, and what comes back.

use crate::http::{TransportError, TransportErrorView};
use crate::text::{done_result, text_option, text_result};
use vstd::prelude::*;

verus! {

/// Which save the user asked for, and where it comes from.
pub struct DownloadRequest {
    pub endpoint: String,
    pub sync_key: String,
    pub save_mode: String,
    pub save_name: String,
    pub overwrite_confirmed: bool,
}

pub struct DownloadRequestView {
    pub endpoint: Seq<char>,
    pub sync_key: Seq<char>,
    pub save_mode: Seq<char>,
    pub save_name: Seq<char>,
    pub overwrite_confirmed: bool,
}

impl View for DownloadRequest {
    type V = DownloadRequestView;

    open spec fn view(&self) -> DownloadRequestView {
        DownloadRequestView {
            endpoint: self.endpoint@,
            sync_key: self.sync_key@,
            save_mode: self.save_mode@,
            save_name: self.save_name@,
            overwrite_confirmed: self.overwrite_confirmed,
        }
    }
}

/// What the server answered: the status, the announced length, and, unless the status says that
/// the save follows, the text of the body.
pub struct SnapshotReply {
    pub status: u16,
    pub content_length: Option<u64>,
    pub body: String,
}

pub struct SnapshotReplyView {
    pub status: u16,
    pub content_length: Option<u64>,
    pub body: Seq<char>,
}

impl View for SnapshotReply {
    type V = SnapshotReplyView;

    open spec fn view(&self) -> SnapshotReplyView {
        SnapshotReplyView {
            status: self.status,
            content_length: self.content_length,
            body: self.body@,
        }
    }
}

/// What is to be done next for a download.
pub enum DownloadAction {
    /// List the running processes.
    ListProcesses,
    /// See whether the directory of the saves is one.
    CheckRoot,
    /// See whether there is a local save of this mode and name.
    CheckTarget,
    /// Make a network client.
    BuildClient,
    /// Ask the server for the save.
    Request { url: String, authorization: String },
    /// Create the file that takes the archive.
    CreateArchive,
    /// Receive some bytes.
    Receive,
    /// Write the bytes that were received last to the file.
    Store,
    /// Flush the file.
    Flush,
    /// Create the directory of the mode.
    CreateModeDirectory,
    /// Unpack the archive into the staging directory.
    Unpack,
    /// Remove the archive; a failure to do so is of no consequence.
    RemoveArchive,
    /// Rename the local save to the backup.
    SetAside,
    /// Rename the staging directory to the local save.
    MoveIn,
    /// Remove the staging directory; a failure to do so is of no consequence.
    RemoveStaging,
    /// Rename the backup to the local save.
    Restore,
    /// The download is over.
    Finish { outcome: Result<String, String> },
}

pub enum DownloadActionView {
    ListProcesses,
    CheckRoot,
    CheckTarget,
    BuildClient,
    Request { url: Seq<char>, authorization: Seq<char> },
    CreateArchive,
    Receive,
    Store,
    Flush,
    CreateModeDirectory,
    Unpack,
    RemoveArchive,
    SetAside,
    MoveIn,
    RemoveStaging,
    Restore,
    Finish { outcome: Result<Seq<char>, Seq<char>> },
}

impl View for DownloadAction {
    type V = DownloadActionView;

    open spec fn view(&self) -> DownloadActionView {
        match *self {
            DownloadAction::ListProcesses => DownloadActionView::ListProcesses,
            DownloadAction::CheckRoot => DownloadActionView::CheckRoot,
            DownloadAction::CheckTarget => DownloadActionView::CheckTarget,
            DownloadAction::BuildClient => DownloadActionView::BuildClient,
            DownloadAction::Request { url, authorization } => DownloadActionView::Request {
                url: url@,
                authorization: authorization@,
            },
            DownloadAction::CreateArchive => DownloadActionView::CreateArchive,
            DownloadAction::Receive => DownloadActionView::Receive,
            DownloadAction::Store => DownloadActionView::Store,
            DownloadAction::Flush => DownloadActionView::Flush,
            DownloadAction::CreateModeDirectory => DownloadActionView::CreateModeDirectory,
            DownloadAction::Unpack => DownloadActionView::Unpack,
            DownloadAction::RemoveArchive => DownloadActionView::RemoveArchive,
            DownloadAction::SetAside => DownloadActionView::SetAside,
            DownloadAction::MoveIn => DownloadActionView::MoveIn,
            DownloadAction::RemoveStaging => DownloadActionView::RemoveStaging,
            DownloadAction::Restore => DownloadActionView::Restore,
            DownloadAction::Finish { outcome } => DownloadActionView::Finish {
                outcome: text_result(outcome),
            },
        }
    }
}

/// What an action of a download came to.
pub enum DownloadEvent {
    /// The listing of the processes, where there is one.
    Processes(Option<String>),
    /// Whether what was looked for is there.
    Found(bool),
    /// What the server answered.
    Replied(Result<SnapshotReply, TransportError>),
    /// How many bytes were received.
    Received(Result<usize, String>),
    /// Any other action.
    Done(Result<(), String>),
}

pub enum DownloadEventView {
    Processes(Option<Seq<char>>),
    Found(bool),
    Replied(Result<SnapshotReplyView, TransportErrorView>),
    Received(Result<usize, Seq<char>>),
    Done(Result<(), Seq<char>>),
}

impl View for DownloadEvent {
    type V = DownloadEventView;

    open spec fn view(&self) -> DownloadEventView {
        match *self {
            DownloadEvent::Processes(listing) => DownloadEventView::Processes(text_option(listing)),
            DownloadEvent::Found(found) => DownloadEventView::Found(found),
            DownloadEvent::Replied(Ok(reply)) => DownloadEventView::Replied(Ok(reply@)),
            DownloadEvent::Replied(Err(e)) => DownloadEventView::Replied(Err(e@)),
            DownloadEvent::Received(Ok(n)) => DownloadEventView::Received(Ok(n)),
            DownloadEvent::Received(Err(e)) => DownloadEventView::Received(Err(e@)),
            DownloadEvent::Done(r) => DownloadEventView::Done(done_result(r)),
        }
    }
}

}
