//! What the library is given and what it gives back counts as it is: the values that the contracts
//! and the laws speak of hold every field of what is handed in and out, unchanged.

use crate::compress::{
    count_result, pack_error, packed_views, source_views, sources_result, ArchiveSource,
    ArchiveSourceView, PackAction, PackActionView, PackEvent, PackEventView, Packed,
};
use crate::download::types::{
    DownloadAction, DownloadActionView, DownloadEvent, DownloadEventView, DownloadRequest,
    DownloadRequestView, SnapshotReply, SnapshotReplyView,
};
use crate::extract::{ExtractAction, ExtractActionView, ExtractEvent, ExtractEventView};
use crate::http::{outcome_view, HttpReply, HttpReplyView, Outcome, TransportError};
use crate::legacy::{LegacyAction, LegacyActionView, LegacyEvent, LegacyEventView};
use crate::listing::{
    found_mode_views, found_save_views, modes_result, save_views, saves_result, FoundMode,
    FoundSave, FoundSaveView, SaveEntry, SaveEntryView,
};
use crate::paths::LocalPath;
use crate::prepare::types::{
    CacheMetadata, CacheMetadataView, PrepareAction, PrepareActionView, PrepareEvent,
    PrepareEventView,
};
use crate::progress::{report_views, ProgressView, UploadProgress};
use crate::remote::{
    library_result, manifest_views, DeleteEvent, DeleteEventView, DeletionRequest,
    DeletionRequestView, ListAnswer, ListAnswerView, ListEvent, ListEventView, RemoteAction,
    RemoteActionView, RemoteSaveLibrary, RemoteSaveList,
};
use crate::replace::{
    SwapAction, SwapActionView, SwapEvent, SwapEventView, SwapPhase, SwapPhaseView, WriteAction,
    WriteActionView, WritePhase, WritePhaseView,
};
use crate::resume::{
    query_view, PreparedArchive, PreparedArchiveView, ResumeState, ResumeStateView, StatusAnswer,
    StatusAnswerView, UploadStatus, UploadStatusView,
};
use crate::scan::{
    digest_views, entries_result, entry_views, files_result, found_views, CachedFileEntry,
    CachedFileEntryView, FoundFile, FoundFileView, ScanEvent, ScanEventView,
};
use crate::text::{done_result, text_option, text_result};
use crate::upload::types::{
    ChunkRead, ChunkReadView, NewSession, NewSessionView, SessionAnswer, SessionAnswerView,
    UploadAction, UploadActionView, UploadEvent, UploadEventView, UploadRequest, UploadRequestView,
};
use crate::walk::walk_views;
use vstd::prelude::*;

verus! {

/// Every `ArchiveSource` counts as it is.
pub proof fn law_archive_source_counts_as_it_is(value: ArchiveSource)
    ensures
        value@ == (ArchiveSourceView {
            position: value.position as int,
            relative: text_result(value.relative),
            bytes: value.bytes,
        }),
{
}

/// Every `PackAction` counts as it is.
pub proof fn law_pack_action_counts_as_it_is(value: PackAction)
    ensures
        value@ == (match value {
            PackAction::WalkSave => PackActionView::WalkSave,
            PackAction::CreateArchive => PackActionView::CreateArchive,
            PackAction::AddFile { index, name } => PackActionView::AddFile {
                index: index as int,
                name: name@,
            },
            PackAction::CloseArchive => PackActionView::CloseArchive,
            PackAction::Finish { outcome } => PackActionView::Finish {
                outcome: count_result(outcome),
            },
        }),
{
}

/// Every `PackEvent` counts as it is.
pub proof fn law_pack_event_counts_as_it_is(value: PackEvent)
    ensures
        value@ == (match value {
            PackEvent::Walked(walked) => PackEventView::Walked(walk_views(walked@)),
            PackEvent::Created(r) => PackEventView::Created(done_result(r)),
            PackEvent::Added(packed) => PackEventView::Added(pack_error(packed)),
            PackEvent::Closed(r) => PackEventView::Closed(done_result(r)),
        }),
{
}

/// Every `SwapAction` counts as it is.
pub proof fn law_swap_action_counts_as_it_is(value: SwapAction)
    ensures
        value@ == (match value {
            SwapAction::Inspect => SwapActionView::Inspect,
            SwapAction::RemoveBackup => SwapActionView::RemoveBackup,
            SwapAction::SetAside => SwapActionView::SetAside,
            SwapAction::Install => SwapActionView::Install,
            SwapAction::Restore => SwapActionView::Restore,
            SwapAction::Finish(outcome) => SwapActionView::Finish(done_result(outcome)),
        }),
{
}

/// Every `SwapEvent` counts as it is.
pub proof fn law_swap_event_counts_as_it_is(value: SwapEvent)
    ensures
        value@ == (match value {
            SwapEvent::Found { target, backup } => SwapEventView::Found { target, backup },
            SwapEvent::Done(r) => SwapEventView::Done(done_result(r)),
        }),
{
}

/// Every `WriteAction` counts as it is.
pub proof fn law_write_action_counts_as_it_is(value: WriteAction)
    ensures
        value@ == (match value {
            WriteAction::FindParent => WriteActionView::FindParent,
            WriteAction::CreateDirectory => WriteActionView::CreateDirectory,
            WriteAction::Serialize => WriteActionView::Serialize,
            WriteAction::WriteTemporary => WriteActionView::WriteTemporary,
            WriteAction::Replace(label) => WriteActionView::Replace(label@),
            WriteAction::Finish(r) => WriteActionView::Finish(done_result(r)),
        }),
{
}

/// Every `UploadProgress` counts as it is.
pub proof fn law_upload_progress_counts_as_it_is(value: UploadProgress)
    ensures
        value@ == (ProgressView { percent: value.percent as nat, message: value.message@ }),
{
}

/// Every `RemoteAction` counts as it is.
pub proof fn law_remote_action_counts_as_it_is(value: RemoteAction)
    ensures
        value@ == (match value {
            RemoteAction::BuildClient => RemoteActionView::BuildClient,
            RemoteAction::Send { url, authorization } => RemoteActionView::Send {
                url: url@,
                authorization: authorization@,
            },
            RemoteAction::Finish => RemoteActionView::Finish,
        }),
{
}

/// Every `ListAnswer` counts as it is.
pub proof fn law_list_answer_counts_as_it_is(value: ListAnswer)
    ensures
        value@ == (ListAnswerView {
            outcome: outcome_view(value.outcome),
            parsed: match value.parsed {
                Ok(list) => Ok(list@),
                Err(e) => Err(e@),
            },
        }),
{
}

/// Every `ListEvent` counts as it is.
pub proof fn law_list_event_counts_as_it_is(value: ListEvent)
    ensures
        value@ == (match value {
            ListEvent::Built(r) => ListEventView::Built(done_result(r)),
            ListEvent::Answered(answer) => ListEventView::Answered(answer@),
        }),
{
}

/// Every `DeletionRequest` counts as it is.
pub proof fn law_deletion_request_counts_as_it_is(value: DeletionRequest)
    ensures
        value@ == (DeletionRequestView {
            endpoint: value.endpoint@,
            sync_key: value.sync_key@,
            save_mode: value.save_mode@,
            save_name: value.save_name@,
        }),
{
}

/// Every `DeleteEvent` counts as it is.
pub proof fn law_delete_event_counts_as_it_is(value: DeleteEvent)
    ensures
        value@ == (match value {
            DeleteEvent::Built(r) => DeleteEventView::Built(done_result(r)),
            DeleteEvent::Answered(outcome) => DeleteEventView::Answered(outcome_view(outcome)),
        }),
{
}

/// Every `UploadRequest` counts as it is.
pub proof fn law_upload_request_counts_as_it_is(value: UploadRequest)
    ensures
        value@ == (UploadRequestView {
            save_path: value.save_path@,
            save_mode: value.save_mode@,
            save_name: value.save_name@,
            endpoint: value.endpoint@,
            sync_key: value.sync_key@,
            device_name: value.device_name@,
            overwrite_confirmed: value.overwrite_confirmed,
        }),
{
}

/// Every `NewSession` counts as it is.
pub proof fn law_new_session_counts_as_it_is(value: NewSession)
    ensures
        value@ == (NewSessionView {
            total_bytes: value.total_bytes,
            chunk_size: value.chunk_size,
            chunk_count: value.chunk_count,
            save_mode: value.save_mode@,
            save_name: value.save_name@,
            device_name: value.device_name@,
            game_version: value.game_version@,
            overwrite_confirmed: value.overwrite_confirmed,
            zip_sha256: value.zip_sha256@,
        }),
{
}

/// Every `UploadAction` counts as it is.
pub proof fn law_upload_action_counts_as_it_is(value: UploadAction)
    ensures
        value@ == (match value {
            UploadAction::ListProcesses => UploadActionView::ListProcesses,
            UploadAction::CheckSource { path } => UploadActionView::CheckSource { path: path@ },
            UploadAction::PrepareArchive => UploadActionView::PrepareArchive,
            UploadAction::BuildClient => UploadActionView::BuildClient,
            UploadAction::LoadResume { file } => UploadActionView::LoadResume { file: file@ },
            UploadAction::QueryStatus { url, authorization } => UploadActionView::QueryStatus {
                url: url@,
                authorization: authorization@,
            },
            UploadAction::CreateSession { url, authorization, session } =>
                UploadActionView::CreateSession {
                url: url@,
                authorization: authorization@,
                session: session@,
            },
            UploadAction::StoreResume { file, state } => UploadActionView::StoreResume {
                file: file@,
                state: state@,
            },
            UploadAction::OpenArchive { file } => UploadActionView::OpenArchive { file: file@ },
            UploadAction::ReadChunk { offset, length } => UploadActionView::ReadChunk {
                offset: offset as nat,
                length: length as nat,
            },
            UploadAction::SendChunk { delay_seconds, url, authorization, digest, bytes } =>
                UploadActionView::SendChunk {
                delay_seconds: delay_seconds as nat,
                url: url@,
                authorization: authorization@,
                digest: digest@,
                bytes: bytes@,
            },
            UploadAction::CompleteUpload { url, authorization } =>
                UploadActionView::CompleteUpload { url: url@, authorization: authorization@ },
            UploadAction::RemoveResume { file } => UploadActionView::RemoveResume { file: file@ },
            UploadAction::Finish { outcome } => UploadActionView::Finish {
                outcome: text_result(outcome),
            },
        }),
{
}

/// Every `ChunkRead` counts as it is.
pub proof fn law_chunk_read_counts_as_it_is(value: ChunkRead)
    ensures
        value@ == (match value {
            ChunkRead::SeekFailed(e) => ChunkReadView::SeekFailed(e@),
            ChunkRead::ReadFailed(e) => ChunkReadView::ReadFailed(e@),
            ChunkRead::Bytes(b) => ChunkReadView::Bytes(b@),
        }),
{
}

/// Every `SessionAnswer` counts as it is.
pub proof fn law_session_answer_counts_as_it_is(value: SessionAnswer)
    ensures
        value@ == (SessionAnswerView {
            outcome: outcome_view(value.outcome),
            parsed: text_result(value.parsed),
        }),
{
}

/// Every `UploadEvent` counts as it is.
pub proof fn law_upload_event_counts_as_it_is(value: UploadEvent)
    ensures
        value@ == (match value {
            UploadEvent::Processes(listing) => UploadEventView::Processes(text_option(listing)),
            UploadEvent::SourceIsDirectory(b) => UploadEventView::SourceIsDirectory(b),
            UploadEvent::Archive(Ok(a)) => UploadEventView::Archive(Ok(a@)),
            UploadEvent::Archive(Err(e)) => UploadEventView::Archive(Err(e@)),
            UploadEvent::Client(r) => UploadEventView::Client(done_result(r)),
            UploadEvent::SavedResume(Some(s)) => UploadEventView::SavedResume(Some(s@)),
            UploadEvent::SavedResume(None) => UploadEventView::SavedResume(None),
            UploadEvent::Status(a) => UploadEventView::Status(a@),
            UploadEvent::Session(a) => UploadEventView::Session(a@),
            UploadEvent::ResumeStored(r) => UploadEventView::ResumeStored(done_result(r)),
            UploadEvent::Opened(r) => UploadEventView::Opened(done_result(r)),
            UploadEvent::Chunk(c) => UploadEventView::Chunk(c@),
            UploadEvent::Sent(o) => UploadEventView::Sent(outcome_view(o)),
            UploadEvent::Completed(o) => UploadEventView::Completed(outcome_view(o)),
            UploadEvent::ResumeRemoved => UploadEventView::ResumeRemoved,
        }),
{
}

/// Every `LegacyAction` counts as it is.
pub proof fn law_legacy_action_counts_as_it_is(value: LegacyAction)
    ensures
        value@ == (match value {
            LegacyAction::ListProcesses => LegacyActionView::ListProcesses,
            LegacyAction::CheckSource { path } => LegacyActionView::CheckSource { path: path@ },
            LegacyAction::Compress => LegacyActionView::Compress,
            LegacyAction::Measure => LegacyActionView::Measure,
            LegacyAction::BuildClient => LegacyActionView::BuildClient,
            LegacyAction::OpenArchive => LegacyActionView::OpenArchive,
            LegacyAction::Send {
                url,
                authorization,
                content_length,
                save_mode,
                save_name,
                device_name,
            } => LegacyActionView::Send {
                url: url@,
                authorization: authorization@,
                content_length,
                save_mode: save_mode@,
                save_name: save_name@,
                device_name: device_name@,
            },
            LegacyAction::RemoveArchive => LegacyActionView::RemoveArchive,
            LegacyAction::Finish { outcome } => LegacyActionView::Finish {
                outcome: text_result(outcome),
            },
        }),
{
}

/// Every `LegacyEvent` counts as it is.
pub proof fn law_legacy_event_counts_as_it_is(value: LegacyEvent)
    ensures
        value@ == (match value {
            LegacyEvent::Processes(listing) => LegacyEventView::Processes(text_option(listing)),
            LegacyEvent::SourceChecked(found) => LegacyEventView::SourceChecked(found),
            LegacyEvent::Compressed(r) => LegacyEventView::Compressed(count_result(r)),
            LegacyEvent::Measured(r) => LegacyEventView::Measured(count_result(r)),
            LegacyEvent::Answered(outcome) => LegacyEventView::Answered(outcome_view(outcome)),
            LegacyEvent::Done(r) => LegacyEventView::Done(done_result(r)),
        }),
{
}

/// Every `PreparedArchive` counts as it is.
pub proof fn law_prepared_archive_counts_as_it_is(value: PreparedArchive)
    ensures
        value@ == (PreparedArchiveView {
            path: value.path@,
            file_count: value.file_count,
            bytes: value.bytes,
            fingerprint: value.fingerprint@,
            zip_sha256: value.zip_sha256@,
            cache_dir: value.cache_dir@,
            reused: value.reused,
        }),
{
}

/// Every `ResumeState` counts as it is.
pub proof fn law_resume_state_counts_as_it_is(value: ResumeState)
    ensures
        value@ == (ResumeStateView {
            schema_version: value.schema_version,
            endpoint_hash: value.endpoint_hash@,
            sync_key_hash: value.sync_key_hash@,
            save_mode: value.save_mode@,
            save_name: value.save_name@,
            fingerprint: value.fingerprint@,
            zip_sha256: value.zip_sha256@,
            zip_bytes: value.zip_bytes,
            chunk_size: value.chunk_size,
            chunk_count: value.chunk_count,
            upload_id: value.upload_id@,
        }),
{
}

/// Every `UploadStatus` counts as it is.
pub proof fn law_upload_status_counts_as_it_is(value: UploadStatus)
    ensures
        value@ == (UploadStatusView {
            upload_id: value.upload_id@,
            total_bytes: value.total_bytes,
            chunk_size: value.chunk_size,
            chunk_count: value.chunk_count,
            save_mode: value.save_mode@,
            save_name: value.save_name@,
            zip_sha256: value.zip_sha256@,
            completed_chunks: value.completed_chunks@,
        }),
{
}

/// Every `StatusAnswer` counts as it is.
pub proof fn law_status_answer_counts_as_it_is(value: StatusAnswer)
    ensures
        value@ == (StatusAnswerView {
            outcome: outcome_view(value.outcome),
            parsed: match value.parsed {
                Ok(status) => Ok(status@),
                Err(e) => Err(e@),
            },
        }),
{
}

/// Every `HttpReply` counts as it is.
pub proof fn law_http_reply_counts_as_it_is(value: HttpReply)
    ensures
        value@ == (HttpReplyView { status: value.status, body: value.body@ }),
{
}

/// Every `ExtractAction` counts as it is.
pub proof fn law_extract_action_counts_as_it_is(value: ExtractAction)
    ensures
        value@ == (match value {
            ExtractAction::OpenFile => ExtractActionView::OpenFile,
            ExtractAction::OpenArchive => ExtractActionView::OpenArchive,
            ExtractAction::ReadEntry { index } => ExtractActionView::ReadEntry { index },
            ExtractAction::CreateDirectory => ExtractActionView::CreateDirectory,
            ExtractAction::CreateParent => ExtractActionView::CreateParent,
            ExtractAction::CreateFile => ExtractActionView::CreateFile,
            ExtractAction::CopyContents => ExtractActionView::CopyContents,
            ExtractAction::Finish { outcome } => ExtractActionView::Finish {
                outcome: done_result(outcome),
            },
        }),
{
}

/// Every `ExtractEvent` counts as it is.
pub proof fn law_extract_event_counts_as_it_is(value: ExtractEvent)
    ensures
        value@ == (match value {
            ExtractEvent::Archive(Ok(total)) => ExtractEventView::Archive(Ok(total)),
            ExtractEvent::Archive(Err(e)) => ExtractEventView::Archive(Err(e@)),
            ExtractEvent::Entry(Ok(kind)) => ExtractEventView::Entry(Ok(kind)),
            ExtractEvent::Entry(Err(e)) => ExtractEventView::Entry(Err(e@)),
            ExtractEvent::Done(r) => ExtractEventView::Done(done_result(r)),
        }),
{
}

/// Every `CacheMetadata` counts as it is.
pub proof fn law_cache_metadata_counts_as_it_is(value: CacheMetadata)
    ensures
        value@ == (CacheMetadataView {
            schema_version: value.schema_version,
            save_mode: value.save_mode@,
            save_name: value.save_name@,
            fingerprint: value.fingerprint@,
            zip_sha256: value.zip_sha256@,
            zip_bytes: value.zip_bytes,
            files: entry_views(value.files@),
        }),
{
}

/// Every `PrepareAction` counts as it is.
pub proof fn law_prepare_action_counts_as_it_is(value: PrepareAction)
    ensures
        value@ == (match value {
            PrepareAction::LocateData => PrepareActionView::LocateData,
            PrepareAction::CreateCache { directory } => PrepareActionView::CreateCache {
                directory: directory@,
            },
            PrepareAction::ReadMetadata { file } => PrepareActionView::ReadMetadata {
                file: file@,
            },
            PrepareAction::WalkSave => PrepareActionView::WalkSave,
            PrepareAction::KeepFile => PrepareActionView::KeepFile,
            PrepareAction::HashFile { index } => PrepareActionView::HashFile { index },
            PrepareAction::InspectArchive { archive } => PrepareActionView::InspectArchive {
                archive: archive@,
            },
            PrepareAction::HashArchive { archive } => PrepareActionView::HashArchive {
                archive: archive@,
            },
            PrepareAction::Compress { temporary } => PrepareActionView::Compress {
                temporary: temporary@,
            },
            PrepareAction::MeasureTemporary { temporary } => PrepareActionView::MeasureTemporary {
                temporary: temporary@,
            },
            PrepareAction::HashTemporary { temporary } => PrepareActionView::HashTemporary {
                temporary: temporary@,
            },
            PrepareAction::CommitArchive { temporary, archive, label } =>
                PrepareActionView::CommitArchive {
                temporary: temporary@,
                archive: archive@,
                label: label@,
            },
            PrepareAction::WriteMetadata { file, metadata } => PrepareActionView::WriteMetadata {
                file: file@,
                metadata: metadata@,
            },
            PrepareAction::Finish => PrepareActionView::Finish,
        }),
{
}

/// Every `PrepareEvent` counts as it is.
pub proof fn law_prepare_event_counts_as_it_is(value: PrepareEvent)
    ensures
        value@ == (match value {
            PrepareEvent::Located(r) => PrepareEventView::Located(done_result(r)),
            PrepareEvent::Created(r) => PrepareEventView::Created(done_result(r)),
            PrepareEvent::Metadata(Some(m)) => PrepareEventView::Metadata(Some(m@)),
            PrepareEvent::Metadata(None) => PrepareEventView::Metadata(None),
            PrepareEvent::Walked(walked) => PrepareEventView::Walked(walk_views(walked@)),
            PrepareEvent::Scanned(e) => PrepareEventView::Scanned(e@),
            PrepareEvent::ArchiveSize(n) => PrepareEventView::ArchiveSize(n),
            PrepareEvent::Digest(r) => PrepareEventView::Digest(text_result(r)),
            PrepareEvent::Compressed(r) => PrepareEventView::Compressed(count_result(r)),
            PrepareEvent::Measured(r) => PrepareEventView::Measured(count_result(r)),
            PrepareEvent::Committed(r) => PrepareEventView::Committed(done_result(r)),
            PrepareEvent::MetadataWritten(r) => PrepareEventView::MetadataWritten(done_result(r)),
        }),
{
}

/// Every `CachedFileEntry` counts as it is.
pub proof fn law_cached_file_entry_counts_as_it_is(value: CachedFileEntry)
    ensures
        value@ == (CachedFileEntryView {
            path: value.path@,
            bytes: value.bytes,
            modified_ns: value.modified_ns,
            sha256: value.sha256@,
        }),
{
}

/// Every `FoundFile` counts as it is.
pub proof fn law_found_file_counts_as_it_is(value: FoundFile)
    ensures
        value@ == (FoundFileView {
            position: value.position as int,
            path: value.path@,
            bytes: value.bytes,
            modified_ns: value.modified_ns,
        }),
{
}

/// Every `ScanEvent` counts as it is.
pub proof fn law_scan_event_counts_as_it_is(value: ScanEvent)
    ensures
        value@ == (match value {
            ScanEvent::Kept => ScanEventView::Kept,
            ScanEvent::Digest(r) => ScanEventView::Digest(text_result(r)),
        }),
{
}

/// Every `DownloadRequest` counts as it is.
pub proof fn law_download_request_counts_as_it_is(value: DownloadRequest)
    ensures
        value@ == (DownloadRequestView {
            endpoint: value.endpoint@,
            sync_key: value.sync_key@,
            save_mode: value.save_mode@,
            save_name: value.save_name@,
            overwrite_confirmed: value.overwrite_confirmed,
        }),
{
}

/// Every `SnapshotReply` counts as it is.
pub proof fn law_snapshot_reply_counts_as_it_is(value: SnapshotReply)
    ensures
        value@ == (SnapshotReplyView {
            status: value.status,
            content_length: value.content_length,
            body: value.body@,
        }),
{
}

/// Every `DownloadAction` counts as it is.
pub proof fn law_download_action_counts_as_it_is(value: DownloadAction)
    ensures
        value@ == (match value {
            DownloadAction::ListProcesses => DownloadActionView::ListProcesses,
            DownloadAction::CheckRoot => DownloadActionView::CheckRoot,
            DownloadAction::CheckTarget => DownloadActionView::CheckTarget,
            DownloadAction::BuildClient => DownloadActionView::BuildClient,
            DownloadAction::Request { url, authorization } => DownloadActionView::Request {
                url: url@,
                authorization: authorization@,
            },
            DownloadAction::CreateArchive => DownloadActionView::CreateArchive,
            DownloadAction::Receive => DownloadActionView::Receive,
            DownloadAction::Store => DownloadActionView::Store,
            DownloadAction::Flush => DownloadActionView::Flush,
            DownloadAction::CreateModeDirectory => DownloadActionView::CreateModeDirectory,
            DownloadAction::Unpack => DownloadActionView::Unpack,
            DownloadAction::RemoveArchive => DownloadActionView::RemoveArchive,
            DownloadAction::SetAside => DownloadActionView::SetAside,
            DownloadAction::MoveIn => DownloadActionView::MoveIn,
            DownloadAction::RemoveStaging => DownloadActionView::RemoveStaging,
            DownloadAction::Restore => DownloadActionView::Restore,
            DownloadAction::Finish { outcome } => DownloadActionView::Finish {
                outcome: text_result(outcome),
            },
        }),
{
}

/// Every `DownloadEvent` counts as it is.
pub proof fn law_download_event_counts_as_it_is(value: DownloadEvent)
    ensures
        value@ == (match value {
            DownloadEvent::Processes(listing) => DownloadEventView::Processes(text_option(listing)),
            DownloadEvent::Found(found) => DownloadEventView::Found(found),
            DownloadEvent::Replied(Ok(reply)) => DownloadEventView::Replied(Ok(reply@)),
            DownloadEvent::Replied(Err(e)) => DownloadEventView::Replied(Err(e@)),
            DownloadEvent::Received(Ok(n)) => DownloadEventView::Received(Ok(n)),
            DownloadEvent::Received(Err(e)) => DownloadEventView::Received(Err(e@)),
            DownloadEvent::Done(r) => DownloadEventView::Done(done_result(r)),
        }),
{
}

/// Every `SaveEntry` counts as it is.
pub proof fn law_save_entry_counts_as_it_is(value: SaveEntry)
    ensures
        value@ == (SaveEntryView { mode: value.mode@, name: value.name@, path: value.path@ }),
{
}

/// Every `FoundSave` counts as it is.
pub proof fn law_found_save_counts_as_it_is(value: FoundSave)
    ensures
        value@ == (FoundSaveView {
            name: value.name@,
            path: value.path@,
            is_directory: value.is_directory,
        }),
{
}

/// A text or an error text is the text itself, of whatever length.
pub proof fn law_texts_count_as_they_are(
    r: Result<String, String>,
    done: Result<(), String>,
    option: Option<String>,
    count: Result<u64, String>,
    outcome: Outcome,
)
    ensures
        match r {
            Ok(s) => text_result(r) is Ok && text_result(r)->Ok_0 == s@,
            Err(e) => text_result(r) is Err && text_result(r)->Err_0 == e@,
        },
        match done {
            Ok(_) => done_result(done) is Ok,
            Err(e) => done_result(done) is Err && done_result(done)->Err_0 == e@,
        },
        match option {
            Some(s) => text_option(option) is Some && text_option(option)->0 == s@,
            None => text_option(option) is None,
        },
        match count {
            Ok(n) => count_result(count) is Ok && count_result(count)->Ok_0 == n,
            Err(e) => count_result(count) is Err && count_result(count)->Err_0 == e@,
        },
        match outcome {
            Ok(reply) => outcome_view(outcome) is Ok && outcome_view(outcome)->Ok_0 == reply@,
            Err(error) => outcome_view(outcome) is Err && outcome_view(outcome)->Err_0 == error@,
        },
{
}

/// An error counts with its message and all its causes, in order.
pub proof fn law_transport_error_counts_as_it_is(error: TransportError)
    ensures
        error@.message == error.message@,
        error@.causes.len() == error.causes@.len(),
        forall|i: int|
            0 <= i < error.causes@.len() ==> #[trigger] error@.causes[i] == error.causes@[i]@,
{
}

/// A path counts with all its components, in order.
pub proof fn law_local_path_counts_as_it_is(path: LocalPath)
    ensures
        path@.anchor == path.anchor,
        path@.components.len() == path.components@.len(),
        forall|i: int|
            0 <= i < path.components@.len() ==> #[trigger] path@.components[i]
                == path.components@[i]@,
{
}

/// Of a list every item counts, in its place.
pub proof fn law_lists_count_as_they_are(
    entries: Seq<CachedFileEntry>,
    digests: Seq<Result<String, String>>,
    found: Seq<FoundFile>,
    sources: Seq<ArchiveSource>,
    packed: Seq<Packed>,
    reports: Seq<UploadProgress>,
    saves: Seq<SaveEntry>,
    i: int,
)
    ensures
        entry_views(entries).len() == entries.len(),
        0 <= i < entries.len() ==> entry_views(entries)[i] == entries[i]@,
        digest_views(digests).len() == digests.len(),
        0 <= i < digests.len() ==> digest_views(digests)[i] == text_result(digests[i]),
        found_views(found).len() == found.len(),
        0 <= i < found.len() ==> found_views(found)[i] == found[i]@,
        source_views(sources).len() == sources.len(),
        0 <= i < sources.len() ==> source_views(sources)[i] == sources[i]@,
        packed_views(packed).len() == packed.len(),
        0 <= i < packed.len() ==> (packed_views(packed)[i] is None <==> packed[i] is Done),
        report_views(reports).len() == reports.len(),
        0 <= i < reports.len() ==> report_views(reports)[i] == reports[i]@,
        save_views(saves).len() == saves.len(),
        0 <= i < saves.len() ==> save_views(saves)[i] == saves[i]@,
{
}

/// Of the directory of the saves and of those of the modes everything counts, in its place.
pub proof fn law_directories_count_as_they_are(
    modes: Seq<Result<FoundMode, String>>,
    saves: Seq<Result<FoundSave, String>>,
    i: int,
)
    ensures
        found_mode_views(modes).len() == modes.len(),
        0 <= i < modes.len() ==> match modes[i] {
            Err(e) => found_mode_views(modes)[i] is Err && found_mode_views(modes)[i]->Err_0 == e@,
            Ok(mode) => {
                &&& found_mode_views(modes)[i] matches Ok(view)
                &&& view.name == mode.name@
                &&& view.is_directory == mode.is_directory
                &&& match mode.saves {
                    Ok(inside) => view.saves is Ok && view.saves->Ok_0 == found_save_views(
                        inside@,
                    ),
                    Err(e) => view.saves is Err && view.saves->Err_0 == e@,
                }
            },
        },
        found_save_views(saves).len() == saves.len(),
        0 <= i < saves.len() ==> match saves[i] {
            Err(e) => found_save_views(saves)[i] is Err && found_save_views(saves)[i]->Err_0 == e@,
            Ok(save) => found_save_views(saves)[i] is Ok && found_save_views(saves)[i]->Ok_0
                == save@,
        },
{
}

/// A result counts as it is: a list of results in its order, and an error with its text.
pub proof fn law_results_count_as_they_are(
    modes: Result<Vec<Result<FoundMode, String>>, String>,
    saves: Result<Vec<SaveEntry>, String>,
    entries: Result<Vec<CachedFileEntry>, String>,
    library: Result<RemoteSaveLibrary, String>,
    files: Result<Vec<FoundFile>, String>,
    sources: Result<Vec<ArchiveSource>, String>,
    query: Result<Option<UploadStatus>, String>,
)
    ensures
        match modes {
            Ok(v) => modes_result(modes) is Ok && modes_result(modes)->Ok_0 == found_mode_views(v@),
            Err(e) => modes_result(modes) is Err && modes_result(modes)->Err_0 == e@,
        },
        match saves {
            Ok(v) => saves_result(saves) is Ok && saves_result(saves)->Ok_0 == save_views(v@),
            Err(e) => saves_result(saves) is Err && saves_result(saves)->Err_0 == e@,
        },
        match entries {
            Ok(v) => entries_result(entries) is Ok && entries_result(entries)->Ok_0 == entry_views(
                v@,
            ),
            Err(e) => entries_result(entries) is Err && entries_result(entries)->Err_0 == e@,
        },
        match library {
            Ok(v) => library_result(library) is Ok && library_result(library)->Ok_0 == v@,
            Err(e) => library_result(library) is Err && library_result(library)->Err_0 == e@,
        },
        match files {
            Ok(v) => files_result(files) is Ok && files_result(files)->Ok_0 == found_views(v@),
            Err(e) => files_result(files) is Err && files_result(files)->Err_0 == e@,
        },
        match sources {
            Ok(v) => sources_result(sources) is Ok && sources_result(sources)->Ok_0 == source_views(
                v@,
            ),
            Err(e) => sources_result(sources) is Err && sources_result(sources)->Err_0 == e@,
        },
        match query {
            Ok(Some(v)) => {
                &&& query_view(query) matches Ok(seen)
                &&& seen is Some && seen->0 == v@
            },
            Ok(None) => query_view(query) is Ok && query_view(query)->Ok_0 is None,
            Err(e) => query_view(query) is Err && query_view(query)->Err_0 == e@,
        },
{
}

/// The list of the server and the library that is shown count with all their saves and the total.
pub proof fn law_remote_lists_count_as_they_are(list: RemoteSaveList, library: RemoteSaveLibrary)
    ensures
        list@.saves == manifest_views(list.saves@),
        list@.total_bytes == list.total_bytes,
        library@.saves == manifest_views(library.saves@),
        library@.total_bytes == library.total_bytes,
{
}

/// Where a replacement or a write stands counts as it is.
pub proof fn law_phases_count_as_they_are(swap: SwapPhase, write: WritePhase)
    ensures
        match swap {
            SwapPhase::Inspecting => swap@ is Inspecting,
            SwapPhase::RemovingStaleBackup { had_target } => swap@
                == (SwapPhaseView::RemovingStaleBackup { had_target }),
            SwapPhase::SettingAside => swap@ is SettingAside,
            SwapPhase::Installing { had_target } => swap@ == (SwapPhaseView::Installing {
                had_target,
            }),
            SwapPhase::Restoring { error } => swap@ == (SwapPhaseView::Restoring { error: error@ }),
            SwapPhase::RemovingBackup => swap@ is RemovingBackup,
            SwapPhase::Finished { outcome } => swap@ == (SwapPhaseView::Finished {
                outcome: done_result(outcome),
            }),
        },
        match write {
            WritePhase::FindingParent => write@ is FindingParent,
            WritePhase::CreatingDirectory => write@ is CreatingDirectory,
            WritePhase::Serializing => write@ is Serializing,
            WritePhase::WritingTemporary => write@ is WritingTemporary,
            WritePhase::Replacing => write@ is Replacing,
            WritePhase::Finished { outcome } => write@ == (WritePhaseView::Finished {
                outcome: done_result(outcome),
            }),
        },
{
}

}
