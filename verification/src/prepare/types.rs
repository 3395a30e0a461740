//! What is remembered of an archive, what its preparation asks for, and what comes back.

use crate::compress::count_result;
use crate::paths::{LocalPath, LocalPathView};
use crate::scan::{entry_views, CachedFileEntry, CachedFileEntryView, ScanEvent, ScanEventView};
use crate::text::{done_result, text_result};
use crate::walk::{walk_views, WalkStep, WalkStepView};
use vstd::prelude::*;

verus! {

/// What is remembered of the archive of a save.
pub struct CacheMetadata {
    pub schema_version: u8,
    pub save_mode: String,
    pub save_name: String,
    pub fingerprint: String,
    pub zip_sha256: String,
    pub zip_bytes: u64,
    pub files: Vec<CachedFileEntry>,
}

pub struct CacheMetadataView {
    pub schema_version: u8,
    pub save_mode: Seq<char>,
    pub save_name: Seq<char>,
    pub fingerprint: Seq<char>,
    pub zip_sha256: Seq<char>,
    pub zip_bytes: u64,
    pub files: Seq<CachedFileEntryView>,
}

impl View for CacheMetadata {
    type V = CacheMetadataView;

    open spec fn view(&self) -> CacheMetadataView {
        CacheMetadataView {
            schema_version: self.schema_version,
            save_mode: self.save_mode@,
            save_name: self.save_name@,
            fingerprint: self.fingerprint@,
            zip_sha256: self.zip_sha256@,
            zip_bytes: self.zip_bytes,
            files: entry_views(self.files@),
        }
    }
}

/// What preparing an archive does next.
pub enum PrepareAction {
    /// Find the directory for the program's data.
    LocateData,
    /// Create the directory of the cache.
    CreateCache { directory: LocalPath },
    /// Read what is remembered of the archive.
    ReadMetadata { file: LocalPath },
    /// Walk through the save.
    WalkSave,
    /// Go on with the scan of the save, without reading a file.
    KeepFile,
    /// Read the file that the step at this position of the walk came across, and compute its
    /// digest.
    HashFile { index: usize },
    /// See whether the archive is a file, and how large.
    InspectArchive { archive: LocalPath },
    /// Compute the digest of the archive.
    HashArchive { archive: LocalPath },
    /// Pack the save into a temporary archive.
    Compress { temporary: LocalPath },
    /// Find the size of the temporary archive.
    MeasureTemporary { temporary: LocalPath },
    /// Compute the digest of the temporary archive.
    HashTemporary { temporary: LocalPath },
    /// Replace the archive by the temporary one, under this label.
    CommitArchive { temporary: LocalPath, archive: LocalPath, label: String },
    /// Write down what is to be remembered of the archive.
    WriteMetadata { file: LocalPath, metadata: CacheMetadata },
    /// The preparation is over.
    Finish,
}

pub enum PrepareActionView {
    LocateData,
    CreateCache { directory: LocalPathView },
    ReadMetadata { file: LocalPathView },
    WalkSave,
    KeepFile,
    HashFile { index: usize },
    InspectArchive { archive: LocalPathView },
    HashArchive { archive: LocalPathView },
    Compress { temporary: LocalPathView },
    MeasureTemporary { temporary: LocalPathView },
    HashTemporary { temporary: LocalPathView },
    CommitArchive { temporary: LocalPathView, archive: LocalPathView, label: Seq<char> },
    WriteMetadata { file: LocalPathView, metadata: CacheMetadataView },
    Finish,
}

impl View for PrepareAction {
    type V = PrepareActionView;

    open spec fn view(&self) -> PrepareActionView {
        match *self {
            PrepareAction::LocateData => PrepareActionView::LocateData,
            PrepareAction::CreateCache { directory } => PrepareActionView::CreateCache {
                directory: directory@,
            },
            PrepareAction::ReadMetadata { file } => PrepareActionView::ReadMetadata {
                file: file@,
            },
            PrepareAction::WalkSave => PrepareActionView::WalkSave,
            PrepareAction::KeepFile => PrepareActionView::KeepFile,
            PrepareAction::HashFile { index } => PrepareActionView::HashFile { index },
            PrepareAction::InspectArchive { archive } => PrepareActionView::InspectArchive {
                archive: archive@,
            },
            PrepareAction::HashArchive { archive } => PrepareActionView::HashArchive {
                archive: archive@,
            },
            PrepareAction::Compress { temporary } => PrepareActionView::Compress {
                temporary: temporary@,
            },
            PrepareAction::MeasureTemporary { temporary } => PrepareActionView::MeasureTemporary {
                temporary: temporary@,
            },
            PrepareAction::HashTemporary { temporary } => PrepareActionView::HashTemporary {
                temporary: temporary@,
            },
            PrepareAction::CommitArchive { temporary, archive, label } =>
                PrepareActionView::CommitArchive {
                temporary: temporary@,
                archive: archive@,
                label: label@,
            },
            PrepareAction::WriteMetadata { file, metadata } => PrepareActionView::WriteMetadata {
                file: file@,
                metadata: metadata@,
            },
            PrepareAction::Finish => PrepareActionView::Finish,
        }
    }
}

/// What an action of the preparation came to.
pub enum PrepareEvent {
    Located(Result<(), String>),
    Created(Result<(), String>),
    Metadata(Option<CacheMetadata>),
    Walked(Vec<WalkStep>),
    Scanned(ScanEvent),
    ArchiveSize(Option<u64>),
    Digest(Result<String, String>),
    Compressed(Result<u64, String>),
    Measured(Result<u64, String>),
    Committed(Result<(), String>),
    MetadataWritten(Result<(), String>),
}

pub enum PrepareEventView {
    Located(Result<(), Seq<char>>),
    Created(Result<(), Seq<char>>),
    Metadata(Option<CacheMetadataView>),
    Walked(Seq<WalkStepView>),
    Scanned(ScanEventView),
    ArchiveSize(Option<u64>),
    Digest(Result<Seq<char>, Seq<char>>),
    Compressed(Result<u64, Seq<char>>),
    Measured(Result<u64, Seq<char>>),
    Committed(Result<(), Seq<char>>),
    MetadataWritten(Result<(), Seq<char>>),
}

impl View for PrepareEvent {
    type V = PrepareEventView;

    open spec fn view(&self) -> PrepareEventView {
        match *self {
            PrepareEvent::Located(r) => PrepareEventView::Located(done_result(r)),
            PrepareEvent::Created(r) => PrepareEventView::Created(done_result(r)),
            PrepareEvent::Metadata(Some(m)) => PrepareEventView::Metadata(Some(m@)),
            PrepareEvent::Metadata(None) => PrepareEventView::Metadata(None),
            PrepareEvent::Walked(walked) => PrepareEventView::Walked(walk_views(walked@)),
            PrepareEvent::Scanned(e) => PrepareEventView::Scanned(e@),
            PrepareEvent::ArchiveSize(n) => PrepareEventView::ArchiveSize(n),
            PrepareEvent::Digest(r) => PrepareEventView::Digest(text_result(r)),
            PrepareEvent::Compressed(r) => PrepareEventView::Compressed(count_result(r)),
            PrepareEvent::Measured(r) => PrepareEventView::Measured(count_result(r)),
            PrepareEvent::Committed(r) => PrepareEventView::Committed(done_result(r)),
            PrepareEvent::MetadataWritten(r) => PrepareEventView::MetadataWritten(done_result(r)),
        }
    }
}

}
