//! The course of a preparation as a transition system, and what holds of every course.

use crate::fingerprint::fingerprint_of;
use crate::messages::failed_text;
use crate::paths::{
    archive_file_of, cache_directory_of, metadata_file_of, temporary_archive_of, LocalPathView,
};
use crate::prepare::types::{CacheMetadataView, PrepareActionView, PrepareEventView};
use crate::progress::{percent_of, report, ProgressView};
use crate::resume::{PreparedArchiveView, SCHEMA_VERSION};
use crate::scan::{
    files_in, scan_action, scan_next, scan_outcome, scan_start, CachedFileEntryView, ScanAction,
    ScanView,
};
use crate::text::decimal;
use vstd::prelude::*;

verus! {

/// What is remembered of an archive, without its files.
pub struct KnownArchiveView {
    pub schema_version: u8,
    pub save_mode: Seq<char>,
    pub save_name: Seq<char>,
    pub fingerprint: Seq<char>,
    pub zip_sha256: Seq<char>,
    pub zip_bytes: u64,
}

/// What `metadata` says of the archive itself.
pub open spec fn known_archive(metadata: CacheMetadataView) -> KnownArchiveView {
    KnownArchiveView {
        schema_version: metadata.schema_version,
        save_mode: metadata.save_mode,
        save_name: metadata.save_name,
        fingerprint: metadata.fingerprint,
        zip_sha256: metadata.zip_sha256,
        zip_bytes: metadata.zip_bytes,
    }
}

/// What is remembered of the archive, as far as something is.
pub open spec fn remembered_archive(metadata: Option<CacheMetadataView>) -> Option<
    KnownArchiveView,
> {
    match metadata {
        Some(m) => Some(known_archive(m)),
        None => None,
    }
}

/// A save that has been scanned.
pub struct ScannedSaveView {
    pub files: Seq<CachedFileEntryView>,
    pub fingerprint: Seq<char>,
}

/// What a preparation is waiting for.
pub enum PreparePhaseView {
    /// The directory for the program's data.
    Locate,
    /// The directory of the cache.
    CreateCache,
    /// What is remembered of the archive.
    ReadMetadata,
    /// The walk through the save.
    Walk { metadata: Option<CacheMetadataView> },
    /// The digests of the files.
    Scan { remembered: Option<KnownArchiveView>, scan: ScanView },
    /// Whether the archive is there, and how large.
    Inspect { save: ScannedSaveView, known: KnownArchiveView },
    /// The digest of the archive.
    HashArchive { save: ScannedSaveView, known: KnownArchiveView },
    /// A new archive.
    Compress { save: ScannedSaveView },
    /// Its size.
    Measure { save: ScannedSaveView, file_count: u64 },
    /// Its digest.
    HashTemporary { save: ScannedSaveView, file_count: u64, bytes: u64 },
    /// That it has taken the place of the old one.
    Commit { save: ScannedSaveView, archive: PreparedArchiveView },
    /// That it is remembered.
    WriteMetadata { save: ScannedSaveView, archive: PreparedArchiveView },
    /// Nothing any more.
    Finished { outcome: Result<PreparedArchiveView, Seq<char>> },
}

/// A preparation under way.
pub struct PreparationView {
    pub save_mode: Seq<char>,
    pub save_name: Seq<char>,
    pub process_id: u32,
    pub phase: PreparePhaseView,
}

impl PreparationView {
    /// The directory of the cache.
    pub open spec fn cache_dir(self) -> LocalPathView {
        cache_directory_of(self.save_mode, self.save_name)
    }

    /// The archive in the cache.
    pub open spec fn archive(self) -> LocalPathView {
        archive_file_of(self.cache_dir())
    }

    /// The archive that is made before it takes the place of the one in the cache.
    pub open spec fn temporary(self) -> LocalPathView {
        temporary_archive_of(self.cache_dir(), self.process_id)
    }
}

/// What an event leads to: the next phase, and what is reported on the way.
pub struct PrepareStepView {
    pub phase: PreparePhaseView,
    pub reports: Seq<ProgressView>,
}

/// The phase changes to `phase`, and nothing is reported.
pub open spec fn prepares(phase: PreparePhaseView) -> PrepareStepView {
    PrepareStepView { phase, reports: Seq::empty() }
}

/// The preparation ends with this message.
pub open spec fn prepare_fails(message: Seq<char>) -> PrepareStepView {
    prepares(PreparePhaseView::Finished { outcome: Err(message) })
}

/// How much of a save has been scanned.
pub open spec fn scan_percent(scan: ScanView) -> nat {
    percent_of(scan.entries.len(), scan.files.len())
}

/// The report on a scan.
pub open spec fn scan_report(scan: ScanView) -> ProgressView {
    report(
        scan_percent(scan),
        "正在扫描存档："@ + decimal(scan.entries.len()) + "/"@ + decimal(scan.files.len())
            + " 个文件"@,
    )
}

/// Whether what is remembered is about this save with these files.
pub open spec fn describes(
    known: KnownArchiveView,
    save_mode: Seq<char>,
    save_name: Seq<char>,
    fingerprint: Seq<char>,
) -> bool {
    &&& known.schema_version == SCHEMA_VERSION
    &&& known.save_mode == save_mode
    &&& known.save_name == save_name
    &&& known.fingerprint == fingerprint
}

/// A new archive is made.
pub open spec fn compresses(save: ScannedSaveView) -> PrepareStepView {
    PrepareStepView {
        phase: PreparePhaseView::Compress { save },
        reports: seq![report(0, "缓存不可用，正在压缩存档..."@)],
    }
}

/// After the scan: an archive that is remembered for this very save is looked at, otherwise a new
/// one is made.
pub open spec fn after_scan(
    save_mode: Seq<char>,
    save_name: Seq<char>,
    remembered: Option<KnownArchiveView>,
    scan: ScanView,
) -> PrepareStepView {
    match scan_outcome(scan) {
        Err(e) => prepare_fails(e),
        Ok(files) => {
            let fingerprint = fingerprint_of(files);
            let save = ScannedSaveView { files, fingerprint };
            if remembered is Some && describes(remembered->0, save_mode, save_name, fingerprint) {
                prepares(PreparePhaseView::Inspect { save, known: remembered->0 })
            } else {
                compresses(save)
            }
        },
    }
}

/// The scan goes on, or is evaluated when it is over; `reports` come first.
pub open spec fn scans_on(
    save_mode: Seq<char>,
    save_name: Seq<char>,
    remembered: Option<KnownArchiveView>,
    scan: ScanView,
    reports: Seq<ProgressView>,
) -> PrepareStepView {
    if scan_action(scan) is Done {
        let step = after_scan(save_mode, save_name, remembered, scan);
        PrepareStepView { phase: step.phase, reports: reports + step.reports }
    } else {
        PrepareStepView { phase: PreparePhaseView::Scan { remembered, scan }, reports }
    }
}

/// The archive of an earlier upload, as it is handed on.
pub open spec fn reused_archive(
    cache_dir: LocalPathView,
    save: ScannedSaveView,
    known: KnownArchiveView,
) -> PreparedArchiveView {
    PreparedArchiveView {
        path: archive_file_of(cache_dir),
        file_count: save.files.len() as u64,
        bytes: known.zip_bytes,
        fingerprint: save.fingerprint,
        zip_sha256: known.zip_sha256,
        cache_dir,
        reused: true,
    }
}

/// A new archive, as it is handed on.
pub open spec fn new_archive(
    cache_dir: LocalPathView,
    save: ScannedSaveView,
    file_count: u64,
    bytes: u64,
    zip_sha256: Seq<char>,
) -> PreparedArchiveView {
    PreparedArchiveView {
        path: archive_file_of(cache_dir),
        file_count,
        bytes,
        fingerprint: save.fingerprint,
        zip_sha256,
        cache_dir,
        reused: false,
    }
}

/// What is remembered of a new archive.
pub open spec fn metadata_of(
    save_mode: Seq<char>,
    save_name: Seq<char>,
    save: ScannedSaveView,
    archive: PreparedArchiveView,
) -> CacheMetadataView {
    CacheMetadataView {
        schema_version: SCHEMA_VERSION,
        save_mode,
        save_name,
        fingerprint: archive.fingerprint,
        zip_sha256: archive.zip_sha256,
        zip_bytes: archive.bytes,
        files: save.files,
    }
}

/// The entries of the scan before, as far as something is remembered.
pub open spec fn previous_files(metadata: Option<CacheMetadataView>) -> Seq<CachedFileEntryView> {
    match metadata {
        Some(m) => m.files,
        None => Seq::empty(),
    }
}

/// What an event leads to; one that does not answer the pending action leads nowhere.
pub open spec fn prepare_step(s: PreparationView, event: PrepareEventView) -> PrepareStepView {
    match (s.phase, event) {
        (PreparePhaseView::Locate, PrepareEventView::Located(located)) => match located {
            Ok(_) => prepares(PreparePhaseView::CreateCache),
            Err(e) => prepare_fails(failed_text("获取应用数据目录失败"@, e)),
        },
        (PreparePhaseView::CreateCache, PrepareEventView::Created(created)) =>
            match created {
            Ok(_) => prepares(PreparePhaseView::ReadMetadata),
            Err(e) => prepare_fails(failed_text("创建存档缓存目录失败"@, e)),
        },
        (PreparePhaseView::ReadMetadata, PrepareEventView::Metadata(metadata)) =>
            PrepareStepView {
            phase: PreparePhaseView::Walk { metadata },
            reports: seq![report(0, "正在检查本地压缩缓存..."@)],
        },
        (PreparePhaseView::Walk { metadata }, PrepareEventView::Walked(walked)) =>
            match files_in(walked) {
            Ok(found) => {
                let scan = scan_start(found, previous_files(metadata));
                scans_on(
                    s.save_mode,
                    s.save_name,
                    remembered_archive(metadata),
                    scan,
                    seq![scan_report(scan)],
                )
            },
            Err(e) => prepare_fails(e),
        },
        (PreparePhaseView::Scan { remembered, scan }, PrepareEventView::Scanned(scanned)) => {
            let next = scan_next(scan, scanned);
            scans_on(
                s.save_mode,
                s.save_name,
                remembered,
                next,
                if scan_percent(next) != scan_percent(scan) {
                    seq![scan_report(next)]
                } else {
                    Seq::empty()
                },
            )
        },
        (PreparePhaseView::Inspect { save, known }, PrepareEventView::ArchiveSize(size)) =>
            if size == Some(known.zip_bytes) {
            prepares(PreparePhaseView::HashArchive { save, known })
        } else {
            compresses(save)
        },
        (PreparePhaseView::HashArchive { save, known }, PrepareEventView::Digest(digest)) =>
            match digest {
            Ok(sha256) => if sha256 == known.zip_sha256 {
                PrepareStepView {
                    phase: PreparePhaseView::Finished { outcome: Ok(reused_archive(s.cache_dir(), save, known)) },
                    reports: seq![report(100, "存档未变化，跳过压缩"@)],
                }
            } else {
                compresses(save)
            },
            Err(e) => prepare_fails(e),
        },
        (PreparePhaseView::Compress { save }, PrepareEventView::Compressed(packed)) =>
            match packed {
            Ok(file_count) => prepares(PreparePhaseView::Measure { save, file_count }),
            Err(e) => prepare_fails(e),
        },
        (PreparePhaseView::Measure { save, file_count }, PrepareEventView::Measured(measured)) =>
            match measured {
            Ok(bytes) => prepares(PreparePhaseView::HashTemporary { save, file_count, bytes }),
            Err(e) => prepare_fails(failed_text("读取压缩包大小失败"@, e)),
        },
        (
            PreparePhaseView::HashTemporary { save, file_count, bytes },
            PrepareEventView::Digest(digest),
        ) => match digest {
            Ok(sha256) => prepares(
                PreparePhaseView::Commit {
                    save,
                    archive: new_archive(s.cache_dir(), save, file_count, bytes, sha256),
                },
            ),
            Err(e) => prepare_fails(e),
        },
        (PreparePhaseView::Commit { save, archive }, PrepareEventView::Committed(committed)) =>
            match committed {
            Ok(_) => prepares(PreparePhaseView::WriteMetadata { save, archive }),
            Err(e) => prepare_fails(e),
        },
        (
            PreparePhaseView::WriteMetadata { archive, .. },
            PrepareEventView::MetadataWritten(written),
        ) => match written {
            Ok(_) => PrepareStepView {
                phase: PreparePhaseView::Finished { outcome: Ok(archive) },
                reports: seq![
                    report(
                        100,
                        "存档压缩完成："@ + decimal(archive.bytes as nat) + " 字节"@,
                    ),
                ],
            },
            Err(e) => prepare_fails(e),
        },
        (phase, _) => prepares(phase),
    }
}

/// The preparation after an event.
pub open spec fn prepare_next(s: PreparationView, event: PrepareEventView) -> PreparationView {
    PreparationView { phase: prepare_step(s, event).phase, ..s }
}

/// A preparation at its start.
pub open spec fn prepare_start(
    save_mode: Seq<char>,
    save_name: Seq<char>,
    process_id: u32,
) -> PreparationView {
    PreparationView { save_mode, save_name, process_id, phase: PreparePhaseView::Locate }
}

/// What is to be done next.
pub open spec fn prepare_action(s: PreparationView) -> PrepareActionView {
    match s.phase {
        PreparePhaseView::Locate => PrepareActionView::LocateData,
        PreparePhaseView::CreateCache => PrepareActionView::CreateCache {
            directory: s.cache_dir(),
        },
        PreparePhaseView::ReadMetadata => PrepareActionView::ReadMetadata {
            file: metadata_file_of(s.cache_dir()),
        },
        PreparePhaseView::Walk { .. } => PrepareActionView::WalkSave,
        PreparePhaseView::Scan { scan, .. } => match scan_action(scan) {
            ScanAction::Hash { index } => PrepareActionView::HashFile { index },
            _ => PrepareActionView::KeepFile,
        },
        PreparePhaseView::Inspect { .. } => PrepareActionView::InspectArchive {
            archive: s.archive(),
        },
        PreparePhaseView::HashArchive { .. } => PrepareActionView::HashArchive {
            archive: s.archive(),
        },
        PreparePhaseView::Compress { .. } => PrepareActionView::Compress {
            temporary: s.temporary(),
        },
        PreparePhaseView::Measure { .. } => PrepareActionView::MeasureTemporary {
            temporary: s.temporary(),
        },
        PreparePhaseView::HashTemporary { .. } => PrepareActionView::HashTemporary {
            temporary: s.temporary(),
        },
        PreparePhaseView::Commit { .. } => PrepareActionView::CommitArchive {
            temporary: s.temporary(),
            archive: s.archive(),
            label: "提交压缩缓存"@,
        },
        PreparePhaseView::WriteMetadata { save, archive } => PrepareActionView::WriteMetadata {
            file: metadata_file_of(s.cache_dir()),
            metadata: metadata_of(s.save_mode, s.save_name, save, archive),
        },
        PreparePhaseView::Finished { .. } => PrepareActionView::Finish,
    }
}

/// Whether an archive is said to be `save.zip` in the directory of the cache of the save.
pub open spec fn is_in_its_place(s: PreparationView, archive: PreparedArchiveView) -> bool {
    archive.cache_dir == s.cache_dir() && archive.path == s.archive()
}

/// What holds of every preparation: an archive that is looked at is remembered for this very save
/// as it is now, what a scanned save is called by is the fingerprint of its files, and an archive
/// that is handed on is the one in the cache.
pub open spec fn prepare_well_formed(s: PreparationView) -> bool {
    match s.phase {
        PreparePhaseView::Inspect { save, known } => {
            &&& describes(known, s.save_mode, s.save_name, save.fingerprint)
            &&& save.fingerprint == fingerprint_of(save.files)
        },
        PreparePhaseView::HashArchive { save, known } => {
            &&& describes(known, s.save_mode, s.save_name, save.fingerprint)
            &&& save.fingerprint == fingerprint_of(save.files)
        },
        PreparePhaseView::Compress { save } => save.fingerprint == fingerprint_of(save.files),
        PreparePhaseView::Measure { save, .. } => save.fingerprint == fingerprint_of(save.files),
        PreparePhaseView::HashTemporary { save, .. } => save.fingerprint == fingerprint_of(
            save.files,
        ),
        PreparePhaseView::Commit { save, archive } => {
            &&& save.fingerprint == fingerprint_of(save.files)
            &&& archive.fingerprint == save.fingerprint
            &&& is_in_its_place(s, archive)
        },
        PreparePhaseView::WriteMetadata { save, archive } => {
            &&& save.fingerprint == fingerprint_of(save.files)
            &&& archive.fingerprint == save.fingerprint
            &&& is_in_its_place(s, archive)
        },
        PreparePhaseView::Finished { outcome } => outcome is Ok ==> is_in_its_place(
            s,
            outcome->Ok_0,
        ),
        _ => true,
    }
}

/// A preparation starts well-formed, and stays so whatever happens.
pub proof fn law_preparations_stay_well_formed(s: PreparationView, event: PrepareEventView)
    ensures
        prepare_well_formed(prepare_start(s.save_mode, s.save_name, s.process_id)),
        prepare_well_formed(s) ==> prepare_well_formed(prepare_next(s, event)),
{
}

/// An archive is used again only when it is remembered for the same mode, name and files, and its
/// digest is the one that was remembered.
pub proof fn law_only_an_intact_archive_of_the_same_files_is_reused(
    s: PreparationView,
    event: PrepareEventView,
)
    requires
        prepare_well_formed(s),
        !(s.phase is Finished),
        !(s.phase is WriteMetadata),
        prepare_next(s, event).phase is Finished,
        prepare_next(s, event).phase->outcome is Ok,
    ensures
        ({
            let archive = prepare_next(s, event).phase->outcome->Ok_0;
            &&& archive.reused
            &&& s.phase matches PreparePhaseView::HashArchive { save, known } && {
                &&& describes(known, s.save_mode, s.save_name, fingerprint_of(save.files))
                &&& event == PrepareEventView::Digest(Ok(known.zip_sha256))
                &&& archive.zip_sha256 == known.zip_sha256
                &&& archive.fingerprint == fingerprint_of(save.files)
            }
        }),
{
}

}
