//! The executable course of a preparation.

use crate::fingerprint::save_fingerprint;
use crate::messages::failed;
use crate::paths::{
    archive_file, cache_directory, cache_directory_of, metadata_file, temporary_archive, LocalPath,
};
use crate::prepare::model::{
    after_scan, compresses, describes, new_archive, prepare_action, prepare_fails, prepare_next,
    prepare_start, prepare_step, prepares, remembered_archive, reused_archive, scan_percent,
    scan_report, scans_on, KnownArchiveView, PreparationView, PreparePhaseView, PrepareStepView,
    ScannedSaveView,
};
use crate::prepare::types::{CacheMetadata, PrepareAction, PrepareEvent};
use crate::progress::{no_reports, one_report, report_views, stage_percent, UploadProgress};
use crate::resume::{PreparedArchive, PreparedArchiveView, SCHEMA_VERSION};
use crate::scan::{
    copy_entries, entry_views, files_of_a_save, CachedFileEntry, CachedFileEntryView, SaveScan,
    ScanAction,
};
use crate::text::{joined, number, same_text};
use vstd::prelude::*;

verus! {

/// What is remembered of an archive, without its files.
struct KnownArchive {
    schema_version: u8,
    save_mode: String,
    save_name: String,
    fingerprint: String,
    zip_sha256: String,
    zip_bytes: u64,
}

impl View for KnownArchive {
    type V = KnownArchiveView;

    closed spec fn view(&self) -> KnownArchiveView {
        KnownArchiveView {
            schema_version: self.schema_version,
            save_mode: self.save_mode@,
            save_name: self.save_name@,
            fingerprint: self.fingerprint@,
            zip_sha256: self.zip_sha256@,
            zip_bytes: self.zip_bytes,
        }
    }
}

spec fn known_option(known: Option<KnownArchive>) -> Option<KnownArchiveView> {
    match known {
        Some(k) => Some(k@),
        None => None,
    }
}

spec fn metadata_option(metadata: Option<CacheMetadata>) -> Option<
    crate::prepare::types::CacheMetadataView,
> {
    match metadata {
        Some(m) => Some(m@),
        None => None,
    }
}

/// A save that has been scanned.
struct ScannedSave {
    files: Vec<CachedFileEntry>,
    fingerprint: String,
}

impl View for ScannedSave {
    type V = ScannedSaveView;

    closed spec fn view(&self) -> ScannedSaveView {
        ScannedSaveView {
            files: entry_views(self.files@),
            fingerprint: self.fingerprint@,
        }
    }
}

/// What a preparation is waiting for.
enum Phase {
    Locate,
    CreateCache,
    ReadMetadata,
    Walk { metadata: Option<CacheMetadata> },
    Scan { remembered: Option<KnownArchive>, scan: SaveScan },
    Inspect { save: ScannedSave, known: KnownArchive },
    HashArchive { save: ScannedSave, known: KnownArchive },
    Compress { save: ScannedSave },
    Measure { save: ScannedSave, file_count: u64 },
    HashTemporary { save: ScannedSave, file_count: u64, bytes: u64 },
    Commit { save: ScannedSave, archive: PreparedArchive },
    WriteMetadata { save: ScannedSave, archive: PreparedArchive },
    Finished { outcome: Result<PreparedArchive, String> },
}

/// An archive or an error, as values of the model.
pub open spec fn archive_result(r: Result<PreparedArchive, String>) -> Result<
    PreparedArchiveView,
    Seq<char>,
> {
    match r {
        Ok(archive) => Ok(archive@),
        Err(e) => Err(e@),
    }
}

impl View for Phase {
    type V = PreparePhaseView;

    closed spec fn view(&self) -> PreparePhaseView {
        match *self {
            Phase::Locate => PreparePhaseView::Locate,
            Phase::CreateCache => PreparePhaseView::CreateCache,
            Phase::ReadMetadata => PreparePhaseView::ReadMetadata,
            Phase::Walk { metadata } => PreparePhaseView::Walk {
                metadata: metadata_option(metadata),
            },
            Phase::Scan { remembered, scan } => PreparePhaseView::Scan {
                remembered: known_option(remembered),
                scan: scan@,
            },
            Phase::Inspect { save, known } => PreparePhaseView::Inspect {
                save: save@,
                known: known@,
            },
            Phase::HashArchive { save, known } => PreparePhaseView::HashArchive {
                save: save@,
                known: known@,
            },
            Phase::Compress { save } => PreparePhaseView::Compress { save: save@ },
            Phase::Measure { save, file_count } => PreparePhaseView::Measure {
                save: save@,
                file_count,
            },
            Phase::HashTemporary { save, file_count, bytes } => PreparePhaseView::HashTemporary {
                save: save@,
                file_count,
                bytes,
            },
            Phase::Commit { save, archive } => PreparePhaseView::Commit {
                save: save@,
                archive: archive@,
            },
            Phase::WriteMetadata { save, archive } => PreparePhaseView::WriteMetadata {
                save: save@,
                archive: archive@,
            },
            Phase::Finished { outcome } => PreparePhaseView::Finished {
                outcome: archive_result(outcome),
            },
        }
    }
}

/// A phase together with the reports made on the way to it.
struct Step {
    phase: Phase,
    reports: Vec<UploadProgress>,
}

impl View for Step {
    type V = PrepareStepView;

    closed spec fn view(&self) -> PrepareStepView {
        PrepareStepView { phase: self.phase@, reports: report_views(self.reports@) }
    }
}

fn go_to(phase: Phase) -> (step: Step)
    ensures
        step@ == prepares(phase@),
{
    Step { phase, reports: no_reports() }
}

fn fail(message: String) -> (step: Step)
    ensures
        step@ == prepare_fails(message@),
{
    go_to(Phase::Finished { outcome: Err(message) })
}

fn compress(save: ScannedSave) -> (step: Step)
    ensures
        step@ == compresses(save@),
{
    Step {
        phase: Phase::Compress { save },
        reports: one_report(0, "缓存不可用，正在压缩存档...".to_owned()),
    }
}

fn percent_scanned(scan: &SaveScan) -> (percent: u8)
    ensures
        percent == scan_percent(scan@),
{
    stage_percent(scan.completed() as u64, scan.total() as u64)
}

fn report_scan(scan: &SaveScan) -> (reports: Vec<UploadProgress>)
    ensures
        report_views(reports@) == seq![scan_report(scan@)],
{
    let mut message = joined("正在扫描存档：", number(scan.completed() as u128).as_str());
    message.append("/");
    message.append(number(scan.total() as u128).as_str());
    message.append(" 个文件");
    one_report(percent_scanned(scan), message)
}

fn is_described(
    known: &KnownArchive,
    save_mode: &String,
    save_name: &String,
    fingerprint: &String,
) -> (r: bool)
    ensures
        r == describes(known@, save_mode@, save_name@, fingerprint@),
{
    known.schema_version == SCHEMA_VERSION && same_text(
        known.save_mode.as_str(),
        save_mode.as_str(),
    ) && same_text(known.save_name.as_str(), save_name.as_str()) && same_text(
        known.fingerprint.as_str(),
        fingerprint.as_str(),
    )
}

fn evaluate(
    save_mode: &String,
    save_name: &String,
    remembered: Option<KnownArchive>,
    scan: SaveScan,
) -> (step: Step)
    ensures
        step@ == after_scan(save_mode@, save_name@, known_option(remembered), scan@),
{
    match scan.outcome() {
        Err(e) => fail(e),
        Ok(files) => match save_fingerprint(&files) {
            Err(e) => fail(e),
            Ok(fingerprint) => {
                let save = ScannedSave { files, fingerprint };
                match remembered {
                    Some(known) => {
                        if is_described(&known, save_mode, save_name, &save.fingerprint) {
                            go_to(Phase::Inspect { save, known })
                        } else {
                            compress(save)
                        }
                    },
                    None => compress(save),
                }
            },
        },
    }
}

fn scan_on(
    save_mode: &String,
    save_name: &String,
    remembered: Option<KnownArchive>,
    scan: SaveScan,
    reports: Vec<UploadProgress>,
) -> (step: Step)
    ensures
        step@ == scans_on(
            save_mode@,
            save_name@,
            known_option(remembered),
            scan@,
            report_views(reports@),
        ),
{
    match scan.action() {
        ScanAction::Done => {
            let step = evaluate(save_mode, save_name, remembered, scan);
            let mut all = reports;
            let mut more = step.reports;
            let ghost first = all@;
            let ghost second = more@;
            all.append(&mut more);
            assert(report_views(all@) == report_views(first) + report_views(second));
            Step { phase: step.phase, reports: all }
        },
        _ => Step { phase: Phase::Scan { remembered, scan }, reports },
    }
}

fn start_scan(
    save_mode: &String,
    save_name: &String,
    metadata: Option<CacheMetadata>,
    found: Vec<crate::scan::FoundFile>,
) -> (step: Step)
    ensures
        step@ == scans_on(
            save_mode@,
            save_name@,
            remembered_archive(metadata_option(metadata)),
            crate::scan::scan_start(
                crate::scan::found_views(found@),
                crate::prepare::model::previous_files(metadata_option(metadata)),
            ),
            seq![
                scan_report(
                    crate::scan::scan_start(
                        crate::scan::found_views(found@),
                        crate::prepare::model::previous_files(metadata_option(metadata)),
                    ),
                ),
            ],
        ),
{
    let (remembered, previous) = match metadata {
        Some(m) => (
            Some(
                KnownArchive {
                    schema_version: m.schema_version,
                    save_mode: m.save_mode,
                    save_name: m.save_name,
                    fingerprint: m.fingerprint,
                    zip_sha256: m.zip_sha256,
                    zip_bytes: m.zip_bytes,
                },
            ),
            m.files,
        ),
        None => {
            let none: Vec<CachedFileEntry> = Vec::new();
            assert(entry_views(none@) == Seq::<CachedFileEntryView>::empty());
            (None, none)
        },
    };
    let scan = SaveScan::begin(found, previous);
    let reports = report_scan(&scan);
    scan_on(save_mode, save_name, remembered, scan, reports)
}

fn reuse(
    save_mode: &String,
    save_name: &String,
    save: ScannedSave,
    known: KnownArchive,
) -> (step: Step)
    ensures
        step@ == (PrepareStepView {
            phase: PreparePhaseView::Finished {
                outcome: Ok(
                    reused_archive(cache_directory_of(save_mode@, save_name@), save@, known@),
                ),
            },
            reports: seq![crate::progress::report(100, "存档未变化，跳过压缩"@)],
        }),
{
    let cache_dir = cache_directory(save_mode.as_str(), save_name.as_str());
    let archive = PreparedArchive {
        path: archive_file(cache_dir.copy()),
        file_count: save.files.len() as u64,
        bytes: known.zip_bytes,
        fingerprint: save.fingerprint,
        zip_sha256: known.zip_sha256,
        cache_dir,
        reused: true,
    };
    Step {
        phase: Phase::Finished { outcome: Ok(archive) },
        reports: one_report(100, "存档未变化，跳过压缩".to_owned()),
    }
}

fn describe_new(
    save_mode: &String,
    save_name: &String,
    save: &ScannedSave,
    file_count: u64,
    bytes: u64,
    zip_sha256: String,
) -> (archive: PreparedArchive)
    ensures
        archive@ == new_archive(
            cache_directory_of(save_mode@, save_name@),
            save@,
            file_count,
            bytes,
            zip_sha256@,
        ),
{
    let cache_dir = cache_directory(save_mode.as_str(), save_name.as_str());
    PreparedArchive {
        path: archive_file(cache_dir.copy()),
        file_count,
        bytes,
        fingerprint: save.fingerprint.clone(),
        zip_sha256,
        cache_dir,
        reused: false,
    }
}

fn hand_on(archive: PreparedArchive) -> (step: Step)
    ensures
        step@ == (PrepareStepView {
            phase: PreparePhaseView::Finished { outcome: Ok(archive@) },
            reports: seq![
                crate::progress::report(
                    100,
                    "存档压缩完成："@ + crate::text::decimal(archive.bytes as nat) + " 字节"@,
                ),
            ],
        }),
{
    let mut message = joined("存档压缩完成：", number(archive.bytes as u128).as_str());
    message.append(" 字节");
    Step { phase: Phase::Finished { outcome: Ok(archive) }, reports: one_report(100, message) }
}

/// A preparation under way.
pub struct Preparation {
    save_mode: String,
    save_name: String,
    process_id: u32,
    phase: Phase,
}

impl View for Preparation {
    type V = PreparationView;

    closed spec fn view(&self) -> PreparationView {
        PreparationView {
            save_mode: self.save_mode@,
            save_name: self.save_name@,
            process_id: self.process_id,
            phase: self.phase@,
        }
    }
}

impl Preparation {
    /// Starts to prepare the archive of a save, in the process `process_id`.
    pub fn begin(save_mode: &str, save_name: &str, process_id: u32) -> (preparation: Preparation)
        ensures
            preparation@ == prepare_start(save_mode@, save_name@, process_id),
    {
        Preparation {
            save_mode: save_mode.to_owned(),
            save_name: save_name.to_owned(),
            process_id,
            phase: Phase::Locate,
        }
    }

    fn cache_dir(&self) -> (directory: LocalPath)
        ensures
            directory@ == self@.cache_dir(),
    {
        cache_directory(self.save_mode.as_str(), self.save_name.as_str())
    }

    fn archive(&self) -> (file: LocalPath)
        ensures
            file@ == self@.archive(),
    {
        archive_file(self.cache_dir())
    }

    fn temporary(&self) -> (file: LocalPath)
        ensures
            file@ == self@.temporary(),
    {
        temporary_archive(self.cache_dir(), self.process_id)
    }

    /// What is to be done next.
    pub fn action(&self) -> (action: PrepareAction)
        ensures
            action@ == prepare_action(self@),
    {
        match &self.phase {
            Phase::Locate => PrepareAction::LocateData,
            Phase::CreateCache => PrepareAction::CreateCache { directory: self.cache_dir() },
            Phase::ReadMetadata => PrepareAction::ReadMetadata {
                file: metadata_file(self.cache_dir()),
            },
            Phase::Walk { .. } => PrepareAction::WalkSave,
            Phase::Scan { scan, .. } => match scan.action() {
                ScanAction::Hash { index } => PrepareAction::HashFile { index },
                _ => PrepareAction::KeepFile,
            },
            Phase::Inspect { .. } => PrepareAction::InspectArchive { archive: self.archive() },
            Phase::HashArchive { .. } => PrepareAction::HashArchive { archive: self.archive() },
            Phase::Compress { .. } => PrepareAction::Compress { temporary: self.temporary() },
            Phase::Measure { .. } => PrepareAction::MeasureTemporary {
                temporary: self.temporary(),
            },
            Phase::HashTemporary { .. } => PrepareAction::HashTemporary {
                temporary: self.temporary(),
            },
            Phase::Commit { .. } => PrepareAction::CommitArchive {
                temporary: self.temporary(),
                archive: self.archive(),
                label: "提交压缩缓存".to_owned(),
            },
            Phase::WriteMetadata { save, archive } => PrepareAction::WriteMetadata {
                file: metadata_file(self.cache_dir()),
                metadata: CacheMetadata {
                    schema_version: SCHEMA_VERSION,
                    save_mode: self.save_mode.clone(),
                    save_name: self.save_name.clone(),
                    fingerprint: archive.fingerprint.clone(),
                    zip_sha256: archive.zip_sha256.clone(),
                    zip_bytes: archive.bytes,
                    files: copy_entries(&save.files),
                },
            },
            Phase::Finished { .. } => PrepareAction::Finish,
        }
    }

    /// Takes what the pending action came to, and gives what is to be reported.
    pub fn handle(self, event: PrepareEvent) -> (res: (Preparation, Vec<UploadProgress>))
        ensures
            res.0@ == prepare_next(self@, event@),
            report_views(res.1@) == prepare_step(self@, event@).reports,
    {
        let Preparation { save_mode, save_name, process_id, phase } = self;
        let step = match (phase, event) {
            (Phase::Locate, PrepareEvent::Located(located)) => match located {
                Ok(_) => go_to(Phase::CreateCache),
                Err(e) => fail(failed("获取应用数据目录失败", e.as_str())),
            },
            (Phase::CreateCache, PrepareEvent::Created(created)) => match created {
                Ok(_) => go_to(Phase::ReadMetadata),
                Err(e) => fail(failed("创建存档缓存目录失败", e.as_str())),
            },
            (Phase::ReadMetadata, PrepareEvent::Metadata(metadata)) => Step {
                phase: Phase::Walk { metadata },
                reports: one_report(0, "正在检查本地压缩缓存...".to_owned()),
            },
            (Phase::Walk { metadata }, PrepareEvent::Walked(walked)) => match files_of_a_save(
                &walked,
            ) {
                Ok(found) => start_scan(&save_mode, &save_name, metadata, found),
                Err(e) => fail(e),
            },
            (Phase::Scan { remembered, scan }, PrepareEvent::Scanned(scanned)) => {
                let before = percent_scanned(&scan);
                let next = scan.handle(scanned);
                let reports = if percent_scanned(&next) != before {
                    report_scan(&next)
                } else {
                    no_reports()
                };
                scan_on(&save_mode, &save_name, remembered, next, reports)
            },
            (Phase::Inspect { save, known }, PrepareEvent::ArchiveSize(size)) => match size {
                Some(bytes) => {
                    if bytes == known.zip_bytes {
                        go_to(Phase::HashArchive { save, known })
                    } else {
                        compress(save)
                    }
                },
                None => compress(save),
            },
            (Phase::HashArchive { save, known }, PrepareEvent::Digest(digest)) => match digest {
                Ok(sha256) => {
                    if same_text(sha256.as_str(), known.zip_sha256.as_str()) {
                        reuse(&save_mode, &save_name, save, known)
                    } else {
                        compress(save)
                    }
                },
                Err(e) => fail(e),
            },
            (Phase::Compress { save }, PrepareEvent::Compressed(packed)) => match packed {
                Ok(file_count) => go_to(Phase::Measure { save, file_count }),
                Err(e) => fail(e),
            },
            (Phase::Measure { save, file_count }, PrepareEvent::Measured(measured)) =>
                match measured {
                Ok(bytes) => go_to(Phase::HashTemporary { save, file_count, bytes }),
                Err(e) => fail(failed("读取压缩包大小失败", e.as_str())),
            },
            (Phase::HashTemporary { save, file_count, bytes }, PrepareEvent::Digest(digest)) =>
                match digest {
                Ok(zip_sha256) => {
                    let archive = describe_new(
                        &save_mode,
                        &save_name,
                        &save,
                        file_count,
                        bytes,
                        zip_sha256,
                    );
                    go_to(Phase::Commit { save, archive })
                },
                Err(e) => fail(e),
            },
            (Phase::Commit { save, archive }, PrepareEvent::Committed(committed)) =>
                match committed {
                Ok(_) => go_to(Phase::WriteMetadata { save, archive }),
                Err(e) => fail(e),
            },
            (Phase::WriteMetadata { archive, .. }, PrepareEvent::MetadataWritten(written)) =>
                match written {
                Ok(_) => hand_on(archive),
                Err(e) => fail(e),
            },
            (phase, _) => go_to(phase),
        };
        (Preparation { save_mode, save_name, process_id, phase: step.phase }, step.reports)
    }

    /// What the preparation has come to, once it is over.
    pub fn outcome(self) -> (outcome: Option<Result<PreparedArchive, String>>)
        ensures
            match outcome {
                Some(r) => self@.phase == (PreparePhaseView::Finished {
                    outcome: archive_result(r),
                }),
                None => !(self@.phase is Finished),
            },
    {
        match self.phase {
            Phase::Finished { outcome } => Some(outcome),
            _ => None,
        }
    }
}

}
