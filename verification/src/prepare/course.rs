//! Whole preparations: what they come to in a world that answers truly, and that an unchanged save
//! is not packed twice.

use crate::fingerprint::fingerprint_of;
use crate::paths::{
    archive_file_of, cache_directory_of, law_files_of_a_cache_do_not_collide, law_place_of_a_cache,
    metadata_file_of, Anchor, LocalPathView,
};
use crate::prepare::model::{
    after_scan, describes, known_archive, metadata_of, new_archive, prepare_action, prepare_next,
    prepare_start, prepare_step, previous_files, remembered_archive, reused_archive, scans_on,
    PreparationView, PreparePhaseView, ScannedSaveView,
};
use crate::prepare::types::{CacheMetadataView, PrepareActionView, PrepareEventView};
use crate::resume::PreparedArchiveView;
use crate::scan::{
    files_in, is_unambiguous, law_unchanged_save_is_not_read_again, lemma_first_files_of_a_save,
    lemma_scanned_shape, scan_action, scan_next, scan_start, scanned, walk_scan_result,
    CachedFileEntryView, FoundFileView, ScanEventView,
};
use crate::walk::WalkStepView;
use crate::digest::text_digest;
use crate::progress::{percent_of, ProgressView};
use crate::text::decimal;
use vstd::prelude::*;

verus! {

/// An archive on disk.
pub struct ArchiveFileView {
    pub bytes: u64,
    pub sha256: Seq<char>,
}

/// What a preparation finds: the walk through the save and, for each step of it, what reading the
/// file there gives, and the archives and the records of archives among the program's data.
pub struct SaveWorld {
    pub walked: Seq<WalkStepView>,
    pub digests: Seq<Result<Seq<char>, Seq<char>>>,
    pub archives: Map<LocalPathView, ArchiveFileView>,
    pub records: Map<LocalPathView, CacheMetadataView>,
}

/// What packing the save gives: the number of files, and the archive.
pub struct PackedSaveView {
    pub file_count: u64,
    pub archive: ArchiveFileView,
}

/// What lies at `path`.
pub open spec fn lies_at<V>(files: Map<LocalPathView, V>, path: LocalPathView) -> Option<V> {
    if files.contains_key(path) {
        Some(files[path])
    } else {
        None
    }
}

/// The true answer to an action, where the disk does not fail.
pub open spec fn true_answer(
    world: SaveWorld,
    packed: PackedSaveView,
    action: PrepareActionView,
) -> PrepareEventView {
    match action {
        PrepareActionView::LocateData => PrepareEventView::Located(Ok(())),
        PrepareActionView::CreateCache { .. } => PrepareEventView::Created(Ok(())),
        PrepareActionView::ReadMetadata { file } => PrepareEventView::Metadata(
            lies_at(world.records, file),
        ),
        PrepareActionView::WalkSave => PrepareEventView::Walked(world.walked),
        PrepareActionView::KeepFile => PrepareEventView::Scanned(ScanEventView::Kept),
        PrepareActionView::HashFile { index } => PrepareEventView::Scanned(
            ScanEventView::Digest(world.digests[index as int]),
        ),
        PrepareActionView::InspectArchive { archive } => PrepareEventView::ArchiveSize(
            match lies_at(world.archives, archive) {
                Some(file) => Some(file.bytes),
                None => None,
            },
        ),
        PrepareActionView::HashArchive { archive } => PrepareEventView::Digest(
            Ok(world.archives[archive].sha256),
        ),
        PrepareActionView::Compress { .. } => PrepareEventView::Compressed(Ok(packed.file_count)),
        PrepareActionView::MeasureTemporary { temporary } => PrepareEventView::Measured(
            Ok(world.archives[temporary].bytes),
        ),
        PrepareActionView::HashTemporary { temporary } => PrepareEventView::Digest(
            Ok(world.archives[temporary].sha256),
        ),
        PrepareActionView::CommitArchive { .. } => PrepareEventView::Committed(Ok(())),
        PrepareActionView::WriteMetadata { .. } => PrepareEventView::MetadataWritten(Ok(())),
        PrepareActionView::Finish => PrepareEventView::Created(Ok(())),
    }
}

/// What an action makes of the world.
pub open spec fn world_after(
    world: SaveWorld,
    packed: PackedSaveView,
    action: PrepareActionView,
) -> SaveWorld {
    match action {
        PrepareActionView::Compress { temporary } => SaveWorld {
            archives: world.archives.insert(temporary, packed.archive),
            ..world
        },
        PrepareActionView::CommitArchive { temporary, archive, .. } => SaveWorld {
            archives: world.archives.remove(temporary).insert(archive, world.archives[temporary]),
            ..world
        },
        PrepareActionView::WriteMetadata { file, metadata } => SaveWorld {
            records: world.records.insert(file, metadata),
            ..world
        },
        _ => world,
    }
}

/// A preparation in its world.
pub struct PrepareRun {
    pub preparation: PreparationView,
    pub world: SaveWorld,
}

/// A preparation and its world after `n` actions.
pub open spec fn prepare_run(
    start: PreparationView,
    world: SaveWorld,
    packed: PackedSaveView,
    n: nat,
) -> PrepareRun
    decreases n,
{
    if n == 0 {
        PrepareRun { preparation: start, world }
    } else {
        let before = prepare_run(start, world, packed, (n - 1) as nat);
        let action = prepare_action(before.preparation);
        PrepareRun {
            preparation: prepare_next(
                before.preparation,
                true_answer(before.world, packed, action),
            ),
            world: world_after(before.world, packed, action),
        }
    }
}

proof fn lemma_finished_stays(
    start: PreparationView,
    world: SaveWorld,
    packed: PackedSaveView,
    m: nat,
    n: nat,
)
    requires
        m <= n,
        prepare_run(start, world, packed, m).preparation.phase is Finished,
    ensures
        prepare_run(start, world, packed, n) == prepare_run(start, world, packed, m),
    decreases n - m,
{
    if m < n {
        lemma_finished_stays(start, world, packed, m, (n - 1) as nat);
    }
}

/// What is remembered of the archive of a save.
pub open spec fn record_of(
    world: SaveWorld,
    save_mode: Seq<char>,
    save_name: Seq<char>,
) -> Option<CacheMetadataView> {
    lies_at(world.records, metadata_file_of(cache_directory_of(save_mode, save_name)))
}

/// What scanning the save comes to, given what is remembered.
pub open spec fn scan_in(
    world: SaveWorld,
    save_mode: Seq<char>,
    save_name: Seq<char>,
) -> Result<Seq<CachedFileEntryView>, Seq<char>> {
    walk_scan_result(
        world.walked,
        previous_files(record_of(world, save_mode, save_name)),
        world.digests,
    )
}

/// Whether the walk is one that a machine can hold, with one answer for each step.
pub open spec fn is_walk(world: SaveWorld) -> bool {
    world.walked.len() <= usize::MAX && world.digests.len() == world.walked.len()
}

/// The files of the save.
pub open spec fn files_found(world: SaveWorld) -> Seq<FoundFileView> {
    files_in(world.walked)->Ok_0
}

proof fn lemma_run_walks(
    save_mode: Seq<char>,
    save_name: Seq<char>,
    process_id: u32,
    world: SaveWorld,
    packed: PackedSaveView,
)
    ensures
        ({
            let start = prepare_start(save_mode, save_name, process_id);
            let run = prepare_run(start, world, packed, 3);
            let record = record_of(world, save_mode, save_name);
            &&& run.world == world
            &&& run.preparation == (PreparationView {
                phase: PreparePhaseView::Walk { metadata: record },
                ..start
            })
        }),
{
    reveal_with_fuel(prepare_run, 4);
}

proof fn lemma_run_scans(
    save_mode: Seq<char>,
    save_name: Seq<char>,
    process_id: u32,
    world: SaveWorld,
    packed: PackedSaveView,
    k: nat,
)
    requires
        is_walk(world),
        files_in(world.walked) is Ok,
        k <= files_found(world).len(),
    ensures
        ({
            let record = record_of(world, save_mode, save_name);
            let first = scan_start(files_found(world), previous_files(record));
            let scan = scanned(first, world.digests, k);
            let start = prepare_start(save_mode, save_name, process_id);
            let run = prepare_run(start, world, packed, 4 + k);
            &&& run.world == world
            &&& run.preparation == (PreparationView { phase: run.preparation.phase, ..start })
            &&& scan.failure is None ==> run.preparation.phase == scans_on(
                save_mode,
                save_name,
                remembered_archive(record),
                scan,
                Seq::empty(),
            ).phase
            &&& scan.failure is Some ==> run.preparation.phase is Finished
                && run.preparation.phase->outcome is Err
        }),
    decreases k,
{
    let record = record_of(world, save_mode, save_name);
    let first = scan_start(files_found(world), previous_files(record));
    let start = prepare_start(save_mode, save_name, process_id);
    if k == 0 {
        lemma_run_walks(save_mode, save_name, process_id, world, packed);
    } else {
        lemma_run_scans(save_mode, save_name, process_id, world, packed, (k - 1) as nat);
        lemma_scanned_shape(first, world.digests, (k - 1) as nat);
        lemma_first_files_of_a_save(world.walked, world.walked.len());
        assert(first.files[k - 1].position == files_found(world)[k - 1].position);
        let before = prepare_run(start, world, packed, (4 + k - 1) as nat);
        let scan = scanned(first, world.digests, (k - 1) as nat);
        assert(4 + (k - 1) as nat == (4 + k - 1) as nat);
        if scan.failure is None {
            assert(!(scan_action(scan) is Done));
            assert(before.preparation.phase == PreparePhaseView::Scan {
                remembered: remembered_archive(record),
                scan,
            });
        }
    }
}

/// Whether the archive in the cache is one of the files as they are, and intact.
pub open spec fn has_intact_archive(
    world: SaveWorld,
    save_mode: Seq<char>,
    save_name: Seq<char>,
    files: Seq<CachedFileEntryView>,
) -> bool {
    let record = record_of(world, save_mode, save_name);
    let archive = lies_at(
        world.archives,
        archive_file_of(cache_directory_of(save_mode, save_name)),
    );
    &&& record is Some
    &&& describes(known_archive(record->0), save_mode, save_name, fingerprint_of(files))
    &&& archive == Some(
        ArchiveFileView { bytes: record->0.zip_bytes, sha256: record->0.zip_sha256 },
    )
}

/// What a preparation comes to.
pub open spec fn prepared_in(
    world: SaveWorld,
    packed: PackedSaveView,
    save_mode: Seq<char>,
    save_name: Seq<char>,
    files: Seq<CachedFileEntryView>,
) -> PreparedArchiveView {
    let cache_dir = cache_directory_of(save_mode, save_name);
    let save = ScannedSaveView { files, fingerprint: fingerprint_of(files) };
    if has_intact_archive(world, save_mode, save_name, files) {
        reused_archive(
            cache_dir,
            save,
            known_archive(record_of(world, save_mode, save_name)->0),
        )
    } else {
        new_archive(
            cache_dir,
            save,
            packed.file_count,
            packed.archive.bytes,
            packed.archive.sha256,
        )
    }
}

proof fn lemma_run_packs(
    start: PreparationView,
    world: SaveWorld,
    packed: PackedSaveView,
    n: nat,
    save: ScannedSaveView,
)
    requires
        prepare_run(start, world, packed, n).preparation == (PreparationView {
            phase: PreparePhaseView::Compress { save },
            ..start
        }),
        prepare_run(start, world, packed, n).world == world,
    ensures
        ({
            let run = prepare_run(start, world, packed, n + 5);
            let archive = new_archive(
                start.cache_dir(),
                save,
                packed.file_count,
                packed.archive.bytes,
                packed.archive.sha256,
            );
            &&& run.preparation.phase == (PreparePhaseView::Finished { outcome: Ok(archive) })
            &&& run.world.walked == world.walked
            &&& run.world.digests == world.digests
            &&& lies_at(run.world.archives, start.archive()) == Some(packed.archive)
            &&& lies_at(run.world.records, metadata_file_of(start.cache_dir())) == Some(
                metadata_of(start.save_mode, start.save_name, save, archive),
            )
        }),
{
    law_files_of_a_cache_do_not_collide(start.cache_dir(), start.process_id);
    let file_count = packed.file_count;
    let bytes = packed.archive.bytes;
    let archive = new_archive(start.cache_dir(), save, file_count, bytes, packed.archive.sha256);
    let one = prepare_run(start, world, packed, n + 1);
    assert(one.preparation == PreparationView {
        phase: PreparePhaseView::Measure { save, file_count },
        ..start
    });
    let two = prepare_run(start, world, packed, n + 2);
    assert(two.preparation == PreparationView {
        phase: PreparePhaseView::HashTemporary { save, file_count, bytes },
        ..start
    });
    let three = prepare_run(start, world, packed, n + 3);
    assert(three.preparation == PreparationView {
        phase: PreparePhaseView::Commit { save, archive },
        ..start
    });
    let four = prepare_run(start, world, packed, n + 4);
    assert(four.preparation == PreparationView {
        phase: PreparePhaseView::WriteMetadata { save, archive },
        ..start
    });
}

proof fn lemma_run_ends(
    save_mode: Seq<char>,
    save_name: Seq<char>,
    process_id: u32,
    world: SaveWorld,
    packed: PackedSaveView,
) -> (n: nat)
    requires
        is_walk(world),
    ensures
        ({
            let start = prepare_start(save_mode, save_name, process_id);
            let run = prepare_run(start, world, packed, n);
            let scan = scan_in(world, save_mode, save_name);
            let intact = has_intact_archive(world, save_mode, save_name, scan->Ok_0);
            let archive = prepared_in(world, packed, save_mode, save_name, scan->Ok_0);
            let save = ScannedSaveView {
                files: scan->Ok_0,
                fingerprint: fingerprint_of(scan->Ok_0),
            };
            &&& run.preparation.phase is Finished
            &&& run.preparation.phase->outcome is Ok <==> scan is Ok
            &&& scan is Ok ==> {
                &&& run.preparation.phase->outcome->Ok_0 == archive
                &&& run.world.walked == world.walked && run.world.digests == world.digests
                &&& intact ==> run.world == world && n == files_found(world).len() + 6
                &&& !intact ==> {
                    &&& lies_at(run.world.archives, start.archive()) == Some(packed.archive)
                    &&& record_of(run.world, save_mode, save_name) == Some(
                        metadata_of(save_mode, save_name, save, archive),
                    )
                }
            }
        }),
{
    let start = prepare_start(save_mode, save_name, process_id);
    let count = files_found(world).len();
    let record = record_of(world, save_mode, save_name);
    let first = scan_start(files_found(world), previous_files(record));
    let scan = scanned(first, world.digests, count);
    let done = prepare_run(start, world, packed, 4 + count);
    if files_in(world.walked) is Ok {
        lemma_run_scans(save_mode, save_name, process_id, world, packed, count);
        lemma_scanned_shape(first, world.digests, count);
    }
    if files_in(world.walked) is Err {
        lemma_run_walks(save_mode, save_name, process_id, world, packed);
        4
    } else if scan.failure is Some {
        4 + count
    } else {
        let files = scan_in(world, save_mode, save_name)->Ok_0;
        let save = ScannedSaveView { files, fingerprint: fingerprint_of(files) };
        let remembered = remembered_archive(record);
        assert(scan_action(scan) is Done);
        assert(done.preparation.phase == after_scan(save_mode, save_name, remembered, scan).phase);
        if done.preparation.phase is Compress {
            lemma_run_packs(start, world, packed, 4 + count, save);
            4 + count + 5
        } else {
            let known = known_archive(record->0);
            assert(done.preparation.phase == PreparePhaseView::Inspect { save, known });
            let seen = prepare_run(start, world, packed, 4 + count + 1);
            if seen.preparation.phase is Compress {
                lemma_run_packs(start, world, packed, 4 + count + 1, save);
                4 + count + 1 + 5
            } else {
                assert(seen.preparation.phase == PreparePhaseView::HashArchive { save, known });
                let hashed = prepare_run(start, world, packed, 4 + count + 2);
                if hashed.preparation.phase is Compress {
                    lemma_run_packs(start, world, packed, 4 + count + 2, save);
                    4 + count + 2 + 5
                } else {
                    4 + count + 2
                }
            }
        }
    }
}

/// A preparation that succeeds hands on the archive that then lies in the cache, as `save.zip` in
/// the directory named by the digest of mode and name, with its size, its digest, and the
/// fingerprint of the files of the save.
pub proof fn law_prepared_archive_is_the_one_in_the_cache(
    save_mode: Seq<char>,
    save_name: Seq<char>,
    process_id: u32,
    world: SaveWorld,
    packed: PackedSaveView,
    n: nat,
    archive: PreparedArchiveView,
)
    requires
        is_walk(world),
        prepare_run(
            prepare_start(save_mode, save_name, process_id),
            world,
            packed,
            n,
        ).preparation.phase == (PreparePhaseView::Finished { outcome: Ok(archive) }),
    ensures
        archive.cache_dir == cache_directory_of(save_mode, save_name),
        archive.path == archive_file_of(archive.cache_dir),
        ({
            let after = prepare_run(
                prepare_start(save_mode, save_name, process_id),
                world,
                packed,
                n,
            ).world;
            lies_at(after.archives, archive.path) == Some(
                ArchiveFileView { bytes: archive.bytes, sha256: archive.zip_sha256 },
            )
        }),
        scan_in(world, save_mode, save_name) is Ok,
        archive.fingerprint == fingerprint_of(scan_in(world, save_mode, save_name)->Ok_0),
{
    let start = prepare_start(save_mode, save_name, process_id);
    let end = lemma_run_ends(save_mode, save_name, process_id, world, packed);
    if n <= end {
        lemma_finished_stays(start, world, packed, n, end);
    } else {
        lemma_finished_stays(start, world, packed, end, n);
    }
}

/// An unchanged save is not packed twice: when nothing changes after a preparation that succeeded,
/// whether it packed the save or used the archive again, the next one uses the archive again and
/// hands on the same. Where the first one packed the save, files that share a name must be
/// unambiguous.
pub proof fn law_unchanged_save_is_not_packed_twice(
    save_mode: Seq<char>,
    save_name: Seq<char>,
    process_id: u32,
    process_id_again: u32,
    world: SaveWorld,
    packed: PackedSaveView,
    packed_again: PackedSaveView,
    n: nat,
    archive: PreparedArchiveView,
)
    requires
        is_walk(world),
        prepare_run(
            prepare_start(save_mode, save_name, process_id),
            world,
            packed,
            n,
        ).preparation.phase == (PreparePhaseView::Finished { outcome: Ok(archive) }),
        !archive.reused ==> is_unambiguous(
            files_found(world),
            previous_files(record_of(world, save_mode, save_name)),
            world.digests,
            world.digests,
        ),
    ensures
        ({
            let after = prepare_run(
                prepare_start(save_mode, save_name, process_id),
                world,
                packed,
                n,
            ).world;
            let again = prepare_run(
                prepare_start(save_mode, save_name, process_id_again),
                after,
                packed_again,
                files_found(world).len() + 6,
            );
            &&& again.world == after
            &&& again.preparation.phase is Finished
            &&& again.preparation.phase->outcome matches Ok(archive_again) && {
                &&& archive_again.reused
                &&& archive_again.path == archive.path
                &&& archive_again.cache_dir == archive.cache_dir
                &&& archive_again.bytes == archive.bytes
                &&& archive_again.fingerprint == archive.fingerprint
                &&& archive_again.zip_sha256 == archive.zip_sha256
            }
        }),
{
    let start = prepare_start(save_mode, save_name, process_id);
    let end = lemma_run_ends(save_mode, save_name, process_id, world, packed);
    if n <= end {
        lemma_finished_stays(start, world, packed, n, end);
    } else {
        lemma_finished_stays(start, world, packed, end, n);
    }
    let after = prepare_run(start, world, packed, n).world;
    let files = scan_in(world, save_mode, save_name)->Ok_0;
    let previous = previous_files(record_of(world, save_mode, save_name));
    if !has_intact_archive(world, save_mode, save_name, files) {
        law_unchanged_save_is_not_read_again(files_found(world), previous, world.digests, world.digests);
        assert(previous_files(record_of(after, save_mode, save_name)) == files);
        assert(scan_in(after, save_mode, save_name) == scan_in(world, save_mode, save_name));
    }
    assert(has_intact_archive(after, save_mode, save_name, files));
    let end_again = lemma_run_ends(
        save_mode,
        save_name,
        process_id_again,
        after,
        packed_again,
    );
}

/// A preparation comes to its end, and succeeds exactly when the save can be scanned. The archive in
/// the cache is used again exactly when it fits: when it is remembered, in the known format, for
/// this mode, this name and the fingerprint of the files as they are, and lies in the cache with the
/// remembered size and digest. Otherwise the save is packed, and what packing gave is handed on and
/// remembered with the files.
pub proof fn law_archive_is_used_again_exactly_when_it_fits(
    save_mode: Seq<char>,
    save_name: Seq<char>,
    process_id: u32,
    world: SaveWorld,
    packed: PackedSaveView,
) -> (n: nat)
    requires
        is_walk(world),
    ensures
        ({
            let start = prepare_start(save_mode, save_name, process_id);
            let run = prepare_run(start, world, packed, n);
            let key = save_mode + seq!['\0'] + save_name;
            let cache = LocalPathView {
                anchor: Anchor::Data,
                components: seq!["save-archives"@, text_digest(key)],
            };
            let file = |name: Seq<char>|
                LocalPathView { anchor: Anchor::Data, components: cache.components.push(name) };
            let record = lies_at(world.records, file("cache.json"@));
            let archive = lies_at(world.archives, file("save.zip"@));
            let previous = if record is Some {
                record->0.files
            } else {
                Seq::empty()
            };
            let scan = walk_scan_result(world.walked, previous, world.digests);
            &&& run.preparation.phase matches PreparePhaseView::Finished { outcome }
            &&& outcome is Ok <==> scan is Ok
            &&& scan matches Ok(files) ==> {
                let prepared = outcome->Ok_0;
                let fits = record is Some && record->0.schema_version == 1 && record->0.save_mode
                    == save_mode && record->0.save_name == save_name && record->0.fingerprint
                    == fingerprint_of(files) && archive is Some && archive->0.bytes
                    == record->0.zip_bytes && archive->0.sha256 == record->0.zip_sha256;
                &&& prepared.path == file("save.zip"@)
                &&& prepared.cache_dir == cache
                &&& prepared.fingerprint == fingerprint_of(files)
                &&& prepared.reused == fits
                &&& fits ==> {
                    &&& prepared.bytes == archive->0.bytes
                    &&& prepared.zip_sha256 == archive->0.sha256
                    &&& files.len() <= u64::MAX ==> prepared.file_count == files.len()
                    &&& run.world == world
                }
                &&& !fits ==> {
                    &&& prepared.bytes == packed.archive.bytes
                    &&& prepared.zip_sha256 == packed.archive.sha256
                    &&& prepared.file_count == packed.file_count
                    &&& lies_at(run.world.archives, file("save.zip"@)) == Some(packed.archive)
                    &&& lies_at(run.world.records, file("cache.json"@)) == Some(
                        CacheMetadataView {
                            schema_version: 1,
                            save_mode,
                            save_name,
                            fingerprint: fingerprint_of(files),
                            zip_sha256: packed.archive.sha256,
                            zip_bytes: packed.archive.bytes,
                            files,
                        },
                    )
                }
            }
        }),
{
    let n = lemma_run_ends(save_mode, save_name, process_id, world, packed);
    let key = save_mode + seq!['\0'] + save_name;
    law_place_of_a_cache(save_mode, save_name, key, process_id);
    let cache = cache_directory_of(save_mode, save_name);
    assert(cache == LocalPathView {
        anchor: Anchor::Data,
        components: seq!["save-archives"@, text_digest(key)],
    });
    assert(archive_file_of(cache) == LocalPathView {
        anchor: Anchor::Data,
        components: cache.components.push("save.zip"@),
    });
    assert(metadata_file_of(cache) == LocalPathView {
        anchor: Anchor::Data,
        components: cache.components.push("cache.json"@),
    });
    n
}

/// A step of a preparation that fails ends it with its reason.
pub proof fn law_failed_step_ends_the_preparation(
    save_mode: Seq<char>,
    save_name: Seq<char>,
    process_id: u32,
    save: ScannedSaveView,
    known: crate::prepare::model::KnownArchiveView,
    archive: PreparedArchiveView,
    file_count: u64,
    bytes: u64,
    e: Seq<char>,
)
    ensures
        ({
            let ends = |phase: PreparePhaseView, event: PrepareEventView, message: Seq<char>|
                prepare_next(
                    PreparationView { save_mode, save_name, process_id, phase },
                    event,
                ).phase == (PreparePhaseView::Finished { outcome: Err(message) });
            &&& ends(
                PreparePhaseView::Locate,
                PrepareEventView::Located(Err(e)),
                "获取应用数据目录失败"@ + ": "@ + e,
            )
            &&& ends(
                PreparePhaseView::CreateCache,
                PrepareEventView::Created(Err(e)),
                "创建存档缓存目录失败"@ + ": "@ + e,
            )
            &&& ends(
                PreparePhaseView::HashArchive { save, known },
                PrepareEventView::Digest(Err(e)),
                e,
            )
            &&& ends(PreparePhaseView::Compress { save }, PrepareEventView::Compressed(Err(e)), e)
            &&& ends(
                PreparePhaseView::Measure { save, file_count },
                PrepareEventView::Measured(Err(e)),
                "读取压缩包大小失败"@ + ": "@ + e,
            )
            &&& ends(
                PreparePhaseView::HashTemporary { save, file_count, bytes },
                PrepareEventView::Digest(Err(e)),
                e,
            )
            &&& ends(
                PreparePhaseView::Commit { save, archive },
                PrepareEventView::Committed(Err(e)),
                e,
            )
            &&& ends(
                PreparePhaseView::WriteMetadata { save, archive },
                PrepareEventView::MetadataWritten(Err(e)),
                e,
            )
        }),
{
}

/// While a save is scanned, the part of its files that is dealt with is reported: at the start, and
/// whenever the percentage has changed.
pub proof fn law_scan_is_reported(
    s: PreparationView,
    walked: Seq<WalkStepView>,
    metadata: Option<CacheMetadataView>,
    remembered: Option<crate::prepare::model::KnownArchiveView>,
    scan: crate::scan::ScanView,
    event: ScanEventView,
)
    ensures
        ({
            let begun = PreparationView { phase: PreparePhaseView::Walk { metadata }, ..s };
            let total = files_in(walked)->Ok_0.len();
            let first = prepare_step(begun, PrepareEventView::Walked(walked)).reports;
            &&& files_in(walked) is Ok ==> {
                &&& first.len() >= 1
                &&& first[0].percent == percent_of(0, total)
                &&& first[0].message == "正在扫描存档："@ + decimal(0) + "/"@ + decimal(total)
                    + " 个文件"@
            }
            &&& ({
                let on = PreparationView {
                    phase: PreparePhaseView::Scan { remembered, scan },
                    ..s
                };
                let next = scan_next(scan, event);
                let reports = prepare_step(on, PrepareEventView::Scanned(event)).reports;
                let before = percent_of(scan.entries.len(), scan.files.len());
                let after = percent_of(next.entries.len(), next.files.len());
                after != before ==> {
                    &&& reports.len() >= 1
                    &&& reports[0].percent == after
                    &&& reports[0].message == "正在扫描存档："@ + decimal(next.entries.len()) + "/"@
                        + decimal(next.files.len()) + " 个文件"@
                }
            })
        }),
{
}

/// A preparation moves on only by an answer to what it asked for; anything else leaves it as it is,
/// and a preparation that is over stays so.
pub proof fn law_only_an_answer_moves_a_preparation(s: PreparationView, event: PrepareEventView)
    requires
        prepare_next(s, event) != s,
        s.phase matches PreparePhaseView::Scan { scan, .. } ==> !(scan_action(scan) is Done),
    ensures
        match prepare_action(s) {
            PrepareActionView::LocateData => event is Located,
            PrepareActionView::CreateCache { .. } => event is Created,
            PrepareActionView::ReadMetadata { .. } => event is Metadata,
            PrepareActionView::WalkSave => event is Walked,
            PrepareActionView::KeepFile => event == PrepareEventView::Scanned(ScanEventView::Kept),
            PrepareActionView::HashFile { .. } => event matches PrepareEventView::Scanned(scanned)
                && scanned is Digest,
            PrepareActionView::InspectArchive { .. } => event is ArchiveSize,
            PrepareActionView::HashArchive { .. } => event is Digest,
            PrepareActionView::Compress { .. } => event is Compressed,
            PrepareActionView::MeasureTemporary { .. } => event is Measured,
            PrepareActionView::HashTemporary { .. } => event is Digest,
            PrepareActionView::CommitArchive { .. } => event is Committed,
            PrepareActionView::WriteMetadata { .. } => event is MetadataWritten,
            PrepareActionView::Finish => false,
        },
        prepare_next(s, event) == (PreparationView { phase: prepare_next(s, event).phase, ..s }),
{
}

/// Each stage of a preparation is reported: that the cache is looked at, that the archive in it is
/// used again, and that a new one has been made.
pub proof fn law_stages_of_a_preparation_are_reported(
    s: PreparationView,
    metadata: Option<CacheMetadataView>,
    save: ScannedSaveView,
    known: crate::prepare::model::KnownArchiveView,
    archive: PreparedArchiveView,
    size: Option<u64>,
)
    requires
        size != Some(known.zip_bytes),
    ensures
        ({
            let reports = |phase: PreparePhaseView, event: PrepareEventView|
                prepare_step(PreparationView { phase, ..s }, event).reports;
            let told = |percent: nat, message: Seq<char>| seq![ProgressView { percent, message }];
            &&& reports(PreparePhaseView::ReadMetadata, PrepareEventView::Metadata(metadata))
                == told(0, "正在检查本地压缩缓存..."@)
            &&& reports(
                PreparePhaseView::Inspect { save, known },
                PrepareEventView::ArchiveSize(size),
            ) == told(0, "缓存不可用，正在压缩存档..."@)
            &&& reports(
                PreparePhaseView::HashArchive { save, known },
                PrepareEventView::Digest(Ok(known.zip_sha256)),
            ) == told(100, "存档未变化，跳过压缩"@)
            &&& reports(
                PreparePhaseView::WriteMetadata { save, archive },
                PrepareEventView::MetadataWritten(Ok(())),
            ) == told(100, "存档压缩完成："@ + decimal(archive.bytes as nat) + " 字节"@)
        }),
{
}

}
