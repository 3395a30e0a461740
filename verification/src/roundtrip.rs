//! What is packed comes out again: a packing and an unpacking, with an archive between them that
//! gives back the entries that were put into it.

use crate::compress::{
    adds, law_every_file_is_a_source, law_sources_are_the_files_of_the_save, lead_to_the_files,
    lemma_first_sources_of_a_save, pack_action, pack_start, pack_step, sources_in, PackActionView,
    PackEventView, PackPhaseView, PackView,
};
use crate::extract::{
    entry_in_hand, extract_action, extract_start, extract_step, reads_entry, EntryKind,
    ExtractActionView, ExtractEventView, ExtractPhaseView, ExtractTick, ExtractView,
};
use crate::text::{law_replacing_changes_one_character_only, with_char_replaced};
use crate::walk::{
    finds_file, law_files_are_told_by_kind_and_names, lie_outside_metadata, WalkStepView,
};
use crate::scan::is_slashed;
use vstd::prelude::*;

verus! {

/// An entry of an archive.
pub struct ArchiveEntryView<C> {
    pub name: Seq<char>,
    pub contents: C,
}

/// The packing of a save in which nothing fails, given the walk through it, after the archive was
/// created and `n` files were packed.
pub open spec fn packing_after(walked: Seq<WalkStepView>, n: nat) -> PackView
    decreases n,
{
    if n == 0 {
        pack_step(
            pack_step(pack_start(), PackEventView::Walked(walked)).next,
            PackEventView::Created(Ok(())),
        ).next
    } else {
        pack_step(packing_after(walked, (n - 1) as nat), PackEventView::Added(None)).next
    }
}

/// The entries that a packing has put into the archive then; `contents` holds what the file at each
/// step of the walk contains.
pub open spec fn archive_after<C>(
    walked: Seq<WalkStepView>,
    contents: Seq<C>,
    n: nat,
) -> Seq<ArchiveEntryView<C>>
    decreases n,
{
    if n == 0 {
        Seq::empty()
    } else {
        let before = archive_after(walked, contents, (n - 1) as nat);
        match pack_action(packing_after(walked, (n - 1) as nat)) {
            PackActionView::AddFile { index, name } => before.push(
                ArchiveEntryView { name, contents: contents[index] },
            ),
            _ => before,
        }
    }
}

/// An unpacking under way: what it has told, and the files that it has written, by their paths.
pub struct UnpackRun<C> {
    pub extraction: ExtractView,
    pub ticks: Seq<ExtractTick>,
    pub files: Map<Seq<char>, C>,
}

/// The true answer to an action of an unpacking, where the disk does not fail; all entries are
/// files, and `stays_inside` says whose path does.
pub open spec fn true_entry<C>(
    archive: Seq<ArchiveEntryView<C>>,
    stays_inside: spec_fn(Seq<char>) -> bool,
    action: ExtractActionView,
) -> ExtractEventView {
    match action {
        ExtractActionView::OpenArchive => ExtractEventView::Archive(Ok(archive.len() as usize)),
        ExtractActionView::ReadEntry { index } => ExtractEventView::Entry(
            Ok(EntryKind { enclosed: stays_inside(archive[index as int].name), directory: false }),
        ),
        _ => ExtractEventView::Done(Ok(())),
    }
}

/// An unpacking after `n` actions.
pub open spec fn unpack_run<C>(
    archive: Seq<ArchiveEntryView<C>>,
    stays_inside: spec_fn(Seq<char>) -> bool,
    n: nat,
) -> UnpackRun<C>
    decreases n,
{
    if n == 0 {
        UnpackRun { extraction: extract_start(), ticks: Seq::empty(), files: Map::empty() }
    } else {
        let before = unpack_run(archive, stays_inside, (n - 1) as nat);
        let action = extract_action(before.extraction);
        let step = extract_step(before.extraction, true_entry(archive, stays_inside, action));
        UnpackRun {
            extraction: step.next,
            ticks: match step.tick {
                Some(tick) => before.ticks.push(tick),
                None => before.ticks,
            },
            files: if action is CopyContents {
                let entry = archive[entry_in_hand(before.extraction.phase)->0 as int];
                before.files.insert(entry.name, entry.contents)
            } else {
                before.files
            },
        }
    }
}

/// The name in the archive of the file that the step at `i` of a walk came across.
pub open spec fn name_in_archive(walked: Seq<WalkStepView>, i: int) -> Seq<char> {
    with_char_replaced(walked[i]->Ok_0.relative->Ok_0, '\\', '/')
}

/// Whether a walk tells all that packing needs: it came to its end, and of each file of the save
/// it knows the size and the path.
pub open spec fn is_complete_walk(walked: Seq<WalkStepView>) -> bool {
    &&& sources_in(walked) is Ok
    &&& forall|i: int| #[trigger]
        finds_file(walked, i) ==> walked[i]->Ok_0.relative is Ok
}

proof fn lemma_packing<C>(walked: Seq<WalkStepView>, contents: Seq<C>, n: nat)
    requires
        is_complete_walk(walked),
        n <= sources_in(walked)->Ok_0.len(),
    ensures
        ({
            let sources = sources_in(walked)->Ok_0;
            let archive = archive_after(walked, contents, n);
            &&& packing_after(walked, n) == (PackView { sources, phase: adds(sources, n as int) })
            &&& archive.len() == n
            &&& forall|k: int|
                0 <= k < n ==> #[trigger] archive[k] == (ArchiveEntryView {
                    name: name_in_archive(walked, sources[k].position),
                    contents: contents[sources[k].position],
                })
        }),
    decreases n,
{
    let sources = sources_in(walked)->Ok_0;
    law_sources_are_the_files_of_the_save(walked);
    if sources.len() > 0 {
        assert(finds_file(walked, sources[0].position));
    }
    if n < sources.len() {
        assert(finds_file(walked, sources[n as int].position));
    }
    if n > 0 {
        lemma_packing(walked, contents, (n - 1) as nat);
        assert(finds_file(walked, sources[n - 1].position));
        assert(sources[n - 1].relative is Ok);
    }
}

/// The archive holds exactly the files of the save: it has one entry for each file that the walk
/// came across outside the directories of archive metadata, in the order of the walk, named by its
/// path with slashes, with its contents, and no other entry.
pub proof fn law_archive_holds_the_files_of_the_save<C>(
    walked: Seq<WalkStepView>,
    contents: Seq<C>,
)
    requires
        is_complete_walk(walked),
        walked.len() <= u64::MAX,
    ensures
        ({
            let sources = sources_in(walked)->Ok_0;
            let n = sources.len();
            let archive = archive_after(walked, contents, n);
            let closed = pack_step(packing_after(walked, n), PackEventView::Closed(Ok(())));
            &&& closed.next.phase == (PackPhaseView::Finished { outcome: Ok(n as u64) })
            &&& archive.len() == n
            &&& forall|k: int|
                0 <= k < n ==> {
                    let i = (#[trigger] sources[k]).position;
                    &&& finds_file(walked, i)
                    &&& archive[k] == (ArchiveEntryView {
                        name: name_in_archive(walked, i),
                        contents: contents[i],
                    })
                }
            &&& forall|k: int, l: int|
                0 <= k < l < n ==> (#[trigger] sources[k]).position < (
                #[trigger] sources[l]).position
            &&& forall|i: int| #[trigger]
                finds_file(walked, i) ==> exists|k: int|
                    0 <= k < n && (#[trigger] sources[k]).position == i
        }),
{
    let sources = sources_in(walked)->Ok_0;
    let n = sources.len();
    let archive = archive_after(walked, contents, n);
    law_sources_are_the_files_of_the_save(walked);
    lemma_packing(walked, contents, n);
    assert forall|k: int| 0 <= k < n implies {
        let i = (#[trigger] sources[k]).position;
        &&& finds_file(walked, i)
        &&& archive[k] == (ArchiveEntryView {
            name: name_in_archive(walked, i),
            contents: contents[i],
        })
    } by {
        assert(archive[k].contents == contents[sources[k].position]);
    }
}

/// The first `n` entries as files; a later one replaces an earlier one of its name.
spec fn first_files<C>(archive: Seq<ArchiveEntryView<C>>, n: nat) -> Map<Seq<char>, C>
    decreases n,
{
    if n == 0 {
        Map::empty()
    } else {
        first_files(archive, (n - 1) as nat).insert(archive[n - 1].name, archive[n - 1].contents)
    }
}

proof fn lemma_unpacking<C>(
    archive: Seq<ArchiveEntryView<C>>,
    stays_inside: spec_fn(Seq<char>) -> bool,
    n: nat,
)
    requires
        n <= archive.len() <= usize::MAX,
        forall|i: int| 0 <= i < archive.len() ==> stays_inside((#[trigger] archive[i]).name),
    ensures
        ({
            let run = unpack_run(archive, stays_inside, 2 + 4 * n);
            let total = archive.len() as usize;
            &&& run.extraction == (ExtractView { total, phase: reads_entry(total, n as usize) })
            &&& run.ticks == Seq::new(
                n + 1,
                |i: int| ExtractTick { completed: i as usize, total },
            )
            &&& run.files == first_files(archive, n)
        }),
    decreases n,
{
    let total = archive.len() as usize;
    if n == 0 {
        reveal_with_fuel(unpack_run, 3);
        assert(unpack_run(archive, stays_inside, 2).ticks == Seq::new(
            1,
            |i: int| ExtractTick { completed: i as usize, total },
        ));
    } else {
        let k = (n - 1) as nat;
        lemma_unpacking(archive, stays_inside, k);
        let at: nat = 2 + 4 * k;
        let index = k as usize;
        let before = unpack_run(archive, stays_inside, at);
        assert(before.extraction.phase == ExtractPhaseView::Reading { index });
        assert(stays_inside(archive[k as int].name));
        let one = unpack_run(archive, stays_inside, at + 1);
        assert(one.extraction.phase == ExtractPhaseView::MakingParent { index });
        let two = unpack_run(archive, stays_inside, at + 2);
        assert(two.extraction.phase == ExtractPhaseView::MakingFile { index });
        let three = unpack_run(archive, stays_inside, at + 3);
        assert(three.extraction.phase == ExtractPhaseView::Copying { index });
        let four = unpack_run(archive, stays_inside, at + 4);
        assert(at + 4 == 2 + 4 * n);
        assert(four.ticks == Seq::new(
            n + 1,
            |i: int| ExtractTick { completed: i as usize, total },
        ));
    }
}

proof fn lemma_first_files<C>(archive: Seq<ArchiveEntryView<C>>, n: nat)
    requires
        n <= archive.len(),
        forall|i: int, j: int|
            0 <= i < j < archive.len() ==> (#[trigger] archive[i]).name != (
            #[trigger] archive[j]).name,
    ensures
        forall|i: int|
            0 <= i < n ==> {
                &&& first_files(archive, n).contains_key((#[trigger] archive[i]).name)
                &&& first_files(archive, n)[archive[i].name] == archive[i].contents
            },
        forall|path: Seq<char>| #[trigger]
            first_files(archive, n).contains_key(path) ==> exists|i: int|
                0 <= i < n && (#[trigger] archive[i]).name == path,
    decreases n,
{
    if n > 0 {
        lemma_first_files(archive, (n - 1) as nat);
        assert forall|path: Seq<char>| #[trigger]
            first_files(archive, n).contains_key(path) implies exists|i: int|
            0 <= i < n && (#[trigger] archive[i]).name == path by {
            if path == archive[n - 1].name {
                assert(0 <= n - 1 < n && archive[n - 1].name == path);
            } else {
                assert(first_files(archive, (n - 1) as nat).contains_key(path));
            }
        }
    }
}

/// What is packed comes out again: where nothing fails and the archive gives back its entries,
/// packing a save succeeds with the number of its files, unpacking the archive succeeds, and the
/// files written are exactly those of the save, each under its path, with slashes for backslashes,
/// and with its contents. On the way each number of entries from none to all is told once. No two
/// paths may become one, and none may lead out of the directory.
pub proof fn law_packed_files_come_out_again<C>(
    walked: Seq<WalkStepView>,
    contents: Seq<C>,
    stays_inside: spec_fn(Seq<char>) -> bool,
)
    requires
        is_complete_walk(walked),
        walked.len() <= usize::MAX,
        forall|i: int| #[trigger]
            finds_file(walked, i) ==> stays_inside(name_in_archive(walked, i)),
        forall|i: int, j: int|
            i < j && #[trigger] finds_file(walked, i) && #[trigger] finds_file(walked, j)
                ==> name_in_archive(walked, i) != name_in_archive(walked, j),
    ensures
        ({
            let n = sources_in(walked)->Ok_0.len();
            let total = n as usize;
            let closed = pack_step(packing_after(walked, n), PackEventView::Closed(Ok(())));
            let archive = archive_after(walked, contents, n);
            let run = unpack_run(archive, stays_inside, 2 + 4 * n);
            &&& closed.next.phase == (PackPhaseView::Finished { outcome: Ok(n as u64) })
            &&& run.extraction.phase == (ExtractPhaseView::Finished { outcome: Ok(()) })
            &&& run.ticks == Seq::new(
                n + 1,
                |i: int| ExtractTick { completed: i as usize, total },
            )
            &&& forall|i: int| #[trigger]
                finds_file(walked, i) ==> {
                    &&& run.files.contains_key(name_in_archive(walked, i))
                    &&& run.files[name_in_archive(walked, i)] == contents[i]
                }
            &&& forall|path: Seq<char>| #[trigger]
                run.files.contains_key(path) ==> exists|i: int| #[trigger]
                    finds_file(walked, i) && name_in_archive(walked, i) == path
        }),
        forall|i: int| #[trigger]
            finds_file(walked, i) && !walked[i]->Ok_0.relative->Ok_0.contains('\\')
                ==> name_in_archive(walked, i) == walked[i]->Ok_0.relative->Ok_0,
{
    let sources = sources_in(walked)->Ok_0;
    let n = sources.len();
    let archive = archive_after(walked, contents, n);
    lemma_first_sources_of_a_save(walked, walked.len());
    law_archive_holds_the_files_of_the_save(walked, contents);
    assert forall|k: int| 0 <= k < archive.len() implies stays_inside(
        (#[trigger] archive[k]).name,
    ) by {
        assert(finds_file(walked, sources[k].position));
    }
    assert forall|k: int, l: int| 0 <= k < l < archive.len() implies (#[trigger] archive[k]).name
        != (#[trigger] archive[l]).name by {
        assert(sources[k].position < sources[l].position);
        assert(finds_file(walked, sources[k].position));
        assert(finds_file(walked, sources[l].position));
    }
    lemma_unpacking(archive, stays_inside, n);
    lemma_first_files(archive, n);
    let files = unpack_run(archive, stays_inside, 2 + 4 * n).files;
    assert forall|i: int| #[trigger] finds_file(walked, i) implies {
        &&& files.contains_key(name_in_archive(walked, i))
        &&& files[name_in_archive(walked, i)] == contents[i]
    } by {
        let k = choose|k: int| 0 <= k < n && (#[trigger] sources[k]).position == i;
        assert(archive[k].name == name_in_archive(walked, i));
    }
    assert forall|path: Seq<char>| #[trigger] files.contains_key(path) implies exists|i: int|
        #[trigger] finds_file(walked, i) && name_in_archive(walked, i) == path by {
        let k = choose|k: int| 0 <= k < n && (#[trigger] archive[k]).name == path;
        let i = sources[k].position;
        assert(finds_file(walked, i) && name_in_archive(walked, i) == path);
    }
    assert forall|i: int| #[trigger]
        finds_file(walked, i) && !walked[i]->Ok_0.relative->Ok_0.contains('\\') implies
        name_in_archive(walked, i) == walked[i]->Ok_0.relative->Ok_0 by {
        let relative = walked[i]->Ok_0.relative->Ok_0;
        assert forall|k: int| 0 <= k < relative.len() implies relative[k] != '\\' by {}
        assert(name_in_archive(walked, i) =~= relative);
    }
}

/// The archive holds every file of the save, in whatever depth it lies: where the walk told all,
/// there is one entry for each file that it came across outside `__MACOSX`, in the order of the
/// walk, under the file's path with slashes and with the file's contents, and there are no others.
pub proof fn law_every_file_is_in_the_archive<C>(
    walked: Seq<WalkStepView>,
    contents: Seq<C>,
) -> (from: Seq<int>)
    requires
        walked.len() <= usize::MAX,
        forall|i: int|
            0 <= i < walked.len() ==> {
                &&& (#[trigger] walked[i]) is Ok
                &&& walked[i]->Ok_0.is_file && lie_outside_metadata(walked[i]->Ok_0.names)
                    ==> walked[i]->Ok_0.facts is Ok && walked[i]->Ok_0.relative is Ok
            },
    ensures
        lead_to_the_files(from, walked),
        ({
            let n = from.len();
            let archive = archive_after(walked, contents, n);
            let closed = pack_step(packing_after(walked, n), PackEventView::Closed(Ok(())));
            &&& pack_action(closed.next) == (PackActionView::Finish { outcome: Ok(n as u64) })
            &&& archive.len() == n
            &&& forall|k: int|
                0 <= k < n ==> {
                    &&& is_slashed(
                        (#[trigger] archive[k]).name,
                        walked[from[k]]->Ok_0.relative->Ok_0,
                    )
                    &&& archive[k].contents == contents[from[k]]
                }
        }),
{
    assert forall|i: int| 0 <= i < walked.len() implies {
        &&& (#[trigger] walked[i]) is Ok
        &&& walked[i]->Ok_0.is_file && lie_outside_metadata(walked[i]->Ok_0.names)
            ==> walked[i]->Ok_0.facts is Ok
    } by {}
    let from = law_every_file_is_a_source(walked);
    let sources = sources_in(walked)->Ok_0;
    let n = from.len();
    assert forall|i: int| #[trigger] finds_file(walked, i) implies walked[i]->Ok_0.relative
        is Ok by {
        assert(walked[i] is Ok);
        law_files_are_told_by_kind_and_names(walked, i);
    }
    law_archive_holds_the_files_of_the_save(walked, contents);
    let archive = archive_after(walked, contents, n);
    assert forall|k: int| 0 <= k < n implies {
        &&& is_slashed((#[trigger] archive[k]).name, walked[from[k]]->Ok_0.relative->Ok_0)
        &&& archive[k].contents == contents[from[k]]
    } by {
        assert(sources[k].position == from[k]);
        law_replacing_changes_one_character_only(
            walked[from[k]]->Ok_0.relative->Ok_0,
            '\\',
            '/',
        );
    }
    from
}

}
