//! Packing the files of a save into an archive, one after the other.

use crate::messages::{failed, failed_text};
use crate::names::archive_name;
use crate::progress::{
    law_percent_is_monotone, percent_of, progress, report, saturated, stage_percent, ProgressGate,
    ProgressView, UploadProgress,
};
use crate::text::{
    copy_result, decimal, done_result, joined, number, text_result, with_char_replaced,
};
use crate::walk::{
    finds_file, is_file_of_the_save, law_files_are_told_by_kind_and_names, lie_outside_metadata,
    walk_views, WalkStep, WalkStepView,
};
use vstd::prelude::*;

verus! {

/// A file to be packed: which step of the walk came across it, its path relative to the save, as
/// far as it could be determined, and its size.
pub struct ArchiveSource {
    pub position: usize,
    pub relative: Result<String, String>,
    pub bytes: u64,
}

pub struct ArchiveSourceView {
    pub position: int,
    pub relative: Result<Seq<char>, Seq<char>>,
    pub bytes: u64,
}

impl View for ArchiveSource {
    type V = ArchiveSourceView;

    open spec fn view(&self) -> ArchiveSourceView {
        ArchiveSourceView {
            position: self.position as int,
            relative: text_result(self.relative),
            bytes: self.bytes,
        }
    }
}

pub open spec fn source_views(sources: Seq<ArchiveSource>) -> Seq<ArchiveSourceView> {
    sources.map_values(|s: ArchiveSource| s@)
}

/// The source that the step at `i` of a walk came across.
pub open spec fn source_at(walked: Seq<WalkStepView>, i: int) -> ArchiveSourceView {
    let entry = walked[i]->Ok_0;
    ArchiveSourceView {
        position: i,
        relative: entry.relative,
        bytes: entry.facts->Ok_0.bytes,
    }
}

/// The sources among what the first `n` steps of a walk came across, or the first error.
pub open spec fn first_sources_of_a_save(walked: Seq<WalkStepView>, n: nat) -> Result<
    Seq<ArchiveSourceView>,
    Seq<char>,
>
    decreases n,
{
    if n == 0 {
        Ok(Seq::empty())
    } else {
        match first_sources_of_a_save(walked, (n - 1) as nat) {
            Err(e) => Err(e),
            Ok(sources) => match walked[n - 1] {
                Err(e) => Err(failed_text("读取存档失败"@, e)),
                Ok(entry) => if !is_file_of_the_save(entry) {
                    Ok(sources)
                } else if entry.facts is Err {
                    Err(failed_text("读取存档文件大小失败"@, entry.facts->Err_0))
                } else {
                    Ok(sources.push(source_at(walked, n - 1)))
                },
            },
        }
    }
}

/// The files of a save that are to be packed, in the order of the walk through it, or the first
/// error.
pub open spec fn sources_in(walked: Seq<WalkStepView>) -> Result<
    Seq<ArchiveSourceView>,
    Seq<char>,
> {
    first_sources_of_a_save(walked, walked.len())
}

/// Sources or an error, as values of the model.
pub open spec fn sources_result(r: Result<Vec<ArchiveSource>, String>) -> Result<
    Seq<ArchiveSourceView>,
    Seq<char>,
> {
    match r {
        Ok(sources) => Ok(source_views(sources@)),
        Err(e) => Err(e@),
    }
}

proof fn lemma_source_error_stays(walked: Seq<WalkStepView>, m: nat, n: nat)
    requires
        m <= n,
        first_sources_of_a_save(walked, m) is Err,
    ensures
        first_sources_of_a_save(walked, n) == first_sources_of_a_save(walked, m),
    decreases n - m,
{
    if m < n {
        lemma_source_error_stays(walked, m, (n - 1) as nat);
    }
}

/// The files of a save that are to be packed, given the walk through it: of what the walk came
/// across, in its order, those that are files and lie outside the directories of archive metadata.
pub fn sources_of_a_save(walked: &Vec<WalkStep>) -> (res: Result<Vec<ArchiveSource>, String>)
    ensures
        sources_result(res) == sources_in(walk_views(walked@)),
{
    let ghost views = walk_views(walked@);
    let mut sources: Vec<ArchiveSource> = Vec::new();
    assert(source_views(sources@) == Seq::<ArchiveSourceView>::empty());
    let mut i: usize = 0;
    while i < walked.len()
        invariant
            i <= walked@.len() == views.len(),
            views == walk_views(walked@),
            first_sources_of_a_save(views, i as nat) == Ok::<Seq<ArchiveSourceView>, Seq<char>>(
                source_views(sources@),
            ),
        decreases walked@.len() - i,
    {
        let ghost before = sources@;
        proof {
            if first_sources_of_a_save(views, (i + 1) as nat) is Err {
                lemma_source_error_stays(views, (i + 1) as nat, views.len());
            }
        }
        match &walked[i] {
            Err(e) => {
                return Err(failed("读取存档失败", e.as_str()));
            },
            Ok(entry) => {
                if entry.belongs_to_the_save() {
                    match &entry.facts {
                        Err(e) => {
                            return Err(failed("读取存档文件大小失败", e.as_str()));
                        },
                        Ok(facts) => {
                            let source = ArchiveSource {
                                position: i,
                                relative: copy_result(&entry.relative),
                                bytes: facts.bytes,
                            };
                            sources.push(source);
                            assert(source_views(before.push(source)) == source_views(before).push(
                                source@,
                            ));
                        },
                    }
                }
            },
        }
        i = i + 1;
    }
    Ok(sources)
}

pub(crate) proof fn lemma_first_sources_of_a_save(walked: Seq<WalkStepView>, n: nat)
    requires
        n <= walked.len(),
        first_sources_of_a_save(walked, n) is Ok,
    ensures
        ({
            let sources = first_sources_of_a_save(walked, n)->Ok_0;
            &&& sources.len() <= n
            &&& forall|k: int|
                0 <= k < sources.len() ==> {
                    let i = (#[trigger] sources[k]).position;
                    0 <= i < n && finds_file(walked, i) && sources[k] == source_at(walked, i)
                }
            &&& forall|k: int, l: int|
                0 <= k < l < sources.len() ==> (#[trigger] sources[k]).position < (
                #[trigger] sources[l]).position
            &&& forall|i: int|
                i < n && #[trigger] finds_file(walked, i) ==> exists|k: int|
                    0 <= k < sources.len() && (#[trigger] sources[k]).position == i
        }),
    decreases n,
{
    if n > 0 {
        lemma_first_sources_of_a_save(walked, (n - 1) as nat);
        let before = first_sources_of_a_save(walked, (n - 1) as nat)->Ok_0;
        let sources = first_sources_of_a_save(walked, n)->Ok_0;
        assert forall|i: int| i < n && #[trigger] finds_file(walked, i) implies exists|k: int|
            0 <= k < sources.len() && (#[trigger] sources[k]).position == i by {
            if i == n - 1 {
                assert(sources[before.len() as int].position == i);
            } else {
                let k = choose|k: int|
                    0 <= k < before.len() && (#[trigger] before[k]).position == i;
                assert(sources[k].position == i);
            }
        }
    }
}

/// What is packed are exactly the files of the save: of what the walk came across, each file
/// outside the directories of archive metadata, once, in the order of the walk, and nothing else.
pub proof fn law_sources_are_the_files_of_the_save(walked: Seq<WalkStepView>)
    requires
        sources_in(walked) is Ok,
    ensures
        ({
            let sources = sources_in(walked)->Ok_0;
            &&& forall|k: int|
                0 <= k < sources.len() ==> {
                    let i = (#[trigger] sources[k]).position;
                    finds_file(walked, i) && sources[k] == source_at(walked, i)
                }
            &&& forall|k: int, l: int|
                0 <= k < l < sources.len() ==> (#[trigger] sources[k]).position < (
                #[trigger] sources[l]).position
            &&& forall|i: int| #[trigger]
                finds_file(walked, i) ==> exists|k: int|
                    0 <= k < sources.len() && (#[trigger] sources[k]).position == i
        }),
{
    lemma_first_sources_of_a_save(walked, walked.len());
}

/// What packing one file came to.
pub enum Packed {
    Done,
    StartFailed(String),
    ReadFailed(String),
    CopyFailed(String),
}

/// The message for a file that could not be packed.
pub open spec fn pack_error(packed: Packed) -> Option<Seq<char>> {
    match packed {
        Packed::Done => None,
        Packed::StartFailed(e) => Some(failed_text("写入压缩包失败"@, e@)),
        Packed::ReadFailed(e) => Some(failed_text("读取存档文件失败"@, e@)),
        Packed::CopyFailed(e) => Some(failed_text("压缩存档失败"@, e@)),
    }
}

/// The sum of the sizes.
pub open spec fn size_sum(sources: Seq<ArchiveSourceView>) -> nat
    decreases sources.len(),
{
    if sources.len() == 0 {
        0
    } else {
        size_sum(sources.drop_last()) + sources.last().bytes as nat
    }
}

/// How far the packing has come.
#[derive(Clone, Copy)]
pub struct PackTick {
    pub completed_bytes: u64,
    pub total_bytes: u64,
    pub completed_files: u64,
    pub total_files: u64,
}

/// How far the packing has come with the first `n` files packed.
pub open spec fn tick_at(sources: Seq<ArchiveSourceView>, n: nat) -> PackTick {
    PackTick {
        completed_bytes: saturated(size_sum(sources.take(n as int))) as u64,
        total_bytes: saturated(size_sum(sources)) as u64,
        completed_files: n as u64,
        total_files: sources.len() as u64,
    }
}

/// What the packing does next.
pub enum PackAction {
    /// Walk through the save.
    WalkSave,
    /// Create the archive.
    CreateArchive,
    /// Pack the file that the step at this position of the walk came across, under this name.
    AddFile { index: usize, name: String },
    /// Close the archive.
    CloseArchive,
    /// The packing is over; the number of files that were packed, or what went wrong.
    Finish { outcome: Result<u64, String> },
}

pub enum PackActionView {
    WalkSave,
    CreateArchive,
    AddFile { index: int, name: Seq<char> },
    CloseArchive,
    Finish { outcome: Result<u64, Seq<char>> },
}

/// A count or an error, as values of the model.
pub open spec fn count_result(r: Result<u64, String>) -> Result<u64, Seq<char>> {
    match r {
        Ok(n) => Ok(n),
        Err(e) => Err(e@),
    }
}

impl View for PackAction {
    type V = PackActionView;

    open spec fn view(&self) -> PackActionView {
        match *self {
            PackAction::WalkSave => PackActionView::WalkSave,
            PackAction::CreateArchive => PackActionView::CreateArchive,
            PackAction::AddFile { index, name } => PackActionView::AddFile {
                index: index as int,
                name: name@,
            },
            PackAction::CloseArchive => PackActionView::CloseArchive,
            PackAction::Finish { outcome } => PackActionView::Finish {
                outcome: count_result(outcome),
            },
        }
    }
}

/// What an action of the packing came to.
pub enum PackEvent {
    Walked(Vec<WalkStep>),
    Created(Result<(), String>),
    Added(Packed),
    Closed(Result<(), String>),
}

pub enum PackEventView {
    Walked(Seq<WalkStepView>),
    Created(Result<(), Seq<char>>),
    Added(Option<Seq<char>>),
    Closed(Result<(), Seq<char>>),
}

impl View for PackEvent {
    type V = PackEventView;

    open spec fn view(&self) -> PackEventView {
        match *self {
            PackEvent::Walked(walked) => PackEventView::Walked(walk_views(walked@)),
            PackEvent::Created(r) => PackEventView::Created(done_result(r)),
            PackEvent::Added(packed) => PackEventView::Added(pack_error(packed)),
            PackEvent::Closed(r) => PackEventView::Closed(done_result(r)),
        }
    }
}

/// What a packing is waiting for.
enum PackPhase {
    Walking,
    Creating,
    Adding { index: usize },
    Closing,
    Finished { outcome: Result<u64, String> },
}

pub enum PackPhaseView {
    /// The walk through the save.
    Walking,
    /// The archive.
    Creating,
    /// That the file at `index` is packed.
    Adding { index: int },
    /// That the archive is closed.
    Closing,
    /// Nothing any more.
    Finished { outcome: Result<u64, Seq<char>> },
}

impl View for PackPhase {
    type V = PackPhaseView;

    closed spec fn view(&self) -> PackPhaseView {
        match *self {
            PackPhase::Walking => PackPhaseView::Walking,
            PackPhase::Creating => PackPhaseView::Creating,
            PackPhase::Adding { index } => PackPhaseView::Adding { index: index as int },
            PackPhase::Closing => PackPhaseView::Closing,
            PackPhase::Finished { outcome } => PackPhaseView::Finished {
                outcome: count_result(outcome),
            },
        }
    }
}

/// A packing under way.
pub struct PackView {
    pub sources: Seq<ArchiveSourceView>,
    pub phase: PackPhaseView,
}

/// What an event leads to, and how far the packing has come then, where that is to be told.
pub struct PackStepView {
    pub next: PackView,
    pub tick: Option<PackTick>,
}

/// A packing at its start.
pub open spec fn pack_start() -> PackView {
    PackView { sources: Seq::empty(), phase: PackPhaseView::Walking }
}

/// The file at `index` is packed, unless its path is not known; behind the last file the archive
/// is closed.
pub open spec fn adds(sources: Seq<ArchiveSourceView>, index: int) -> PackPhaseView {
    if index >= sources.len() {
        PackPhaseView::Closing
    } else {
        match sources[index].relative {
            Ok(_) => PackPhaseView::Adding { index },
            Err(e) => PackPhaseView::Finished { outcome: Err(failed_text("生成存档路径失败"@, e)) },
        }
    }
}

/// The phase changes to `phase`, and nothing is told.
pub open spec fn pack_quietly(sources: Seq<ArchiveSourceView>, phase: PackPhaseView) -> PackStepView {
    PackStepView { next: PackView { sources, phase }, tick: None }
}

/// The packing ends with this message.
pub open spec fn pack_fails(sources: Seq<ArchiveSourceView>, message: Seq<char>) -> PackStepView {
    pack_quietly(sources, PackPhaseView::Finished { outcome: Err(message) })
}

/// What an event leads to; one that does not answer the pending action leads nowhere.
pub open spec fn pack_step(s: PackView, event: PackEventView) -> PackStepView {
    match (s.phase, event) {
        (PackPhaseView::Walking, PackEventView::Walked(walked)) => match sources_in(walked) {
            Ok(sources) => pack_quietly(sources, PackPhaseView::Creating),
            Err(e) => pack_fails(s.sources, e),
        },
        (PackPhaseView::Creating, PackEventView::Created(created)) => match created {
            Ok(_) => PackStepView {
                next: PackView { sources: s.sources, phase: adds(s.sources, 0) },
                tick: Some(tick_at(s.sources, 0)),
            },
            Err(e) => pack_fails(s.sources, failed_text("创建压缩包失败"@, e)),
        },
        (PackPhaseView::Adding { index }, PackEventView::Added(error)) => match error {
            None => PackStepView {
                next: PackView { sources: s.sources, phase: adds(s.sources, index + 1) },
                tick: Some(tick_at(s.sources, (index + 1) as nat)),
            },
            Some(e) => pack_fails(s.sources, e),
        },
        (PackPhaseView::Closing, PackEventView::Closed(closed)) => match closed {
            Ok(_) => pack_quietly(
                s.sources,
                PackPhaseView::Finished { outcome: Ok(s.sources.len() as u64) },
            ),
            Err(e) => pack_fails(s.sources, failed_text("完成压缩失败"@, e)),
        },
        _ => pack_quietly(s.sources, s.phase),
    }
}

/// What is to be done next.
pub open spec fn pack_action(s: PackView) -> PackActionView {
    match s.phase {
        PackPhaseView::Walking => PackActionView::WalkSave,
        PackPhaseView::Creating => PackActionView::CreateArchive,
        PackPhaseView::Adding { index } => PackActionView::AddFile {
            index: s.sources[index].position,
            name: with_char_replaced(s.sources[index].relative->Ok_0, '\\', '/'),
        },
        PackPhaseView::Closing => PackActionView::CloseArchive,
        PackPhaseView::Finished { outcome } => PackActionView::Finish { outcome },
    }
}

/// A packing under way.
pub struct Compression {
    sources: Vec<ArchiveSource>,
    total_bytes: u64,
    completed_bytes: u64,
    phase: PackPhase,
}

impl View for Compression {
    type V = PackView;

    closed spec fn view(&self) -> PackView {
        PackView { sources: source_views(self.sources@), phase: self.phase@ }
    }
}

/// Which sum of sizes `completed` is in each phase.
spec fn counts(
    sources: Seq<ArchiveSourceView>,
    phase: PackPhaseView,
    total: u64,
    completed: u64,
) -> bool {
    &&& sources.len() <= u64::MAX
    &&& total == saturated(size_sum(sources))
    &&& phase is Creating ==> completed == 0
    &&& phase matches PackPhaseView::Adding { index } ==> {
        &&& 0 <= index < sources.len()
        &&& sources[index].relative is Ok
        &&& completed == saturated(size_sum(sources.take(index)))
    }
}

fn total_size(sources: &Vec<ArchiveSource>) -> (total: u64)
    ensures
        total == saturated(size_sum(source_views(sources@))),
        sources@.len() <= usize::MAX,
{
    let ghost views = source_views(sources@);
    let mut total: u64 = 0;
    let mut i: usize = 0;
    while i < sources.len()
        invariant
            i <= sources@.len(),
            views == source_views(sources@),
            total == saturated(size_sum(views.take(i as int))),
        decreases sources@.len() - i,
    {
        proof {
            assert(views.take(i + 1).drop_last() == views.take(i as int));
        }
        total = total.saturating_add(sources[i].bytes);
        i = i + 1;
    }
    assert(views.take(i as int) == views);
    total
}

fn add_from(sources: &Vec<ArchiveSource>, index: usize) -> (phase: PackPhase)
    ensures
        phase@ == adds(source_views(sources@), index as int),
{
    if index >= sources.len() {
        return PackPhase::Closing;
    }
    match &sources[index].relative {
        Ok(_) => PackPhase::Adding { index },
        Err(e) => PackPhase::Finished { outcome: Err(failed("生成存档路径失败", e.as_str())) },
    }
}

fn pack_failure(message: String) -> (phase: PackPhase)
    ensures
        phase@ == (PackPhaseView::Finished { outcome: Err(message@) }),
{
    PackPhase::Finished { outcome: Err(message) }
}

fn pack_error_text(packed: &Packed) -> (message: Option<String>)
    ensures
        crate::text::text_option(message) == pack_error(*packed),
{
    match packed {
        Packed::Done => None,
        Packed::StartFailed(e) => Some(failed("写入压缩包失败", e.as_str())),
        Packed::ReadFailed(e) => Some(failed("读取存档文件失败", e.as_str())),
        Packed::CopyFailed(e) => Some(failed("压缩存档失败", e.as_str())),
    }
}

impl Compression {
    #[verifier::type_invariant]
    spec fn is_well_formed(self) -> bool {
        counts(source_views(self.sources@), self.phase@, self.total_bytes, self.completed_bytes)
    }

    /// A packing at its start.
    pub fn begin() -> (packing: Compression)
        ensures
            packing@ == pack_start(),
    {
        let sources: Vec<ArchiveSource> = Vec::new();
        assert(source_views(sources@) == Seq::<ArchiveSourceView>::empty());
        Compression { sources, total_bytes: 0, completed_bytes: 0, phase: PackPhase::Walking }
    }

    /// What is to be done next.
    pub fn action(&self) -> (action: PackAction)
        ensures
            action@ == pack_action(self@),
    {
        proof {
            use_type_invariant(self);
        }
        match &self.phase {
            PackPhase::Walking => PackAction::WalkSave,
            PackPhase::Creating => PackAction::CreateArchive,
            PackPhase::Adding { index } => {
                let name = match &self.sources[*index].relative {
                    Ok(relative) => archive_name(relative.as_str()),
                    Err(_) => String::new(),
                };
                PackAction::AddFile { index: self.sources[*index].position, name }
            },
            PackPhase::Closing => PackAction::CloseArchive,
            PackPhase::Finished { outcome } => PackAction::Finish {
                outcome: match outcome {
                    Ok(n) => Ok(*n),
                    Err(e) => Err(e.clone()),
                },
            },
        }
    }

    /// Takes what the pending action came to, and tells how far the packing has come.
    pub fn handle(self, event: PackEvent) -> (res: (Compression, Option<PackTick>))
        ensures
            res.0@ == pack_step(self@, event@).next,
            res.1 == pack_step(self@, event@).tick,
    {
        proof {
            use_type_invariant(&self);
        }
        let ghost before = self@;
        let Compression { sources, total_bytes, completed_bytes, phase } = self;
        let ghost views = source_views(sources@);
        match (phase, event) {
            (PackPhase::Walking, PackEvent::Walked(walked)) => match sources_of_a_save(&walked) {
                Ok(sources) => {
                    let total_bytes = total_size(&sources);
                    (
                        Compression {
                            sources,
                            total_bytes,
                            completed_bytes: 0,
                            phase: PackPhase::Creating,
                        },
                        None,
                    )
                },
                Err(e) => {
                    let phase = pack_failure(e);
                    (Compression { sources, total_bytes, completed_bytes, phase }, None)
                },
            },
            (PackPhase::Creating, PackEvent::Created(created)) => match created {
                Ok(_) => {
                    let tick = PackTick {
                        completed_bytes: 0,
                        total_bytes,
                        completed_files: 0,
                        total_files: sources.len() as u64,
                    };
                    let phase = add_from(&sources, 0);
                    assert(views.take(0) == Seq::<ArchiveSourceView>::empty());
                    (Compression { sources, total_bytes, completed_bytes, phase }, Some(tick))
                },
                Err(e) => {
                    let phase = pack_failure(failed("创建压缩包失败", e.as_str()));
                    (Compression { sources, total_bytes, completed_bytes, phase }, None)
                },
            },
            (PackPhase::Adding { index }, PackEvent::Added(packed)) => match pack_error_text(
                &packed,
            ) {
                None => {
                    let completed_bytes = completed_bytes.saturating_add(sources[index].bytes);
                    proof {
                        let more = views.take(index + 1);
                        assert(more.drop_last() == views.take(index as int));
                        assert(more.last() == sources@[index as int]@);
                    }
                    let tick = PackTick {
                        completed_bytes,
                        total_bytes,
                        completed_files: index as u64 + 1,
                        total_files: sources.len() as u64,
                    };
                    let phase = add_from(&sources, index + 1);
                    (Compression { sources, total_bytes, completed_bytes, phase }, Some(tick))
                },
                Some(e) => {
                    let phase = pack_failure(e);
                    (Compression { sources, total_bytes, completed_bytes, phase }, None)
                },
            },
            (PackPhase::Closing, PackEvent::Closed(closed)) => {
                let phase = match closed {
                    Ok(_) => PackPhase::Finished { outcome: Ok(sources.len() as u64) },
                    Err(e) => pack_failure(failed("完成压缩失败", e.as_str())),
                };
                (Compression { sources, total_bytes, completed_bytes, phase }, None)
            },
            (phase, _) => (Compression { sources, total_bytes, completed_bytes, phase }, None),
        }
    }
}

/// The first thing that goes wrong with the first `n` files; `packed` holds what packing gives for
/// each step of the walk.
pub open spec fn first_pack_error(
    sources: Seq<ArchiveSourceView>,
    packed: Seq<Option<Seq<char>>>,
    n: nat,
) -> Option<Seq<char>>
    decreases n,
{
    if n == 0 {
        None
    } else {
        match first_pack_error(sources, packed, (n - 1) as nat) {
            Some(e) => Some(e),
            None => match sources[n - 1].relative {
                Err(e) => Some(failed_text("生成存档路径失败"@, e)),
                Ok(_) => packed[sources[n - 1].position],
            },
        }
    }
}

/// What packing each file came to, as values of the model.
pub open spec fn packed_views(packed: Seq<Packed>) -> Seq<Option<Seq<char>>> {
    packed.map_values(|p: Packed| pack_error(p))
}

/// What packing the files comes to, given what each step would come to: the number of files, or
/// the first thing that went wrong.
pub open spec fn pack_result(
    sources: Seq<ArchiveSourceView>,
    created: Result<(), Seq<char>>,
    packed: Seq<Option<Seq<char>>>,
    closed: Result<(), Seq<char>>,
) -> Result<u64, Seq<char>> {
    match created {
        Err(e) => Err(failed_text("创建压缩包失败"@, e)),
        Ok(_) => match first_pack_error(sources, packed, sources.len()) {
            Some(e) => Err(e),
            None => match closed {
                Err(e) => Err(failed_text("完成压缩失败"@, e)),
                Ok(_) => Ok(sources.len() as u64),
            },
        },
    }
}

/// What a packing is waiting for after `n` files have been dealt with.
spec fn pack_phase_after(
    sources: Seq<ArchiveSourceView>,
    created: Result<(), Seq<char>>,
    packed: Seq<Option<Seq<char>>>,
    n: nat,
) -> PackPhaseView {
    match created {
        Err(e) => PackPhaseView::Finished { outcome: Err(failed_text("创建压缩包失败"@, e)) },
        Ok(_) => match first_pack_error(sources, packed, n) {
            Some(e) => PackPhaseView::Finished { outcome: Err(e) },
            None => adds(sources, n as int),
        },
    }
}

fn copy_packed(packed: &Packed) -> (copy: Packed)
    ensures
        pack_error(copy) == pack_error(*packed),
{
    match packed {
        Packed::Done => Packed::Done,
        Packed::StartFailed(e) => Packed::StartFailed(e.clone()),
        Packed::ReadFailed(e) => Packed::ReadFailed(e.clone()),
        Packed::CopyFailed(e) => Packed::CopyFailed(e.clone()),
    }
}

/// What packing a save comes to, given the walk through it and what each step would come to.
pub open spec fn walk_pack_result(
    walked: Seq<WalkStepView>,
    created: Result<(), Seq<char>>,
    packed: Seq<Option<Seq<char>>>,
    closed: Result<(), Seq<char>>,
) -> Result<u64, Seq<char>> {
    match sources_in(walked) {
        Err(e) => Err(e),
        Ok(sources) => pack_result(sources, created, packed, closed),
    }
}

/// Packs a save, given the walk through it and what each step would come to; `packed` holds what
/// packing the file would come to for each step of the walk. Steps behind the first one that goes
/// wrong do not count.
pub fn zip_directory(
    walked: Vec<WalkStep>,
    created: Result<(), String>,
    packed: &Vec<Packed>,
    closed: Result<(), String>,
) -> (res: Result<u64, String>)
    requires
        packed@.len() == walked@.len(),
    ensures
        count_result(res) == walk_pack_result(
            walk_views(walked@),
            done_result(created),
            packed_views(packed@),
            done_result(closed),
        ),
{
    let ghost steps = walk_views(walked@);
    let ghost views = sources_in(steps)->Ok_0;
    let ghost errors = packed_views(packed@);
    let ghost opened = done_result(created);
    let (packing, _) = Compression::begin().handle(PackEvent::Walked(walked));
    if let PackAction::Finish { outcome } = packing.action() {
        return outcome;
    }
    proof {
        lemma_first_sources_of_a_save(steps, steps.len());
    }
    let (packing, _) = packing.handle(PackEvent::Created(created));
    let mut packing = packing;
    let mut round: usize = 0;
    while round < packed.len()
        invariant
            round <= packed@.len(),
            views.len() <= packed@.len(),
            errors == packed_views(packed@),
            forall|k: int|
                0 <= k < views.len() ==> 0 <= (#[trigger] views[k]).position < packed@.len(),
            packing@.sources == views,
            packing@.phase == pack_phase_after(
                views,
                opened,
                errors,
                if round < views.len() {
                    round as nat
                } else {
                    views.len()
                },
            ),
        decreases packed@.len() - round,
    {
        if let PackAction::AddFile { index, .. } = packing.action() {
            assert(views[round as int].position == index);
            assert(errors[index as int] == pack_error(packed@[index as int]));
            let (next, _) = packing.handle(PackEvent::Added(copy_packed(&packed[index])));
            packing = next;
        }
        round = round + 1;
    }
    let (packing, _) = packing.handle(PackEvent::Closed(closed));
    match packing.action() {
        PackAction::Finish { outcome } => outcome,
        _ => Ok(0),
    }
}

/// The report on a packing.
pub open spec fn pack_report(tick: PackTick) -> ProgressView {
    report(
        percent_of(tick.completed_bytes as nat, tick.total_bytes as nat),
        "正在压缩存档："@ + decimal(tick.completed_files as nat) + "/"@ + decimal(
            tick.total_files as nat,
        ) + " 个文件"@,
    )
}

/// The report to be made when the packing has come as far as `tick`, unless the percentage is the
/// one that was reported last.
pub fn compression_report(gate: &mut ProgressGate, tick: PackTick) -> (res: Option<UploadProgress>)
    ensures
        final(gate).last is Some,
        final(gate).last->0 == pack_report(tick).percent,
        match res {
            Some(p) => p@ == pack_report(tick) && old(gate).last != final(gate).last,
            None => old(gate).last == final(gate).last,
        },
{
    let percent = stage_percent(tick.completed_bytes, tick.total_bytes);
    if gate.admits(percent) {
        let mut message = joined("正在压缩存档：", number(tick.completed_files as u128).as_str());
        message.append("/");
        message.append(number(tick.total_files as u128).as_str());
        message.append(" 个文件");
        Some(progress(percent, message))
    } else {
        None
    }
}

proof fn lemma_size_sum_grows(sources: Seq<ArchiveSourceView>, m: nat, n: nat)
    requires
        m <= n <= sources.len(),
    ensures
        size_sum(sources.take(m as int)) <= size_sum(sources.take(n as int)),
    decreases n - m,
{
    if m < n {
        lemma_size_sum_grows(sources, m, (n - 1) as nat);
        assert(sources.take(n as int).drop_last() == sources.take(n - 1));
    }
}

/// Packing never seems to go backwards, and once every file is packed it is shown as complete.
pub proof fn law_packing_progress_is_monotone(sources: Seq<ArchiveSourceView>, m: nat, n: nat)
    requires
        m <= n <= sources.len(),
    ensures
        pack_report(tick_at(sources, m)).percent <= pack_report(tick_at(sources, n)).percent,
        pack_report(tick_at(sources, sources.len())).percent == 100,
{
    lemma_size_sum_grows(sources, m, n);
    law_percent_is_monotone(
        saturated(size_sum(sources.take(m as int))),
        saturated(size_sum(sources.take(n as int))),
        saturated(size_sum(sources)),
    );
    assert(sources.take(sources.len() as int) == sources);
}

/// Whether `from` lists, in order, exactly the steps of a walk that came across a file outside
/// `__MACOSX`.
pub open spec fn lead_to_the_files(from: Seq<int>, walked: Seq<WalkStepView>) -> bool {
    &&& forall|k: int|
        0 <= k < from.len() ==> {
            let i = #[trigger] from[k];
            &&& 0 <= i < walked.len()
            &&& walked[i] matches Ok(file)
            &&& file.is_file && lie_outside_metadata(file.names)
        }
    &&& forall|k: int, l: int| 0 <= k < l < from.len() ==> #[trigger] from[k] < #[trigger] from[l]
    &&& forall|i: int|
        0 <= i < walked.len() && (#[trigger] walked[i]) is Ok && walked[i]->Ok_0.is_file
            && lie_outside_metadata(walked[i]->Ok_0.names) ==> from.contains(i)
}

proof fn lemma_readable_sources(walked: Seq<WalkStepView>, n: nat)
    requires
        n <= walked.len(),
        forall|i: int|
            0 <= i < walked.len() ==> {
                &&& (#[trigger] walked[i]) is Ok
                &&& walked[i]->Ok_0.is_file && lie_outside_metadata(walked[i]->Ok_0.names)
                    ==> walked[i]->Ok_0.facts is Ok
            },
    ensures
        first_sources_of_a_save(walked, n) is Ok,
    decreases n,
{
    if n > 0 {
        lemma_readable_sources(walked, (n - 1) as nat);
        assert(walked[n - 1] is Ok);
        law_files_are_told_by_kind_and_names(walked, n - 1);
    }
}

/// Every file of the save is packed, in whatever depth it lies, and nothing else: where the walk
/// failed nowhere and the files tell their sizes, the sources are exactly the files outside
/// `__MACOSX`, in the order of the walk, each with its own path and size.
pub proof fn law_every_file_is_a_source(walked: Seq<WalkStepView>) -> (from: Seq<int>)
    requires
        forall|i: int|
            0 <= i < walked.len() ==> {
                &&& (#[trigger] walked[i]) is Ok
                &&& walked[i]->Ok_0.is_file && lie_outside_metadata(walked[i]->Ok_0.names)
                    ==> walked[i]->Ok_0.facts is Ok
            },
    ensures
        lead_to_the_files(from, walked),
        sources_in(walked) is Ok,
        sources_in(walked)->Ok_0.len() == from.len(),
        from.len() <= walked.len(),
        forall|k: int|
            0 <= k < from.len() ==> {
                let source = #[trigger] sources_in(walked)->Ok_0[k];
                let file = walked[from[k]]->Ok_0;
                &&& source.position == from[k]
                &&& source.relative == file.relative
                &&& source.bytes == file.facts->Ok_0.bytes
            },
{
    lemma_readable_sources(walked, walked.len());
    lemma_first_sources_of_a_save(walked, walked.len());
    let sources = sources_in(walked)->Ok_0;
    let from = Seq::new(sources.len(), |k: int| sources[k].position);
    assert forall|k: int| 0 <= k < from.len() implies {
        let i = #[trigger] from[k];
        &&& 0 <= i < walked.len()
        &&& walked[i] matches Ok(file)
        &&& file.is_file && lie_outside_metadata(file.names)
    } by {
        let i = sources[k].position;
        assert(finds_file(walked, i));
        law_files_are_told_by_kind_and_names(walked, i);
    }
    assert forall|k: int, l: int| 0 <= k < l < from.len() implies #[trigger] from[k]
        < #[trigger] from[l] by {
        assert(sources[k].position < sources[l].position);
    }
    assert forall|i: int|
        0 <= i < walked.len() && (#[trigger] walked[i]) is Ok && walked[i]->Ok_0.is_file
            && lie_outside_metadata(walked[i]->Ok_0.names) implies from.contains(i) by {
        law_files_are_told_by_kind_and_names(walked, i);
        assert(finds_file(walked, i));
        let k = choose|k: int| 0 <= k < sources.len() && (#[trigger] sources[k]).position == i;
        assert(from[k] == i);
    }
    from
}

proof fn lemma_no_pack_error(
    sources: Seq<ArchiveSourceView>,
    packed: Seq<Option<Seq<char>>>,
    n: nat,
)
    requires
        n <= sources.len(),
        forall|k: int|
            0 <= k < sources.len() ==> {
                &&& (#[trigger] sources[k]).relative is Ok
                &&& packed[sources[k].position] is None
            },
    ensures
        first_pack_error(sources, packed, n) is None,
    decreases n,
{
    if n > 0 {
        lemma_no_pack_error(sources, packed, (n - 1) as nat);
        assert(sources[n - 1].relative is Ok);
    }
}

proof fn lemma_pack_error_counts(
    sources: Seq<ArchiveSourceView>,
    packed: Seq<Option<Seq<char>>>,
    k: int,
    n: nat,
)
    requires
        0 <= k < n,
        sources[k].relative is Err || packed[sources[k].position] is Some,
    ensures
        first_pack_error(sources, packed, n) is Some,
    decreases n,
{
    if k < n - 1 {
        lemma_pack_error_counts(sources, packed, k, (n - 1) as nat);
    }
}

/// A packing succeeds exactly when everything succeeded that belongs to it, and then with the
/// number of files of the save: where the walk told all, the archive could be created, each file of
/// the save was packed and the archive could be closed. What packing gives for a step that did not
/// come across a file of the save does not matter.
pub proof fn law_packing_succeeds_with_all_files(
    walked: Seq<WalkStepView>,
    created: Result<(), Seq<char>>,
    packed: Seq<Option<Seq<char>>>,
    closed: Result<(), Seq<char>>,
) -> (from: Seq<int>)
    requires
        walked.len() <= usize::MAX,
        forall|i: int|
            0 <= i < walked.len() ==> {
                &&& (#[trigger] walked[i]) is Ok
                &&& walked[i]->Ok_0.is_file && lie_outside_metadata(walked[i]->Ok_0.names)
                    ==> walked[i]->Ok_0.facts is Ok
            },
    ensures
        lead_to_the_files(from, walked),
        walk_pack_result(walked, created, packed, closed) is Ok <==> created is Ok && closed is Ok
            && forall|k: int|
            0 <= k < from.len() ==> {
                &&& walked[#[trigger] from[k]]->Ok_0.relative is Ok
                &&& packed[from[k]] is None
            },
        walk_pack_result(walked, created, packed, closed) matches Ok(n) ==> n == from.len(),
{
    let from = law_every_file_is_a_source(walked);
    let sources = sources_in(walked)->Ok_0;
    if forall|k: int|
        0 <= k < from.len() ==> {
            &&& walked[#[trigger] from[k]]->Ok_0.relative is Ok
            &&& packed[from[k]] is None
        } {
        assert forall|k: int| 0 <= k < sources.len() implies {
            &&& (#[trigger] sources[k]).relative is Ok
            &&& packed[sources[k].position] is None
        } by {
            assert(walked[from[k]]->Ok_0.relative is Ok);
        }
        lemma_no_pack_error(sources, packed, sources.len());
    } else {
        let k = choose|k: int|
            0 <= k < from.len() && !({
                &&& walked[#[trigger] from[k]]->Ok_0.relative is Ok
                &&& packed[from[k]] is None
            });
        assert(sources[k].position == from[k]);
        lemma_pack_error_counts(sources, packed, k, sources.len());
    }
    from
}

/// A save that cannot be read in full is not packed as a smaller one: a step of the walk that
/// failed, or a file whose size is not known, makes the packing fail.
pub proof fn law_unreadable_save_is_not_packed(
    walked: Seq<WalkStepView>,
    created: Result<(), Seq<char>>,
    packed: Seq<Option<Seq<char>>>,
    closed: Result<(), Seq<char>>,
    i: int,
)
    requires
        0 <= i < walked.len(),
        walked[i] is Err || (walked[i]->Ok_0.is_file && lie_outside_metadata(
            walked[i]->Ok_0.names,
        ) && walked[i]->Ok_0.facts is Err),
    ensures
        walk_pack_result(walked, created, packed, closed) is Err,
{
    if walked[i] is Ok {
        law_files_are_told_by_kind_and_names(walked, i);
    }
    assert(first_sources_of_a_save(walked, (i + 1) as nat) is Err);
    lemma_source_error_stays(walked, (i + 1) as nat, walked.len());
}

/// The size of what is packed is the sum of the sizes, and how far the packing has come is told by
/// the sizes and the numbers of the files packed so far and of all.
pub proof fn law_packing_counts_every_file(
    sources: Seq<ArchiveSourceView>,
    more: ArchiveSourceView,
    n: nat,
)
    requires
        n <= sources.len() <= u64::MAX,
    ensures
        size_sum(Seq::empty()) == 0,
        size_sum(sources.push(more)) == size_sum(sources) + more.bytes,
        tick_at(sources, n).completed_files == n,
        tick_at(sources, n).total_files == sources.len(),
        size_sum(sources) <= u64::MAX ==> {
            &&& tick_at(sources, n).total_bytes == size_sum(sources)
            &&& tick_at(sources, n).completed_bytes == size_sum(sources.take(n as int))
        },
{
    assert(sources.push(more).drop_last() == sources);
    lemma_size_sum_grows(sources, n, sources.len());
    assert(sources.take(sources.len() as int) == sources);
}

/// While a save is packed, the part of the bytes that is packed is reported, with the numbers of
/// files.
pub proof fn law_packing_report_tells_the_part(tick: PackTick)
    ensures
        pack_report(tick).percent == percent_of(
            tick.completed_bytes as nat,
            tick.total_bytes as nat,
        ),
        pack_report(tick).message == "正在压缩存档："@ + decimal(tick.completed_files as nat) + "/"@
            + decimal(tick.total_files as nat) + " 个文件"@,
{
}

/// What went wrong with a file is told by where it went wrong.
pub proof fn law_packing_problem_is_told(e: String)
    ensures
        pack_error(Packed::Done) is None,
        pack_error(Packed::StartFailed(e)) == Some("写入压缩包失败"@ + ": "@ + e@),
        pack_error(Packed::ReadFailed(e)) == Some("读取存档文件失败"@ + ": "@ + e@),
        pack_error(Packed::CopyFailed(e)) == Some("压缩存档失败"@ + ": "@ + e@),
{
}

/// A packing moves on only by an answer to what it asked for; anything else leaves it as it is, and
/// one that is over stays so. After each file it is told how far the packing has come.
pub proof fn law_only_an_answer_moves_a_packing(s: PackView, event: PackEventView)
    ensures
        pack_step(s, event).next != s ==> match pack_action(s) {
            PackActionView::WalkSave => event is Walked,
            PackActionView::CreateArchive => event is Created,
            PackActionView::AddFile { .. } => event is Added,
            PackActionView::CloseArchive => event is Closed,
            PackActionView::Finish { .. } => false,
        },
        s.phase is Creating ==> pack_step(s, PackEventView::Created(Ok(()))).tick == Some(
            tick_at(s.sources, 0),
        ),
        s.phase matches PackPhaseView::Adding { index } ==> pack_step(
            s,
            PackEventView::Added(None),
        ).tick == Some(tick_at(s.sources, (index + 1) as nat)),
{
}

}
