//! Unpacking a downloaded archive, one entry after the other. An entry whose path leads out of the
//! directory that it is unpacked into ends the unpacking before anything of it is written.

use crate::messages::{failed, failed_text};
use crate::progress::{
    law_full_percent_means_complete, law_percent_is_monotone, percent_of, progress, report,
    stage_percent, ProgressGate, ProgressView, UploadProgress,
};
use crate::text::{copy_done, decimal, done_result, joined, number};
use vstd::prelude::*;

verus! {

/// What an entry of an archive is: whether its path stays inside the directory that it is unpacked
/// into, and whether it is a directory.
#[derive(Clone, Copy)]
pub struct EntryKind {
    pub enclosed: bool,
    pub directory: bool,
}

/// How far the unpacking has come.
#[derive(Clone, Copy)]
pub struct ExtractTick {
    pub completed: usize,
    pub total: usize,
}

/// What the unpacking does next.
pub enum ExtractAction {
    /// Open the file.
    OpenFile,
    /// Read the file as an archive.
    OpenArchive,
    /// Read what the entry at this position is.
    ReadEntry { index: usize },
    /// Create the directory that the entry is.
    CreateDirectory,
    /// Create the directory that the entry lies in.
    CreateParent,
    /// Create the file that the entry is.
    CreateFile,
    /// Write the contents of the entry to its file.
    CopyContents,
    /// The unpacking is over.
    Finish { outcome: Result<(), String> },
}

pub enum ExtractActionView {
    OpenFile,
    OpenArchive,
    ReadEntry { index: usize },
    CreateDirectory,
    CreateParent,
    CreateFile,
    CopyContents,
    Finish { outcome: Result<(), Seq<char>> },
}

impl View for ExtractAction {
    type V = ExtractActionView;

    open spec fn view(&self) -> ExtractActionView {
        match *self {
            ExtractAction::OpenFile => ExtractActionView::OpenFile,
            ExtractAction::OpenArchive => ExtractActionView::OpenArchive,
            ExtractAction::ReadEntry { index } => ExtractActionView::ReadEntry { index },
            ExtractAction::CreateDirectory => ExtractActionView::CreateDirectory,
            ExtractAction::CreateParent => ExtractActionView::CreateParent,
            ExtractAction::CreateFile => ExtractActionView::CreateFile,
            ExtractAction::CopyContents => ExtractActionView::CopyContents,
            ExtractAction::Finish { outcome } => ExtractActionView::Finish {
                outcome: done_result(outcome),
            },
        }
    }
}

/// What an action of the unpacking came to.
pub enum ExtractEvent {
    /// The archive, with this many entries.
    Archive(Result<usize, String>),
    /// An entry.
    Entry(Result<EntryKind, String>),
    /// Any other action.
    Done(Result<(), String>),
}

pub enum ExtractEventView {
    Archive(Result<usize, Seq<char>>),
    Entry(Result<EntryKind, Seq<char>>),
    Done(Result<(), Seq<char>>),
}

impl View for ExtractEvent {
    type V = ExtractEventView;

    open spec fn view(&self) -> ExtractEventView {
        match *self {
            ExtractEvent::Archive(Ok(total)) => ExtractEventView::Archive(Ok(total)),
            ExtractEvent::Archive(Err(e)) => ExtractEventView::Archive(Err(e@)),
            ExtractEvent::Entry(Ok(kind)) => ExtractEventView::Entry(Ok(kind)),
            ExtractEvent::Entry(Err(e)) => ExtractEventView::Entry(Err(e@)),
            ExtractEvent::Done(r) => ExtractEventView::Done(done_result(r)),
        }
    }
}

/// What an unpacking is waiting for.
enum ExtractPhase {
    Opening,
    Parsing,
    Reading { index: usize },
    MakingDirectory { index: usize },
    MakingParent { index: usize },
    MakingFile { index: usize },
    Copying { index: usize },
    Finished { outcome: Result<(), String> },
}

pub enum ExtractPhaseView {
    /// The file.
    Opening,
    /// The archive.
    Parsing,
    /// The entry at `index`.
    Reading { index: usize },
    /// The directory that the entry at `index` is.
    MakingDirectory { index: usize },
    /// The directory that the entry at `index` lies in.
    MakingParent { index: usize },
    /// The file that the entry at `index` is.
    MakingFile { index: usize },
    /// The contents of the entry at `index`.
    Copying { index: usize },
    /// Nothing any more.
    Finished { outcome: Result<(), Seq<char>> },
}

impl View for ExtractPhase {
    type V = ExtractPhaseView;

    closed spec fn view(&self) -> ExtractPhaseView {
        match *self {
            ExtractPhase::Opening => ExtractPhaseView::Opening,
            ExtractPhase::Parsing => ExtractPhaseView::Parsing,
            ExtractPhase::Reading { index } => ExtractPhaseView::Reading { index },
            ExtractPhase::MakingDirectory { index } => ExtractPhaseView::MakingDirectory { index },
            ExtractPhase::MakingParent { index } => ExtractPhaseView::MakingParent { index },
            ExtractPhase::MakingFile { index } => ExtractPhaseView::MakingFile { index },
            ExtractPhase::Copying { index } => ExtractPhaseView::Copying { index },
            ExtractPhase::Finished { outcome } => ExtractPhaseView::Finished {
                outcome: done_result(outcome),
            },
        }
    }
}

/// An unpacking under way; `total` is the number of entries once it is known.
pub struct ExtractView {
    pub total: usize,
    pub phase: ExtractPhaseView,
}

/// What an event leads to, and how far the unpacking has come then, where that is to be told.
pub struct ExtractStepView {
    pub next: ExtractView,
    pub tick: Option<ExtractTick>,
}

/// An unpacking at its start.
pub open spec fn extract_start() -> ExtractView {
    ExtractView { total: 0, phase: ExtractPhaseView::Opening }
}

/// The entry at `index` is next; behind the last entry the unpacking is over.
pub open spec fn reads_entry(total: usize, index: usize) -> ExtractPhaseView {
    if index >= total {
        ExtractPhaseView::Finished { outcome: Ok(()) }
    } else {
        ExtractPhaseView::Reading { index }
    }
}

/// The phase changes to `phase`, and nothing is told.
pub open spec fn extract_quietly(total: usize, phase: ExtractPhaseView) -> ExtractStepView {
    ExtractStepView { next: ExtractView { total, phase }, tick: None }
}

/// The unpacking ends with this message.
pub open spec fn extract_fails(total: usize, message: Seq<char>) -> ExtractStepView {
    extract_quietly(total, ExtractPhaseView::Finished { outcome: Err(message) })
}

/// `completed` entries are dealt with; the next one follows.
pub open spec fn entries_done(total: usize, completed: usize) -> ExtractStepView {
    ExtractStepView {
        next: ExtractView { total, phase: reads_entry(total, completed) },
        tick: Some(ExtractTick { completed, total }),
    }
}

/// After an action that came to `done`: `step`, or the failure of `what`.
pub open spec fn unless_failed(
    total: usize,
    done: Result<(), Seq<char>>,
    what: Seq<char>,
    step: ExtractStepView,
) -> ExtractStepView {
    match done {
        Ok(_) => step,
        Err(e) => extract_fails(total, failed_text(what, e)),
    }
}

/// What an event leads to; one that does not answer the pending action leads nowhere.
pub open spec fn extract_step(s: ExtractView, event: ExtractEventView) -> ExtractStepView {
    let total = s.total;
    match (s.phase, event) {
        (ExtractPhaseView::Opening, ExtractEventView::Done(done)) => unless_failed(
            total,
            done,
            "打开下载文件失败"@,
            extract_quietly(total, ExtractPhaseView::Parsing),
        ),
        (ExtractPhaseView::Parsing, ExtractEventView::Archive(archive)) => match archive {
            Ok(n) => entries_done(n, 0),
            Err(e) => extract_fails(total, failed_text("压缩包损坏"@, e)),
        },
        (ExtractPhaseView::Reading { index }, ExtractEventView::Entry(entry)) => match entry {
            Ok(kind) => if !kind.enclosed {
                extract_fails(total, "压缩包包含非法路径"@)
            } else if kind.directory {
                extract_quietly(total, ExtractPhaseView::MakingDirectory { index })
            } else {
                extract_quietly(total, ExtractPhaseView::MakingParent { index })
            },
            Err(e) => extract_fails(total, failed_text("读取压缩包失败"@, e)),
        },
        (ExtractPhaseView::MakingDirectory { index }, ExtractEventView::Done(done)) =>
            unless_failed(
            total,
            done,
            "创建存档目录失败"@,
            entries_done(total, (index + 1) as usize),
        ),
        (ExtractPhaseView::MakingParent { index }, ExtractEventView::Done(done)) => unless_failed(
            total,
            done,
            "创建存档目录失败"@,
            extract_quietly(total, ExtractPhaseView::MakingFile { index }),
        ),
        (ExtractPhaseView::MakingFile { index }, ExtractEventView::Done(done)) => unless_failed(
            total,
            done,
            "写入存档失败"@,
            extract_quietly(total, ExtractPhaseView::Copying { index }),
        ),
        (ExtractPhaseView::Copying { index }, ExtractEventView::Done(done)) => unless_failed(
            total,
            done,
            "解压存档失败"@,
            entries_done(total, (index + 1) as usize),
        ),
        (phase, _) => extract_quietly(total, phase),
    }
}

/// What is to be done next.
pub open spec fn extract_action(s: ExtractView) -> ExtractActionView {
    match s.phase {
        ExtractPhaseView::Opening => ExtractActionView::OpenFile,
        ExtractPhaseView::Parsing => ExtractActionView::OpenArchive,
        ExtractPhaseView::Reading { index } => ExtractActionView::ReadEntry { index },
        ExtractPhaseView::MakingDirectory { .. } => ExtractActionView::CreateDirectory,
        ExtractPhaseView::MakingParent { .. } => ExtractActionView::CreateParent,
        ExtractPhaseView::MakingFile { .. } => ExtractActionView::CreateFile,
        ExtractPhaseView::Copying { .. } => ExtractActionView::CopyContents,
        ExtractPhaseView::Finished { outcome } => ExtractActionView::Finish { outcome },
    }
}

/// The position of the entry in hand, where there is one.
pub open spec fn entry_in_hand(phase: ExtractPhaseView) -> Option<usize> {
    match phase {
        ExtractPhaseView::Reading { index } => Some(index),
        ExtractPhaseView::MakingDirectory { index } => Some(index),
        ExtractPhaseView::MakingParent { index } => Some(index),
        ExtractPhaseView::MakingFile { index } => Some(index),
        ExtractPhaseView::Copying { index } => Some(index),
        _ => None,
    }
}

/// What holds of every unpacking: the entry in hand is one of the archive.
pub open spec fn extract_well_formed(s: ExtractView) -> bool {
    entry_in_hand(s.phase) is Some ==> entry_in_hand(s.phase)->0 < s.total
}

/// An unpacking under way.
pub struct Extraction {
    total: usize,
    phase: ExtractPhase,
}

impl View for Extraction {
    type V = ExtractView;

    closed spec fn view(&self) -> ExtractView {
        ExtractView { total: self.total, phase: self.phase@ }
    }
}

/// A phase together with how far the unpacking has come.
struct ExtractStep {
    next: Extraction,
    tick: Option<ExtractTick>,
}

impl View for ExtractStep {
    type V = ExtractStepView;

    closed spec fn view(&self) -> ExtractStepView {
        ExtractStepView { next: self.next@, tick: self.tick }
    }
}

fn quietly(total: usize, phase: ExtractPhase) -> (step: ExtractStep)
    requires
        extract_well_formed((ExtractView { total, phase: phase@ })),
    ensures
        step@ == extract_quietly(total, phase@),
{
    ExtractStep { next: Extraction { total, phase }, tick: None }
}

fn fail(total: usize, message: String) -> (step: ExtractStep)
    ensures
        step@ == extract_fails(total, message@),
{
    quietly(total, ExtractPhase::Finished { outcome: Err(message) })
}

fn entries_are_done(total: usize, completed: usize) -> (step: ExtractStep)
    ensures
        step@ == entries_done(total, completed),
{
    let phase = if completed >= total {
        ExtractPhase::Finished { outcome: Ok(()) }
    } else {
        ExtractPhase::Reading { index: completed }
    };
    ExtractStep { next: Extraction { total, phase }, tick: Some(ExtractTick { completed, total }) }
}

impl Extraction {
    #[verifier::type_invariant]
    spec fn is_well_formed(self) -> bool {
        extract_well_formed(self@)
    }

    /// Starts to unpack an archive.
    pub fn begin() -> (extraction: Extraction)
        ensures
            extraction@ == extract_start(),
    {
        Extraction { total: 0, phase: ExtractPhase::Opening }
    }

    /// What is to be done next.
    pub fn action(&self) -> (action: ExtractAction)
        ensures
            action@ == extract_action(self@),
    {
        match &self.phase {
            ExtractPhase::Opening => ExtractAction::OpenFile,
            ExtractPhase::Parsing => ExtractAction::OpenArchive,
            ExtractPhase::Reading { index } => ExtractAction::ReadEntry { index: *index },
            ExtractPhase::MakingDirectory { .. } => ExtractAction::CreateDirectory,
            ExtractPhase::MakingParent { .. } => ExtractAction::CreateParent,
            ExtractPhase::MakingFile { .. } => ExtractAction::CreateFile,
            ExtractPhase::Copying { .. } => ExtractAction::CopyContents,
            ExtractPhase::Finished { outcome } => ExtractAction::Finish {
                outcome: copy_done(outcome),
            },
        }
    }

    /// Takes what the pending action came to, and tells how far the unpacking has come, where an
    /// entry is done.
    pub fn handle(self, event: ExtractEvent) -> (res: (Extraction, Option<ExtractTick>))
        ensures
            res.0@ == extract_step(self@, event@).next,
            res.1 == extract_step(self@, event@).tick,
    {
        proof {
            use_type_invariant(&self);
        }
        let Extraction { total, phase } = self;
        let step = match (phase, event) {
            (ExtractPhase::Opening, ExtractEvent::Done(done)) => match done {
                Ok(_) => quietly(total, ExtractPhase::Parsing),
                Err(e) => fail(total, failed("打开下载文件失败", e.as_str())),
            },
            (ExtractPhase::Parsing, ExtractEvent::Archive(archive)) => match archive {
                Ok(n) => entries_are_done(n, 0),
                Err(e) => fail(total, failed("压缩包损坏", e.as_str())),
            },
            (ExtractPhase::Reading { index }, ExtractEvent::Entry(entry)) => match entry {
                Ok(kind) => {
                    if !kind.enclosed {
                        fail(total, "压缩包包含非法路径".to_owned())
                    } else if kind.directory {
                        quietly(total, ExtractPhase::MakingDirectory { index })
                    } else {
                        quietly(total, ExtractPhase::MakingParent { index })
                    }
                },
                Err(e) => fail(total, failed("读取压缩包失败", e.as_str())),
            },
            (ExtractPhase::MakingDirectory { index }, ExtractEvent::Done(done)) => match done {
                Ok(_) => entries_are_done(total, index + 1),
                Err(e) => fail(total, failed("创建存档目录失败", e.as_str())),
            },
            (ExtractPhase::MakingParent { index }, ExtractEvent::Done(done)) => match done {
                Ok(_) => quietly(total, ExtractPhase::MakingFile { index }),
                Err(e) => fail(total, failed("创建存档目录失败", e.as_str())),
            },
            (ExtractPhase::MakingFile { index }, ExtractEvent::Done(done)) => match done {
                Ok(_) => quietly(total, ExtractPhase::Copying { index }),
                Err(e) => fail(total, failed("写入存档失败", e.as_str())),
            },
            (ExtractPhase::Copying { index }, ExtractEvent::Done(done)) => match done {
                Ok(_) => entries_are_done(total, index + 1),
                Err(e) => fail(total, failed("解压存档失败", e.as_str())),
            },
            (phase, _) => quietly(total, phase),
        };
        (step.next, step.tick)
    }
}

/// The report on an unpacking.
pub open spec fn extract_report(tick: ExtractTick) -> ProgressView {
    report(
        percent_of(tick.completed as nat, tick.total as nat),
        "正在解压存档："@ + decimal(tick.completed as nat) + "/"@ + decimal(tick.total as nat) + " 项"@,
    )
}

/// The report to be made when the unpacking has come as far as `tick`, unless the percentage is
/// the one that was reported last.
pub fn extraction_report(gate: &mut ProgressGate, tick: ExtractTick) -> (res: Option<
    UploadProgress,
>)
    ensures
        final(gate).last is Some,
        final(gate).last->0 == extract_report(tick).percent,
        match res {
            Some(p) => p@ == extract_report(tick) && old(gate).last != final(gate).last,
            None => old(gate).last == final(gate).last,
        },
{
    let percent = stage_percent(tick.completed as u64, tick.total as u64);
    if gate.admits(percent) {
        let mut message = joined("正在解压存档：", number(tick.completed as u128).as_str());
        message.append("/");
        message.append(number(tick.total as u128).as_str());
        message.append(" 项");
        Some(progress(percent, message))
    } else {
        None
    }
}

/// An unpacking starts well-formed, and stays so whatever happens.
pub proof fn law_extractions_stay_well_formed(s: ExtractView, event: ExtractEventView)
    ensures
        extract_well_formed(extract_start()),
        extract_well_formed(s) ==> extract_well_formed(extract_step(s, event).next),
{
}

/// Whether an action writes an entry.
pub open spec fn writes_entry(action: ExtractActionView) -> bool {
    ||| action is CreateDirectory
    ||| action is CreateParent
    ||| action is CreateFile
    ||| action is CopyContents
}

/// Nothing is written for an entry before its path is known to stay inside the directory that it
/// is unpacked into, and an entry whose path does not ends the unpacking.
pub proof fn law_nothing_is_written_outside(s: ExtractView, event: ExtractEventView)
    ensures
        writes_entry(extract_action(extract_step(s, event).next)) && !writes_entry(
            extract_action(s),
        ) ==> s.phase is Reading && (event matches ExtractEventView::Entry(Ok(kind))
            && kind.enclosed),
        writes_entry(extract_action(extract_step(s, event).next)) && writes_entry(
            extract_action(s),
        ) ==> entry_in_hand(extract_step(s, event).next.phase) == entry_in_hand(s.phase),
        s.phase is Reading ==> forall|directory: bool|
            extract_action(
                #[trigger] extract_step(
                    s,
                    ExtractEventView::Entry(Ok(EntryKind { enclosed: false, directory })),
                ).next,
            ) == (ExtractActionView::Finish { outcome: Err("压缩包包含非法路径"@) }),
{
}

/// An unpacking succeeds only once the last entry has been written, and is then shown as complete.
pub proof fn law_success_follows_the_last_entry(s: ExtractView, event: ExtractEventView)
    requires
        extract_well_formed(s),
        !(s.phase is Finished),
        extract_step(s, event).next.phase == (ExtractPhaseView::Finished { outcome: Ok(()) }),
    ensures
        ({
            let step = extract_step(s, event);
            let total = step.next.total;
            &&& step.tick == Some(ExtractTick { completed: total, total })
            &&& extract_report(step.tick->0).percent == 100
            &&& s.phase is Parsing && total == 0 || (s.phase is MakingDirectory
                || s.phase is Copying) && entry_in_hand(s.phase)->0 + 1 == total
        }),
{
    let total = extract_step(s, event).next.total;
    law_full_percent_means_complete(total as nat, total as nat);
}

/// Unpacking never seems to go backwards.
pub proof fn law_extraction_progress_is_monotone(total: usize, less: usize, more: usize)
    requires
        less <= more,
    ensures
        extract_report(ExtractTick { completed: less, total }).percent <= extract_report(
            ExtractTick { completed: more, total },
        ).percent,
{
    law_percent_is_monotone(less as nat, more as nat, total as nat);
}

/// Every entry is unpacked, one after the other: a directory is created; for a file the directory
/// that it lies in is created, then the file, and its contents are written. Behind the last entry
/// the unpacking has succeeded. An entry whose path leads out ends it.
pub proof fn law_every_entry_is_unpacked(total: usize, index: usize, kind: EntryKind, n: usize)
    requires
        index < total,
    ensures
        ({
            let done = ExtractEventView::Done(Ok(()));
            let opened = extract_step(extract_start(), done).next;
            let begun = extract_step(opened, ExtractEventView::Archive(Ok(n)));
            let s = ExtractView { total, phase: ExtractPhaseView::Reading { index } };
            let first = extract_step(s, ExtractEventView::Entry(Ok(kind))).next;
            let second = extract_step(first, done);
            let third = extract_step(second.next, done);
            let fourth = extract_step(third.next, done);
            let last = if kind.directory {
                second
            } else {
                fourth
            };
            &&& extract_action(extract_start()) == ExtractActionView::OpenFile
            &&& extract_action(opened) == ExtractActionView::OpenArchive
            &&& begun.next.total == n
            &&& begun.tick == Some(ExtractTick { completed: 0, total: n })
            &&& extract_action(begun.next) == if n == 0 {
                ExtractActionView::Finish { outcome: Ok(()) }
            } else {
                ExtractActionView::ReadEntry { index: 0 }
            }
            &&& extract_action(s) == (ExtractActionView::ReadEntry { index })
            &&& !kind.enclosed ==> extract_action(first) == (ExtractActionView::Finish {
                outcome: Err("压缩包包含非法路径"@),
            })
            &&& kind.enclosed ==> {
                &&& kind.directory ==> extract_action(first) == ExtractActionView::CreateDirectory
                &&& !kind.directory ==> {
                    &&& extract_action(first) == ExtractActionView::CreateParent
                    &&& extract_action(second.next) == ExtractActionView::CreateFile
                    &&& extract_action(third.next) == ExtractActionView::CopyContents
                    &&& second.tick is None && third.tick is None
                }
                &&& last.next.total == total
                &&& last.tick == Some(ExtractTick { completed: (index + 1) as usize, total })
                &&& extract_action(last.next) == if index + 1 == total {
                    ExtractActionView::Finish { outcome: Ok(()) }
                } else {
                    ExtractActionView::ReadEntry { index: (index + 1) as usize }
                }
            }
        }),
{
}

/// A step that fails ends the unpacking with its reason.
pub proof fn law_failed_step_ends_the_unpacking(total: usize, index: usize, e: Seq<char>)
    ensures
        ({
            let ends = |phase: ExtractPhaseView, event: ExtractEventView, message: Seq<char>|
                extract_action(extract_step(ExtractView { total, phase }, event).next)
                    == (ExtractActionView::Finish { outcome: Err(message) });
            let failed = ExtractEventView::Done(Err(e));
            &&& ends(ExtractPhaseView::Opening, failed, "打开下载文件失败"@ + ": "@ + e)
            &&& ends(
                ExtractPhaseView::Parsing,
                ExtractEventView::Archive(Err(e)),
                "压缩包损坏"@ + ": "@ + e,
            )
            &&& ends(
                ExtractPhaseView::Reading { index },
                ExtractEventView::Entry(Err(e)),
                "读取压缩包失败"@ + ": "@ + e,
            )
            &&& ends(
                ExtractPhaseView::MakingDirectory { index },
                failed,
                "创建存档目录失败"@ + ": "@ + e,
            )
            &&& ends(
                ExtractPhaseView::MakingParent { index },
                failed,
                "创建存档目录失败"@ + ": "@ + e,
            )
            &&& ends(ExtractPhaseView::MakingFile { index }, failed, "写入存档失败"@ + ": "@ + e)
            &&& ends(ExtractPhaseView::Copying { index }, failed, "解压存档失败"@ + ": "@ + e)
        }),
{
}

/// While an archive is unpacked, the part of its entries that is unpacked is reported.
pub proof fn law_unpacking_report_tells_the_part(tick: ExtractTick)
    ensures
        extract_report(tick).percent == percent_of(tick.completed as nat, tick.total as nat),
        extract_report(tick).message == "正在解压存档："@ + decimal(tick.completed as nat) + "/"@
            + decimal(tick.total as nat) + " 项"@,
{
}

/// An unpacking moves on only by an answer to what it asked for; anything else leaves it as it is,
/// and one that is over stays so.
pub proof fn law_only_an_answer_moves_an_unpacking(s: ExtractView, event: ExtractEventView)
    requires
        extract_step(s, event).next != s,
    ensures
        match extract_action(s) {
            ExtractActionView::OpenArchive => event is Archive,
            ExtractActionView::ReadEntry { .. } => event is Entry,
            ExtractActionView::Finish { .. } => false,
            _ => event is Done,
        },
{
}

}
