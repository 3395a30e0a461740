//! Putting a new file in the place of an old one, so that one of the two is there whatever
//! happens; and writing a value to a file in this way.

use crate::messages::{failed, failed_text};
use crate::text::{decimal, done_result, joined, number};
use vstd::prelude::*;

verus! {

/// What a replacement does next.
pub enum SwapAction {
    /// See whether the target and its backup exist.
    Inspect,
    /// Remove the backup.
    RemoveBackup,
    /// Rename the target to the backup.
    SetAside,
    /// Rename the source to the target.
    Install,
    /// Rename the backup to the target; a failure to do so is of no consequence.
    Restore,
    /// The replacement is over.
    Finish(Result<(), String>),
}

pub enum SwapActionView {
    Inspect,
    RemoveBackup,
    SetAside,
    Install,
    Restore,
    Finish(Result<(), Seq<char>>),
}

impl View for SwapAction {
    type V = SwapActionView;

    open spec fn view(&self) -> SwapActionView {
        match *self {
            SwapAction::Inspect => SwapActionView::Inspect,
            SwapAction::RemoveBackup => SwapActionView::RemoveBackup,
            SwapAction::SetAside => SwapActionView::SetAside,
            SwapAction::Install => SwapActionView::Install,
            SwapAction::Restore => SwapActionView::Restore,
            SwapAction::Finish(outcome) => SwapActionView::Finish(done_result(outcome)),
        }
    }
}

/// What an action of a replacement came to.
pub enum SwapEvent {
    Found { target: bool, backup: bool },
    Done(Result<(), String>),
}

pub enum SwapEventView {
    Found { target: bool, backup: bool },
    Done(Result<(), Seq<char>>),
}

impl View for SwapEvent {
    type V = SwapEventView;

    open spec fn view(&self) -> SwapEventView {
        match *self {
            SwapEvent::Found { target, backup } => SwapEventView::Found { target, backup },
            SwapEvent::Done(r) => SwapEventView::Done(done_result(r)),
        }
    }
}

/// What a replacement is waiting for.
pub enum SwapPhase {
    Inspecting,
    RemovingStaleBackup { had_target: bool },
    SettingAside,
    Installing { had_target: bool },
    Restoring { error: String },
    RemovingBackup,
    Finished { outcome: Result<(), String> },
}

pub enum SwapPhaseView {
    /// What is there.
    Inspecting,
    /// That the backup of an earlier replacement is gone.
    RemovingStaleBackup { had_target: bool },
    /// That the target has become the backup.
    SettingAside,
    /// That the source has become the target.
    Installing { had_target: bool },
    /// That the backup has become the target again.
    Restoring { error: Seq<char> },
    /// That the backup is gone.
    RemovingBackup,
    /// Nothing any more.
    Finished { outcome: Result<(), Seq<char>> },
}

impl View for SwapPhase {
    type V = SwapPhaseView;

    open spec fn view(&self) -> SwapPhaseView {
        match *self {
            SwapPhase::Inspecting => SwapPhaseView::Inspecting,
            SwapPhase::RemovingStaleBackup { had_target } => SwapPhaseView::RemovingStaleBackup {
                had_target,
            },
            SwapPhase::SettingAside => SwapPhaseView::SettingAside,
            SwapPhase::Installing { had_target } => SwapPhaseView::Installing { had_target },
            SwapPhase::Restoring { error } => SwapPhaseView::Restoring { error: error@ },
            SwapPhase::RemovingBackup => SwapPhaseView::RemovingBackup,
            SwapPhase::Finished { outcome } => SwapPhaseView::Finished {
                outcome: done_result(outcome),
            },
        }
    }
}

/// The target is set aside if there is one; otherwise the source is installed at once.
pub open spec fn makes_room(had_target: bool) -> SwapPhaseView {
    if had_target {
        SwapPhaseView::SettingAside
    } else {
        SwapPhaseView::Installing { had_target: false }
    }
}

pub open spec fn swap_fails(message: Seq<char>) -> SwapPhaseView {
    SwapPhaseView::Finished { outcome: Err(message) }
}

/// What an event leads to in a replacement that is called `label` towards the user.
pub open spec fn swap_next(
    label: Seq<char>,
    phase: SwapPhaseView,
    event: SwapEventView,
) -> SwapPhaseView {
    match (phase, event) {
        (SwapPhaseView::Inspecting, SwapEventView::Found { target, backup }) => if backup {
            SwapPhaseView::RemovingStaleBackup { had_target: target }
        } else {
            makes_room(target)
        },
        (SwapPhaseView::RemovingStaleBackup { had_target }, SwapEventView::Done(done)) =>
            match done {
            Ok(_) => makes_room(had_target),
            Err(e) => swap_fails(failed_text("清理旧缓存交换文件失败"@, e)),
        },
        (SwapPhaseView::SettingAside, SwapEventView::Done(done)) => match done {
            Ok(_) => SwapPhaseView::Installing { had_target: true },
            Err(e) => swap_fails(failed_text("准备"@ + label + "失败"@, e)),
        },
        (SwapPhaseView::Installing { had_target }, SwapEventView::Done(done)) => match done {
            Ok(_) => if had_target {
                SwapPhaseView::RemovingBackup
            } else {
                SwapPhaseView::Finished { outcome: Ok(()) }
            },
            Err(e) => if had_target {
                SwapPhaseView::Restoring { error: failed_text(label + "失败"@, e) }
            } else {
                swap_fails(failed_text(label + "失败"@, e))
            },
        },
        (SwapPhaseView::Restoring { error }, SwapEventView::Done(_)) => swap_fails(error),
        (SwapPhaseView::RemovingBackup, SwapEventView::Done(done)) => match done {
            Ok(_) => SwapPhaseView::Finished { outcome: Ok(()) },
            Err(e) => swap_fails(failed_text(label + "成功，但清理旧缓存失败"@, e)),
        },
        (phase, _) => phase,
    }
}

/// What is to be done next.
pub open spec fn swap_action(phase: SwapPhaseView) -> SwapActionView {
    match phase {
        SwapPhaseView::Inspecting => SwapActionView::Inspect,
        SwapPhaseView::RemovingStaleBackup { .. } => SwapActionView::RemoveBackup,
        SwapPhaseView::SettingAside => SwapActionView::SetAside,
        SwapPhaseView::Installing { .. } => SwapActionView::Install,
        SwapPhaseView::Restoring { .. } => SwapActionView::Restore,
        SwapPhaseView::RemovingBackup => SwapActionView::RemoveBackup,
        SwapPhaseView::Finished { outcome } => SwapActionView::Finish(outcome),
    }
}

/// The replacement of a file by another one.
pub struct FileSwap {
    pub label: String,
    pub phase: SwapPhase,
}

fn make_room(had_target: bool) -> (phase: SwapPhase)
    ensures
        phase@ == makes_room(had_target),
{
    if had_target {
        SwapPhase::SettingAside
    } else {
        SwapPhase::Installing { had_target: false }
    }
}

fn swap_failure(prefix: &str, label: &str, suffix: &str, error: &str) -> (message: String)
    ensures
        message@ == failed_text(prefix@ + label@ + suffix@, error@),
{
    let mut what = joined(prefix, label);
    what.append(suffix);
    failed(what.as_str(), error)
}

impl FileSwap {
    /// A replacement that is called `label` towards the user.
    pub fn begin(label: &str) -> (swap: FileSwap)
        ensures
            swap.label@ == label@,
            swap.phase@ == SwapPhaseView::Inspecting,
    {
        FileSwap { label: label.to_owned(), phase: SwapPhase::Inspecting }
    }

    /// What is to be done next.
    pub fn action(&self) -> (action: SwapAction)
        ensures
            action@ == swap_action(self.phase@),
    {
        match &self.phase {
            SwapPhase::Inspecting => SwapAction::Inspect,
            SwapPhase::RemovingStaleBackup { .. } => SwapAction::RemoveBackup,
            SwapPhase::SettingAside => SwapAction::SetAside,
            SwapPhase::Installing { .. } => SwapAction::Install,
            SwapPhase::Restoring { .. } => SwapAction::Restore,
            SwapPhase::RemovingBackup => SwapAction::RemoveBackup,
            SwapPhase::Finished { outcome } => SwapAction::Finish(
                match outcome {
                    Ok(_) => Ok(()),
                    Err(e) => Err(e.clone()),
                },
            ),
        }
    }

    /// Takes what the pending action came to.
    pub fn handle(self, event: SwapEvent) -> (next: FileSwap)
        ensures
            next.label@ == self.label@,
            next.phase@ == swap_next(self.label@, self.phase@, event@),
    {
        let FileSwap { label, phase } = self;
        proof {
            reveal_strlit("");
            assert(""@ + label@ == label@);
        }
        let phase = match (phase, event) {
            (SwapPhase::Inspecting, SwapEvent::Found { target, backup }) => {
                if backup {
                    SwapPhase::RemovingStaleBackup { had_target: target }
                } else {
                    make_room(target)
                }
            },
            (SwapPhase::RemovingStaleBackup { had_target }, SwapEvent::Done(done)) => match done {
                Ok(_) => make_room(had_target),
                Err(e) => SwapPhase::Finished {
                    outcome: Err(failed("清理旧缓存交换文件失败", e.as_str())),
                },
            },
            (SwapPhase::SettingAside, SwapEvent::Done(done)) => match done {
                Ok(_) => SwapPhase::Installing { had_target: true },
                Err(e) => SwapPhase::Finished {
                    outcome: Err(swap_failure("准备", label.as_str(), "失败", e.as_str())),
                },
            },
            (SwapPhase::Installing { had_target }, SwapEvent::Done(done)) => match done {
                Ok(_) => {
                    if had_target {
                        SwapPhase::RemovingBackup
                    } else {
                        SwapPhase::Finished { outcome: Ok(()) }
                    }
                },
                Err(e) => {
                    let error = swap_failure("", label.as_str(), "失败", e.as_str());
                    if had_target {
                        SwapPhase::Restoring { error }
                    } else {
                        SwapPhase::Finished { outcome: Err(error) }
                    }
                },
            },
            (SwapPhase::Restoring { error }, SwapEvent::Done(_)) => SwapPhase::Finished {
                outcome: Err(error),
            },
            (SwapPhase::RemovingBackup, SwapEvent::Done(done)) => match done {
                Ok(_) => SwapPhase::Finished { outcome: Ok(()) },
                Err(e) => SwapPhase::Finished {
                    outcome: Err(
                        swap_failure("", label.as_str(), "成功，但清理旧缓存失败", e.as_str()),
                    ),
                },
            },
            (phase, _) => phase,
        };
        FileSwap { label, phase }
    }
}

/// The three files of a replacement, by their contents.
pub struct SwapFiles<C> {
    pub source: Option<C>,
    pub target: Option<C>,
    pub backup: Option<C>,
}

/// What an action does to the files when it succeeds; one that fails leaves them as they are.
pub open spec fn swapped<C>(files: SwapFiles<C>, action: SwapActionView) -> SwapFiles<C> {
    match action {
        SwapActionView::RemoveBackup => SwapFiles { backup: None, ..files },
        SwapActionView::SetAside => SwapFiles {
            target: None,
            backup: files.target,
            ..files
        },
        SwapActionView::Install => SwapFiles { source: None, target: files.source, ..files },
        SwapActionView::Restore => SwapFiles { target: files.backup, backup: None, ..files },
        _ => files,
    }
}

/// Whether `event` tells truly what `action` came to, and `after` is what it made of `before`.
pub open spec fn truly_happens<C>(
    action: SwapActionView,
    event: SwapEventView,
    before: SwapFiles<C>,
    after: SwapFiles<C>,
) -> bool {
    match event {
        SwapEventView::Found { target, backup } => {
            &&& action is Inspect
            &&& target == before.target is Some
            &&& backup == before.backup is Some
            &&& after == before
        },
        SwapEventView::Done(done) => {
            &&& !(action is Inspect)
            &&& after == (if done is Ok {
                swapped(before, action)
            } else {
                before
            })
        },
    }
}

/// How the files stand in each phase, when `old` was the target and `new` the source.
pub open spec fn files_in_phase<C>(
    phase: SwapPhaseView,
    files: SwapFiles<C>,
    old_file: Option<C>,
    new: C,
) -> bool {
    match phase {
        SwapPhaseView::Inspecting => files.target == old_file && files.source == Some(new),
        SwapPhaseView::RemovingStaleBackup { had_target } => {
            &&& files.target == old_file && files.source == Some(new)
            &&& had_target == old_file is Some
        },
        SwapPhaseView::SettingAside => {
            &&& files.target == old_file && files.source == Some(new)
            &&& old_file is Some && files.backup is None
        },
        SwapPhaseView::Installing { had_target } => {
            &&& files.target is None && files.source == Some(new)
            &&& had_target == old_file is Some
            &&& files.backup == old_file
        },
        SwapPhaseView::Restoring { .. } => {
            &&& files.target is None && files.source == Some(new)
            &&& old_file is Some && files.backup == old_file
        },
        SwapPhaseView::RemovingBackup => files.target == Some(new) && files.source is None,
        SwapPhaseView::Finished { outcome } => {
            &&& outcome is Ok ==> {
                &&& files.target == Some(new)
                &&& files.source is None && files.backup is None
            }
            &&& outcome is Err ==> {
                ||| files.target == Some(new)
                ||| files.source == Some(new) && files.target == old_file
                ||| files.source == Some(new) && old_file is Some && files.backup == old_file
            }
        },
    }
}

/// A replacement loses neither file: at every moment the old one is in its place, set aside, or
/// replaced by the new one. One that succeeds has put the new file in place and left nothing else
/// behind; one that fails has put it in place, or left it where it was and the old one in its
/// place or set aside.
pub proof fn law_replacement_loses_nothing<C>(
    label: Seq<char>,
    phase: SwapPhaseView,
    event: SwapEventView,
    before: SwapFiles<C>,
    after: SwapFiles<C>,
    old_file: Option<C>,
    new: C,
)
    requires
        files_in_phase(phase, before, old_file, new),
        truly_happens(swap_action(phase), event, before, after),
    ensures
        files_in_phase(swap_next(label, phase, event), after, old_file, new),
{
}

/// The extension of the backup of a file with this extension.
pub fn backup_extension(extension: &str) -> (backup: String)
    ensures
        backup@ == extension@ + ".old"@,
{
    joined(extension, ".old")
}

/// The name of the file that takes a value before it replaces `file_name`.
pub fn temporary_name(file_name: &str, process_id: u32) -> (name: String)
    ensures
        name@ == "."@ + file_name@ + "."@ + decimal(process_id as nat) + ".tmp"@,
{
    let mut name = joined(".", file_name);
    name.append(".");
    name.append(number(process_id as u128).as_str());
    name.append(".tmp");
    name
}

/// What writing a value to a file does next.
pub enum WriteAction {
    /// Find the directory of the file.
    FindParent,
    /// Create that directory.
    CreateDirectory,
    /// Serialise the value.
    Serialize,
    /// Write it to the temporary file.
    WriteTemporary,
    /// Replace the file by the temporary one, under this label.
    Replace(String),
    /// The writing is over.
    Finish(Result<(), String>),
}

pub enum WriteActionView {
    FindParent,
    CreateDirectory,
    Serialize,
    WriteTemporary,
    Replace(Seq<char>),
    Finish(Result<(), Seq<char>>),
}

impl View for WriteAction {
    type V = WriteActionView;

    open spec fn view(&self) -> WriteActionView {
        match *self {
            WriteAction::FindParent => WriteActionView::FindParent,
            WriteAction::CreateDirectory => WriteActionView::CreateDirectory,
            WriteAction::Serialize => WriteActionView::Serialize,
            WriteAction::WriteTemporary => WriteActionView::WriteTemporary,
            WriteAction::Replace(label) => WriteActionView::Replace(label@),
            WriteAction::Finish(r) => WriteActionView::Finish(done_result(r)),
        }
    }
}

/// What writing a value to a file is waiting for.
pub enum WritePhase {
    FindingParent,
    CreatingDirectory,
    Serializing,
    WritingTemporary,
    Replacing,
    Finished { outcome: Result<(), String> },
}

pub enum WritePhaseView {
    FindingParent,
    CreatingDirectory,
    Serializing,
    WritingTemporary,
    Replacing,
    Finished { outcome: Result<(), Seq<char>> },
}

impl View for WritePhase {
    type V = WritePhaseView;

    open spec fn view(&self) -> WritePhaseView {
        match *self {
            WritePhase::FindingParent => WritePhaseView::FindingParent,
            WritePhase::CreatingDirectory => WritePhaseView::CreatingDirectory,
            WritePhase::Serializing => WritePhaseView::Serializing,
            WritePhase::WritingTemporary => WritePhaseView::WritingTemporary,
            WritePhase::Replacing => WritePhaseView::Replacing,
            WritePhase::Finished { outcome } => WritePhaseView::Finished {
                outcome: done_result(outcome),
            },
        }
    }
}

pub open spec fn write_action(phase: WritePhaseView) -> WriteActionView {
    match phase {
        WritePhaseView::FindingParent => WriteActionView::FindParent,
        WritePhaseView::CreatingDirectory => WriteActionView::CreateDirectory,
        WritePhaseView::Serializing => WriteActionView::Serialize,
        WritePhaseView::WritingTemporary => WriteActionView::WriteTemporary,
        WritePhaseView::Replacing => WriteActionView::Replace("提交缓存"@),
        WritePhaseView::Finished { outcome } => WriteActionView::Finish(outcome),
    }
}

pub open spec fn write_fails(what: Seq<char>, error: Seq<char>) -> WritePhaseView {
    WritePhaseView::Finished { outcome: Err(failed_text(what, error)) }
}

/// What the outcome of an action leads to. The file itself is touched by the replacement alone,
/// after everything else has succeeded; the outcome of the replacement is the outcome of all.
pub open spec fn write_next(phase: WritePhaseView, done: Result<(), Seq<char>>) -> WritePhaseView {
    match phase {
        WritePhaseView::FindingParent => match done {
            Ok(_) => WritePhaseView::CreatingDirectory,
            Err(_) => WritePhaseView::Finished { outcome: Err("缓存路径无父目录"@) },
        },
        WritePhaseView::CreatingDirectory => match done {
            Ok(_) => WritePhaseView::Serializing,
            Err(e) => write_fails("创建缓存目录失败"@, e),
        },
        WritePhaseView::Serializing => match done {
            Ok(_) => WritePhaseView::WritingTemporary,
            Err(e) => write_fails("序列化缓存失败"@, e),
        },
        WritePhaseView::WritingTemporary => match done {
            Ok(_) => WritePhaseView::Replacing,
            Err(e) => write_fails("写入缓存失败"@, e),
        },
        WritePhaseView::Replacing => WritePhaseView::Finished { outcome: done },
        WritePhaseView::Finished { outcome } => WritePhaseView::Finished { outcome },
    }
}

impl WritePhase {
    /// A write at its start.
    pub fn begin() -> (phase: WritePhase)
        ensures
            phase@ == WritePhaseView::FindingParent,
    {
        WritePhase::FindingParent
    }

    /// What is to be done next.
    pub fn action(&self) -> (action: WriteAction)
        ensures
            action@ == write_action(self@),
    {
        match self {
            WritePhase::FindingParent => WriteAction::FindParent,
            WritePhase::CreatingDirectory => WriteAction::CreateDirectory,
            WritePhase::Serializing => WriteAction::Serialize,
            WritePhase::WritingTemporary => WriteAction::WriteTemporary,
            WritePhase::Replacing => WriteAction::Replace("提交缓存".to_owned()),
            WritePhase::Finished { outcome } => WriteAction::Finish(
                match outcome {
                    Ok(_) => Ok(()),
                    Err(e) => Err(e.clone()),
                },
            ),
        }
    }

    /// Takes what the pending action came to.
    pub fn handle(self, done: Result<(), String>) -> (next: WritePhase)
        ensures
            next@ == write_next(self@, done_result(done)),
    {
        match (self, done) {
            (WritePhase::FindingParent, Ok(_)) => WritePhase::CreatingDirectory,
            (WritePhase::FindingParent, Err(_)) => WritePhase::Finished {
                outcome: Err("缓存路径无父目录".to_owned()),
            },
            (WritePhase::CreatingDirectory, Ok(_)) => WritePhase::Serializing,
            (WritePhase::CreatingDirectory, Err(e)) => WritePhase::Finished {
                outcome: Err(failed("创建缓存目录失败", e.as_str())),
            },
            (WritePhase::Serializing, Ok(_)) => WritePhase::WritingTemporary,
            (WritePhase::Serializing, Err(e)) => WritePhase::Finished {
                outcome: Err(failed("序列化缓存失败", e.as_str())),
            },
            (WritePhase::WritingTemporary, Ok(_)) => WritePhase::Replacing,
            (WritePhase::WritingTemporary, Err(e)) => WritePhase::Finished {
                outcome: Err(failed("写入缓存失败", e.as_str())),
            },
            (WritePhase::Replacing, outcome) => WritePhase::Finished { outcome },
            (finished, _) => finished,
        }
    }
}

/// A replacement goes its way as long as nothing fails: a stale backup is removed, the old file is
/// set aside if there is one, the new one is put in its place, and then the old one is removed. With
/// that it has succeeded.
pub proof fn law_way_of_a_replacement(label: Seq<char>, target: bool, backup: bool)
    ensures
        ({
            let done = SwapEventView::Done(Ok(()));
            let found = swap_next(
                label,
                SwapPhaseView::Inspecting,
                SwapEventView::Found { target, backup },
            );
            let cleared = if backup {
                swap_next(label, found, done)
            } else {
                found
            };
            let installing = if target {
                swap_next(label, cleared, done)
            } else {
                cleared
            };
            let installed = swap_next(label, installing, done);
            let ended = if target {
                swap_next(label, installed, done)
            } else {
                installed
            };
            &&& swap_action(SwapPhaseView::Inspecting) == SwapActionView::Inspect
            &&& backup ==> swap_action(found) == SwapActionView::RemoveBackup
            &&& target ==> swap_action(cleared) == SwapActionView::SetAside
            &&& swap_action(installing) == SwapActionView::Install
            &&& target ==> swap_action(installed) == SwapActionView::RemoveBackup
            &&& swap_action(ended) == SwapActionView::Finish(Ok(()))
        }),
{
}

/// A step that fails ends a replacement with its reason; when the new file cannot be put in place,
/// the old one is put back first.
pub proof fn law_failed_step_ends_the_replacement(
    label: Seq<char>,
    had_target: bool,
    e: Seq<char>,
    restored: Result<(), Seq<char>>,
)
    ensures
        ({
            let failed = SwapEventView::Done(Err(e));
            let ends = |phase: SwapPhaseView, message: Seq<char>|
                swap_action(phase) == SwapActionView::Finish(Err(message));
            let stuck = swap_next(label, SwapPhaseView::Installing { had_target }, failed);
            &&& ends(
                swap_next(label, SwapPhaseView::RemovingStaleBackup { had_target }, failed),
                "清理旧缓存交换文件失败"@ + ": "@ + e,
            )
            &&& ends(
                swap_next(label, SwapPhaseView::SettingAside, failed),
                "准备"@ + label + "失败"@ + ": "@ + e,
            )
            &&& !had_target ==> ends(stuck, label + "失败"@ + ": "@ + e)
            &&& had_target ==> swap_action(stuck) == SwapActionView::Restore && ends(
                swap_next(label, stuck, SwapEventView::Done(restored)),
                label + "失败"@ + ": "@ + e,
            )
            &&& ends(
                swap_next(label, SwapPhaseView::RemovingBackup, failed),
                label + "成功，但清理旧缓存失败"@ + ": "@ + e,
            )
        }),
{
}

/// A value is written by way of a temporary file, which replaces the file at the end: the directory
/// is found and created, the value is serialised and written, and the replacement decides.
pub proof fn law_way_of_a_write(replaced: Result<(), Seq<char>>, e: Seq<char>)
    ensures
        ({
            let p0 = WritePhaseView::FindingParent;
            let p1 = write_next(p0, Ok(()));
            let p2 = write_next(p1, Ok(()));
            let p3 = write_next(p2, Ok(()));
            let p4 = write_next(p3, Ok(()));
            let fails = |phase: WritePhaseView, message: Seq<char>|
                write_action(write_next(phase, Err(e))) == WriteActionView::Finish(Err(message));
            &&& write_action(p0) == WriteActionView::FindParent
            &&& write_action(p1) == WriteActionView::CreateDirectory
            &&& write_action(p2) == WriteActionView::Serialize
            &&& write_action(p3) == WriteActionView::WriteTemporary
            &&& write_action(p4) == WriteActionView::Replace("提交缓存"@)
            &&& write_action(write_next(p4, replaced)) == WriteActionView::Finish(replaced)
            &&& fails(p0, "缓存路径无父目录"@)
            &&& fails(p1, "创建缓存目录失败"@ + ": "@ + e)
            &&& fails(p2, "序列化缓存失败"@ + ": "@ + e)
            &&& fails(p3, "写入缓存失败"@ + ": "@ + e)
        }),
{
}

/// A replacement moves on only by an answer to what it asked for, and one that is over stays so.
pub proof fn law_only_an_answer_moves_a_replacement(
    label: Seq<char>,
    phase: SwapPhaseView,
    event: SwapEventView,
)
    requires
        swap_next(label, phase, event) != phase,
    ensures
        match swap_action(phase) {
            SwapActionView::Inspect => event is Found,
            SwapActionView::Finish(_) => false,
            _ => event is Done,
        },
{
}

}
