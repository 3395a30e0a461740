//! The executable course of a download.

use crate::download::model::{
    after_processes, after_received, after_reply, after_root, after_target, after_unpacking,
    arrives, asks, download_action, download_fails, download_goes_to, download_next,
    download_reports, download_start, download_step, fits_in_a_url, more_downloaded,
    received_report, DownloadPhaseView, DownloadStepView, DownloadView,
};
use crate::download::types::{DownloadAction, DownloadEvent, DownloadRequest, SnapshotReply};
use crate::endpoint::{fit_in_a_url, save_url};
use crate::http::{
    authorization, is_success, refused, request_error_details, HttpReply, TransportError,
};
use crate::messages::failed;
use crate::names::clean_component;
use crate::process::game_is_running;
use crate::progress::{
    and_report, no_reports, one_report, report, report_views, stage_percent, UploadProgress,
};
use crate::text::{copy_result, done_result, joined, number, text_option, text_result};
use vstd::prelude::*;

verus! {

/// What a download is waiting for.
enum Phase {
    CheckGame,
    CheckRoot,
    CheckTarget,
    Connect { replaces: bool },
    Request { replaces: bool, url: String },
    CreateArchive { replaces: bool, total: u64 },
    Receive { replaces: bool, total: u64, downloaded: u64 },
    Store { replaces: bool, total: u64, downloaded: u64, count: usize },
    Flush { replaces: bool, downloaded: u64 },
    MakeModeDirectory { replaces: bool },
    Unpack { replaces: bool },
    RemoveArchive { replaces: bool, unpacked: Result<(), String> },
    SetAside,
    MoveIn { replaces: bool },
    RemoveStaging { restores: bool, message: String },
    Restore { message: String },
    Finished { outcome: Result<String, String> },
}

impl View for Phase {
    type V = DownloadPhaseView;

    closed spec fn view(&self) -> DownloadPhaseView {
        match *self {
            Phase::CheckGame => DownloadPhaseView::CheckGame,
            Phase::CheckRoot => DownloadPhaseView::CheckRoot,
            Phase::CheckTarget => DownloadPhaseView::CheckTarget,
            Phase::Connect { replaces } => DownloadPhaseView::Connect { replaces },
            Phase::Request { replaces, url } => DownloadPhaseView::Request { replaces, url: url@ },
            Phase::CreateArchive { replaces, total } => DownloadPhaseView::CreateArchive {
                replaces,
                total,
            },
            Phase::Receive { replaces, total, downloaded } => DownloadPhaseView::Receive {
                replaces,
                total,
                downloaded,
            },
            Phase::Store { replaces, total, downloaded, count } => DownloadPhaseView::Store {
                replaces,
                total,
                downloaded,
                count,
            },
            Phase::Flush { replaces, downloaded } => DownloadPhaseView::Flush {
                replaces,
                downloaded,
            },
            Phase::MakeModeDirectory { replaces } => DownloadPhaseView::MakeModeDirectory {
                replaces,
            },
            Phase::Unpack { replaces } => DownloadPhaseView::Unpack { replaces },
            Phase::RemoveArchive { replaces, unpacked } => DownloadPhaseView::RemoveArchive {
                replaces,
                unpacked: done_result(unpacked),
            },
            Phase::SetAside => DownloadPhaseView::SetAside,
            Phase::MoveIn { replaces } => DownloadPhaseView::MoveIn { replaces },
            Phase::RemoveStaging { restores, message } => DownloadPhaseView::RemoveStaging {
                restores,
                message: message@,
            },
            Phase::Restore { message } => DownloadPhaseView::Restore { message: message@ },
            Phase::Finished { outcome } => DownloadPhaseView::Finished {
                outcome: text_result(outcome),
            },
        }
    }
}

/// A phase together with the reports made on the way to it.
struct Step {
    phase: Phase,
    reports: Vec<UploadProgress>,
}

impl View for Step {
    type V = DownloadStepView;

    closed spec fn view(&self) -> DownloadStepView {
        DownloadStepView { phase: self.phase@, reports: report_views(self.reports@) }
    }
}

fn go_to(phase: Phase) -> (step: Step)
    ensures
        step@ == download_goes_to(phase@),
{
    Step { phase, reports: no_reports() }
}

fn report_and_go_to(percent: u8, message: String, phase: Phase) -> (step: Step)
    ensures
        step@ == download_reports(percent as nat, message@, phase@),
{
    Step { phase, reports: one_report(percent, message) }
}

fn fail(message: String) -> (step: Step)
    ensures
        step@ == download_fails(message@),
{
    go_to(Phase::Finished { outcome: Err(message) })
}

fn check_game(listing: &Option<String>) -> (step: Step)
    ensures
        step@ == after_processes(text_option(*listing)),
{
    if game_is_running(listing) {
        fail("检测到 Project Zomboid 正在运行，请先退出游戏".to_owned())
    } else {
        report_and_go_to(100, "游戏状态检查完成".to_owned(), Phase::CheckRoot)
    }
}

fn check_root(request: &DownloadRequest, found: bool) -> (step: Step)
    ensures
        step@ == after_root(request@, found),
{
    if !found {
        return fail("Saves 目录不存在".to_owned());
    }
    match clean_component(request.save_mode.as_str(), "远程存档模式") {
        Err(e) => fail(e),
        Ok(_) => match clean_component(request.save_name.as_str(), "远程存档名称") {
            Err(e) => fail(e),
            Ok(_) => go_to(Phase::CheckTarget),
        },
    }
}

fn check_target(request: &DownloadRequest, found: bool) -> (step: Step)
    ensures
        step@ == after_target(request@, found),
{
    if found && !request.overwrite_confirmed {
        fail("本地已存在同名存档，需要确认覆盖后才能下载".to_owned())
    } else {
        go_to(Phase::Connect { replaces: found })
    }
}

fn ask(request: &DownloadRequest, replaces: bool) -> (step: Step)
    requires
        fits_in_a_url(request@),
    ensures
        step@ == asks(request@, replaces),
{
    proof {
        reveal_strlit("v1/snapshot");
    }
    match save_url(
        request.endpoint.as_str(),
        "v1/snapshot",
        request.save_mode.as_str(),
        request.save_name.as_str(),
    ) {
        Ok(url) => report_and_go_to(
            0,
            "正在连接 VPS...".to_owned(),
            Phase::Request { replaces, url },
        ),
        Err(e) => fail(e),
    }
}

fn follow_reply(replaces: bool, reply: Result<SnapshotReply, TransportError>) -> (step: Step)
    ensures
        step@ == after_reply(
            replaces,
            match reply {
                Ok(r) => Ok(r@),
                Err(e) => Err(e@),
            },
        ),
{
    match reply {
        Err(e) => fail(failed("下载失败", request_error_details(&e).as_str())),
        Ok(r) => {
            if is_success(r.status) {
                let total: u64 = match r.content_length {
                    Some(n) => n,
                    None => 0,
                };
                go_to(Phase::CreateArchive { replaces, total })
            } else {
                fail(refused("下载失败", &HttpReply { status: r.status, body: r.body }))
            }
        },
    }
}

fn report_received(downloaded: u64, total: u64) -> (reports: Vec<UploadProgress>)
    ensures
        report_views(reports@) == seq![received_report(downloaded, total)],
{
    let mut message = joined("正在下载：", number(downloaded as u128).as_str());
    if total == 0 {
        message.append(" 字节");
        one_report(0, message)
    } else {
        message.append("/");
        message.append(number(total as u128).as_str());
        message.append(" 字节");
        one_report(stage_percent(downloaded, total), message)
    }
}

fn follow_received(
    replaces: bool,
    total: u64,
    downloaded: u64,
    received: Result<usize, String>,
) -> (step: Step)
    ensures
        step@ == after_received(
            replaces,
            total,
            downloaded,
            match received {
                Ok(n) => Ok(n),
                Err(e) => Err(e@),
            },
        ),
{
    match received {
        Err(e) => fail(failed("下载数据失败", e.as_str())),
        Ok(count) => {
            if count == 0 {
                go_to(Phase::Flush { replaces, downloaded })
            } else {
                go_to(Phase::Store { replaces, total, downloaded, count })
            }
        },
    }
}

fn add_count(downloaded: u64, count: usize) -> (sum: u64)
    ensures
        sum == more_downloaded(downloaded, count),
{
    downloaded.saturating_add(count as u64)
}

fn follow_unpacking(replaces: bool, unpacked: Result<(), String>) -> (step: Step)
    ensures
        step@ == after_unpacking(replaces, done_result(unpacked)),
{
    match unpacked {
        Err(message) => go_to(Phase::RemoveStaging { restores: false, message }),
        Ok(_) => report_and_go_to(
            0,
            "正在覆盖本地存档...".to_owned(),
            if replaces {
                Phase::SetAside
            } else {
                Phase::MoveIn { replaces }
            },
        ),
    }
}

fn arrive(request: &DownloadRequest) -> (step: Step)
    ensures
        step@ == arrives(request@),
{
    let mut message = joined("下载完成：", request.save_mode.as_str());
    message.append("/");
    message.append(request.save_name.as_str());
    let reports = and_report(
        one_report(100, "本地存档覆盖完成".to_owned()),
        100,
        "存档解压完成".to_owned(),
    );
    assert(report_views(reports@) == arrives(request@).reports);
    Step { phase: Phase::Finished { outcome: Ok(message) }, reports }
}

impl DownloadRequest {
    /// Whether the address of the requested save fits into a URL.
    pub fn fits_in_a_url(&self) -> (fits: bool)
        ensures
            fits == fits_in_a_url(self@),
    {
        fit_in_a_url(
            self.endpoint.as_str(),
            self.save_mode.as_str(),
            self.save_name.as_str(),
            28,
        )
    }
}

/// A download under way.
pub struct Download {
    request: DownloadRequest,
    phase: Phase,
}

impl View for Download {
    type V = DownloadView;

    closed spec fn view(&self) -> DownloadView {
        DownloadView { request: self.request@, phase: self.phase@ }
    }
}

impl Download {
    #[verifier::type_invariant]
    spec fn is_well_formed(self) -> bool {
        fits_in_a_url(self.request@)
    }

    /// Starts a download, and gives what is to be reported.
    pub fn begin(request: DownloadRequest) -> (res: (Download, Vec<UploadProgress>))
        requires
            fits_in_a_url(request@),
        ensures
            res.0@ == download_start(request@),
            report_views(res.1@) == seq![report(0, "正在检查游戏状态..."@)],
    {
        (
            Download { request, phase: Phase::CheckGame },
            one_report(0, "正在检查游戏状态...".to_owned()),
        )
    }

    /// What is to be done next.
    pub fn action(&self) -> (action: DownloadAction)
        ensures
            action@ == download_action(self@),
    {
        match &self.phase {
            Phase::CheckGame => DownloadAction::ListProcesses,
            Phase::CheckRoot => DownloadAction::CheckRoot,
            Phase::CheckTarget => DownloadAction::CheckTarget,
            Phase::Connect { .. } => DownloadAction::BuildClient,
            Phase::Request { url, .. } => DownloadAction::Request {
                url: url.clone(),
                authorization: authorization(self.request.sync_key.as_str()),
            },
            Phase::CreateArchive { .. } => DownloadAction::CreateArchive,
            Phase::Receive { .. } => DownloadAction::Receive,
            Phase::Store { .. } => DownloadAction::Store,
            Phase::Flush { .. } => DownloadAction::Flush,
            Phase::MakeModeDirectory { .. } => DownloadAction::CreateModeDirectory,
            Phase::Unpack { .. } => DownloadAction::Unpack,
            Phase::RemoveArchive { .. } => DownloadAction::RemoveArchive,
            Phase::SetAside => DownloadAction::SetAside,
            Phase::MoveIn { .. } => DownloadAction::MoveIn,
            Phase::RemoveStaging { .. } => DownloadAction::RemoveStaging,
            Phase::Restore { .. } => DownloadAction::Restore,
            Phase::Finished { outcome } => DownloadAction::Finish { outcome: copy_result(outcome) },
        }
    }

    /// Takes what the pending action came to, and gives what is to be reported.
    pub fn handle(self, event: DownloadEvent) -> (res: (Download, Vec<UploadProgress>))
        ensures
            res.0@ == download_next(self@, event@),
            report_views(res.1@) == download_step(self@, event@).reports,
    {
        proof {
            use_type_invariant(&self);
        }
        let Download { request, phase } = self;
        let step = match (phase, event) {
            (Phase::CheckGame, DownloadEvent::Processes(listing)) => check_game(&listing),
            (Phase::CheckRoot, DownloadEvent::Found(found)) => check_root(&request, found),
            (Phase::CheckTarget, DownloadEvent::Found(found)) => check_target(&request, found),
            (Phase::Connect { replaces }, DownloadEvent::Done(done)) => match done {
                Ok(_) => ask(&request, replaces),
                Err(e) => fail(failed("创建网络客户端失败", e.as_str())),
            },
            (Phase::Request { replaces, .. }, DownloadEvent::Replied(reply)) => follow_reply(
                replaces,
                reply,
            ),
            (Phase::CreateArchive { replaces, total }, DownloadEvent::Done(done)) => match done {
                Ok(_) => {
                    let mut message = joined("正在下载：0/", number(total as u128).as_str());
                    message.append(" 字节");
                    report_and_go_to(0, message, Phase::Receive { replaces, total, downloaded: 0 })
                },
                Err(e) => fail(failed("创建下载临时文件失败", e.as_str())),
            },
            (Phase::Receive { replaces, total, downloaded }, DownloadEvent::Received(received)) =>
                follow_received(replaces, total, downloaded, received),
            (Phase::Store { replaces, total, downloaded, count }, DownloadEvent::Done(done)) =>
                match done {
                Ok(_) => {
                    let sum = add_count(downloaded, count);
                    Step {
                        phase: Phase::Receive { replaces, total, downloaded: sum },
                        reports: report_received(sum, total),
                    }
                },
                Err(e) => fail(failed("保存下载文件失败", e.as_str())),
            },
            (Phase::Flush { replaces, downloaded }, DownloadEvent::Done(done)) => match done {
                Ok(_) => {
                    let mut message = joined("下载完成：", number(downloaded as u128).as_str());
                    message.append(" 字节");
                    report_and_go_to(100, message, Phase::MakeModeDirectory { replaces })
                },
                Err(e) => fail(failed("保存下载文件失败", e.as_str())),
            },
            (Phase::MakeModeDirectory { replaces }, DownloadEvent::Done(done)) => match done {
                Ok(_) => go_to(Phase::Unpack { replaces }),
                Err(e) => fail(failed("创建存档模式目录失败", e.as_str())),
            },
            (Phase::Unpack { replaces }, DownloadEvent::Done(unpacked)) => go_to(
                Phase::RemoveArchive { replaces, unpacked },
            ),
            (Phase::RemoveArchive { replaces, unpacked }, DownloadEvent::Done(_)) =>
                follow_unpacking(replaces, unpacked),
            (Phase::SetAside, DownloadEvent::Done(done)) => match done {
                Ok(_) => go_to(Phase::MoveIn { replaces: true }),
                Err(e) => go_to(
                    Phase::RemoveStaging {
                        restores: false,
                        message: failed("准备覆盖本地同名存档失败", e.as_str()),
                    },
                ),
            },
            (Phase::MoveIn { replaces }, DownloadEvent::Done(done)) => match done {
                Ok(_) => arrive(&request),
                Err(e) => go_to(
                    Phase::RemoveStaging {
                        restores: replaces,
                        message: failed("写入下载存档失败", e.as_str()),
                    },
                ),
            },
            (Phase::RemoveStaging { restores, message }, DownloadEvent::Done(_)) => {
                if restores {
                    go_to(Phase::Restore { message })
                } else {
                    fail(message)
                }
            },
            (Phase::Restore { message }, DownloadEvent::Done(_)) => fail(message),
            (phase, _) => go_to(phase),
        };
        (Download { request, phase: step.phase }, step.reports)
    }
}

}
