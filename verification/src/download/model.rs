//! The course of a download as a transition system, and what holds of every course.

use crate::download::types::{
    DownloadActionView, DownloadEventView, DownloadRequestView, SnapshotReplyView,
};
use crate::endpoint::{save_address, MAX_URL_TEXT};
use crate::http::{
    authorization_value, error_details, is_success_status, refused_text, TransportErrorView,
};
use crate::messages::failed_text;
use crate::names::{is_clean_component, unclean_message};
use crate::process::listing_names_game;
use crate::progress::{percent_of, report, saturated, ProgressView};
use crate::text::decimal;
use crate::upload::model::game_running_message;
use vstd::prelude::*;

verus! {

/// What a download is waiting for. `replaces` says whether there was a local save before.
pub enum DownloadPhaseView {
    /// Which processes run.
    CheckGame,
    /// Whether the directory of the saves is one.
    CheckRoot,
    /// Whether there is a local save of this mode and name.
    CheckTarget,
    /// A network client.
    Connect { replaces: bool },
    /// What the server answers to a request for `url`.
    Request { replaces: bool, url: Seq<char> },
    /// The file that takes the archive.
    CreateArchive { replaces: bool, total: u64 },
    /// More bytes of the archive.
    Receive { replaces: bool, total: u64, downloaded: u64 },
    /// That `count` more bytes are in the file.
    Store { replaces: bool, total: u64, downloaded: u64, count: usize },
    /// That the file is complete.
    Flush { replaces: bool, downloaded: u64 },
    /// The directory of the mode.
    MakeModeDirectory { replaces: bool },
    /// The unpacked save.
    Unpack { replaces: bool },
    /// That the archive is gone; `unpacked` is what the unpacking came to.
    RemoveArchive { replaces: bool, unpacked: Result<(), Seq<char>> },
    /// That the local save is set aside.
    SetAside,
    /// That the new save is in its place.
    MoveIn { replaces: bool },
    /// That the staging directory is gone, before the download fails.
    RemoveStaging { restores: bool, message: Seq<char> },
    /// That the local save is back, before the download fails.
    Restore { message: Seq<char> },
    /// Nothing any more.
    Finished { outcome: Result<Seq<char>, Seq<char>> },
}

/// A download under way.
pub struct DownloadView {
    pub request: DownloadRequestView,
    pub phase: DownloadPhaseView,
}

/// What an event leads to: the next phase, and what is reported on the way.
pub struct DownloadStepView {
    pub phase: DownloadPhaseView,
    pub reports: Seq<ProgressView>,
}

/// The phase changes to `phase`, and nothing is reported.
pub open spec fn download_goes_to(phase: DownloadPhaseView) -> DownloadStepView {
    DownloadStepView { phase, reports: Seq::empty() }
}

/// The phase changes to `phase`, and one report is made.
pub open spec fn download_reports(
    percent: nat,
    message: Seq<char>,
    phase: DownloadPhaseView,
) -> DownloadStepView {
    DownloadStepView { phase, reports: seq![report(percent, message)] }
}

/// The download ends with this message.
pub open spec fn download_fails(message: Seq<char>) -> DownloadStepView {
    download_goes_to(DownloadPhaseView::Finished { outcome: Err(message) })
}

/// After an action that came to `done`: `step`, or the failure of `what`.
pub open spec fn unless_download_failed(
    done: Result<(), Seq<char>>,
    what: Seq<char>,
    step: DownloadStepView,
) -> DownloadStepView {
    match done {
        Ok(_) => step,
        Err(e) => download_fails(failed_text(what, e)),
    }
}

/// After the check for the game.
pub open spec fn after_processes(listing: Option<Seq<char>>) -> DownloadStepView {
    if listing is Some && listing_names_game(listing->0) {
        download_fails(game_running_message())
    } else {
        download_reports(100, "游戏状态检查完成"@, DownloadPhaseView::CheckRoot)
    }
}

/// After the check for the directory of the saves.
pub open spec fn after_root(request: DownloadRequestView, found: bool) -> DownloadStepView {
    if !found {
        download_fails("Saves 目录不存在"@)
    } else if !is_clean_component(request.save_mode) {
        download_fails(unclean_message("远程存档模式"@))
    } else if !is_clean_component(request.save_name) {
        download_fails(unclean_message("远程存档名称"@))
    } else {
        download_goes_to(DownloadPhaseView::CheckTarget)
    }
}

/// After the check for a local save: one is replaced only when the user has confirmed that.
pub open spec fn after_target(request: DownloadRequestView, found: bool) -> DownloadStepView {
    if found && !request.overwrite_confirmed {
        download_fails("本地已存在同名存档，需要确认覆盖后才能下载"@)
    } else {
        download_goes_to(DownloadPhaseView::Connect { replaces: found })
    }
}

/// The address of the requested save.
pub open spec fn snapshot_address(request: DownloadRequestView) -> Result<Seq<char>, Seq<char>> {
    save_address(request.endpoint, "v1/snapshot"@, request.save_mode, request.save_name)
}

/// With a network client, the server is asked, if its address is one.
pub open spec fn asks(request: DownloadRequestView, replaces: bool) -> DownloadStepView {
    match snapshot_address(request) {
        Ok(url) => download_reports(
            0,
            "正在连接 VPS..."@,
            DownloadPhaseView::Request { replaces, url },
        ),
        Err(e) => download_fails(e),
    }
}

/// After the answer of the server.
pub open spec fn after_reply(
    replaces: bool,
    reply: Result<SnapshotReplyView, TransportErrorView>,
) -> DownloadStepView {
    match reply {
        Err(e) => download_fails(failed_text("下载失败"@, error_details(e))),
        Ok(r) => if is_success_status(r.status) {
            download_goes_to(
                DownloadPhaseView::CreateArchive {
                    replaces,
                    total: match r.content_length {
                        Some(n) => n,
                        None => 0,
                    },
                },
            )
        } else {
            download_fails(refused_text("下载失败"@, r.status, r.body))
        },
    }
}

/// The report on the bytes received so far; where no length was announced, the share that they
/// are of it is not known.
pub open spec fn received_report(downloaded: u64, total: u64) -> ProgressView {
    if total == 0 {
        report(0, "正在下载："@ + decimal(downloaded as nat) + " 字节"@)
    } else {
        report(
            percent_of(downloaded as nat, total as nat),
            "正在下载："@ + decimal(downloaded as nat) + "/"@ + decimal(total as nat) + " 字节"@,
        )
    }
}

/// `downloaded` and `count` more.
pub open spec fn more_downloaded(downloaded: u64, count: usize) -> u64 {
    saturated(downloaded as nat + count as nat) as u64
}

/// After some bytes were received, or none any more.
pub open spec fn after_received(
    replaces: bool,
    total: u64,
    downloaded: u64,
    received: Result<usize, Seq<char>>,
) -> DownloadStepView {
    match received {
        Err(e) => download_fails(failed_text("下载数据失败"@, e)),
        Ok(count) => if count == 0 {
            download_goes_to(DownloadPhaseView::Flush { replaces, downloaded })
        } else {
            download_goes_to(DownloadPhaseView::Store { replaces, total, downloaded, count })
        },
    }
}

/// After the archive is removed: an unpacking that failed leaves nothing behind, a local save is
/// set aside, and without one the new save moves in at once.
pub open spec fn after_unpacking(
    replaces: bool,
    unpacked: Result<(), Seq<char>>,
) -> DownloadStepView {
    match unpacked {
        Err(message) => download_goes_to(
            DownloadPhaseView::RemoveStaging { restores: false, message },
        ),
        Ok(_) => download_reports(
            0,
            "正在覆盖本地存档..."@,
            if replaces {
                DownloadPhaseView::SetAside
            } else {
                DownloadPhaseView::MoveIn { replaces }
            },
        ),
    }
}

/// The message of a download that succeeded.
pub open spec fn downloaded_message(request: DownloadRequestView) -> Seq<char> {
    "下载完成："@ + request.save_mode + "/"@ + request.save_name
}

/// After the new save moved in.
pub open spec fn arrives(request: DownloadRequestView) -> DownloadStepView {
    DownloadStepView {
        phase: DownloadPhaseView::Finished { outcome: Ok(downloaded_message(request)) },
        reports: seq![report(100, "本地存档覆盖完成"@), report(100, "存档解压完成"@)],
    }
}

/// After the staging directory is removed.
pub open spec fn after_clearing(restores: bool, message: Seq<char>) -> DownloadStepView {
    if restores {
        download_goes_to(DownloadPhaseView::Restore { message })
    } else {
        download_fails(message)
    }
}

/// What an event leads to; one that does not answer the pending action leads nowhere.
pub open spec fn download_step(s: DownloadView, event: DownloadEventView) -> DownloadStepView {
    match (s.phase, event) {
        (DownloadPhaseView::CheckGame, DownloadEventView::Processes(listing)) => after_processes(
            listing,
        ),
        (DownloadPhaseView::CheckRoot, DownloadEventView::Found(found)) => after_root(
            s.request,
            found,
        ),
        (DownloadPhaseView::CheckTarget, DownloadEventView::Found(found)) => after_target(
            s.request,
            found,
        ),
        (DownloadPhaseView::Connect { replaces }, DownloadEventView::Done(done)) =>
            unless_download_failed(done, "创建网络客户端失败"@, asks(s.request, replaces)),
        (DownloadPhaseView::Request { replaces, .. }, DownloadEventView::Replied(reply)) =>
            after_reply(replaces, reply),
        (DownloadPhaseView::CreateArchive { replaces, total }, DownloadEventView::Done(done)) =>
            unless_download_failed(
            done,
            "创建下载临时文件失败"@,
            download_reports(
                0,
                "正在下载：0/"@ + decimal(total as nat) + " 字节"@,
                DownloadPhaseView::Receive { replaces, total, downloaded: 0 },
            ),
        ),
        (
            DownloadPhaseView::Receive { replaces, total, downloaded },
            DownloadEventView::Received(received),
        ) => after_received(replaces, total, downloaded, received),
        (
            DownloadPhaseView::Store { replaces, total, downloaded, count },
            DownloadEventView::Done(done),
        ) => {
            let downloaded = more_downloaded(downloaded, count);
            unless_download_failed(
                done,
                "保存下载文件失败"@,
                DownloadStepView {
                    phase: DownloadPhaseView::Receive { replaces, total, downloaded },
                    reports: seq![received_report(downloaded, total)],
                },
            )
        },
        (DownloadPhaseView::Flush { replaces, downloaded }, DownloadEventView::Done(done)) =>
            unless_download_failed(
            done,
            "保存下载文件失败"@,
            download_reports(
                100,
                "下载完成："@ + decimal(downloaded as nat) + " 字节"@,
                DownloadPhaseView::MakeModeDirectory { replaces },
            ),
        ),
        (DownloadPhaseView::MakeModeDirectory { replaces }, DownloadEventView::Done(done)) =>
            unless_download_failed(
            done,
            "创建存档模式目录失败"@,
            download_goes_to(DownloadPhaseView::Unpack { replaces }),
        ),
        (DownloadPhaseView::Unpack { replaces }, DownloadEventView::Done(unpacked)) =>
            download_goes_to(DownloadPhaseView::RemoveArchive { replaces, unpacked }),
        (DownloadPhaseView::RemoveArchive { replaces, unpacked }, DownloadEventView::Done(_)) =>
            after_unpacking(replaces, unpacked),
        (DownloadPhaseView::SetAside, DownloadEventView::Done(done)) => match done {
            Ok(_) => download_goes_to(DownloadPhaseView::MoveIn { replaces: true }),
            Err(e) => download_goes_to(
                DownloadPhaseView::RemoveStaging {
                    restores: false,
                    message: failed_text("准备覆盖本地同名存档失败"@, e),
                },
            ),
        },
        (DownloadPhaseView::MoveIn { replaces }, DownloadEventView::Done(done)) => match done {
            Ok(_) => arrives(s.request),
            Err(e) => download_goes_to(
                DownloadPhaseView::RemoveStaging {
                    restores: replaces,
                    message: failed_text("写入下载存档失败"@, e),
                },
            ),
        },
        (DownloadPhaseView::RemoveStaging { restores, message }, DownloadEventView::Done(_)) =>
            after_clearing(restores, message),
        (DownloadPhaseView::Restore { message }, DownloadEventView::Done(_)) => download_fails(
            message,
        ),
        (phase, _) => download_goes_to(phase),
    }
}

/// The download after an event.
pub open spec fn download_next(s: DownloadView, event: DownloadEventView) -> DownloadView {
    DownloadView { phase: download_step(s, event).phase, ..s }
}

/// A download at its start.
pub open spec fn download_start(request: DownloadRequestView) -> DownloadView {
    DownloadView { request, phase: DownloadPhaseView::CheckGame }
}

/// What is to be done next.
pub open spec fn download_action(s: DownloadView) -> DownloadActionView {
    match s.phase {
        DownloadPhaseView::CheckGame => DownloadActionView::ListProcesses,
        DownloadPhaseView::CheckRoot => DownloadActionView::CheckRoot,
        DownloadPhaseView::CheckTarget => DownloadActionView::CheckTarget,
        DownloadPhaseView::Connect { .. } => DownloadActionView::BuildClient,
        DownloadPhaseView::Request { url, .. } => DownloadActionView::Request {
            url,
            authorization: authorization_value(s.request.sync_key),
        },
        DownloadPhaseView::CreateArchive { .. } => DownloadActionView::CreateArchive,
        DownloadPhaseView::Receive { .. } => DownloadActionView::Receive,
        DownloadPhaseView::Store { .. } => DownloadActionView::Store,
        DownloadPhaseView::Flush { .. } => DownloadActionView::Flush,
        DownloadPhaseView::MakeModeDirectory { .. } => DownloadActionView::CreateModeDirectory,
        DownloadPhaseView::Unpack { .. } => DownloadActionView::Unpack,
        DownloadPhaseView::RemoveArchive { .. } => DownloadActionView::RemoveArchive,
        DownloadPhaseView::SetAside => DownloadActionView::SetAside,
        DownloadPhaseView::MoveIn { .. } => DownloadActionView::MoveIn,
        DownloadPhaseView::RemoveStaging { .. } => DownloadActionView::RemoveStaging,
        DownloadPhaseView::Restore { .. } => DownloadActionView::Restore,
        DownloadPhaseView::Finished { outcome } => DownloadActionView::Finish { outcome },
    }
}

/// Whether the address of the requested save fits into a URL.
pub open spec fn fits_in_a_url(request: DownloadRequestView) -> bool {
    request.endpoint.len() + request.save_mode.len() + request.save_name.len() + 28 <= MAX_URL_TEXT
}

/// Whether there was a local save before, once that is known.
pub open spec fn replaces_known(phase: DownloadPhaseView) -> Option<bool> {
    match phase {
        DownloadPhaseView::Connect { replaces } => Some(replaces),
        DownloadPhaseView::Request { replaces, .. } => Some(replaces),
        DownloadPhaseView::CreateArchive { replaces, .. } => Some(replaces),
        DownloadPhaseView::Receive { replaces, .. } => Some(replaces),
        DownloadPhaseView::Store { replaces, .. } => Some(replaces),
        DownloadPhaseView::Flush { replaces, .. } => Some(replaces),
        DownloadPhaseView::MakeModeDirectory { replaces } => Some(replaces),
        DownloadPhaseView::Unpack { replaces } => Some(replaces),
        DownloadPhaseView::RemoveArchive { replaces, .. } => Some(replaces),
        DownloadPhaseView::SetAside => Some(true),
        DownloadPhaseView::MoveIn { replaces } => Some(replaces),
        _ => None,
    }
}

/// What holds of every download: once the checks are behind it, mode and name are clean, and a
/// local save is in the way only if the user has confirmed that it be replaced.
pub open spec fn download_well_formed(s: DownloadView) -> bool {
    replaces_known(s.phase) is Some || s.phase is CheckTarget ==> {
        &&& is_clean_component(s.request.save_mode)
        &&& is_clean_component(s.request.save_name)
        &&& replaces_known(s.phase) == Some(true) ==> s.request.overwrite_confirmed
    }
}

/// A download starts well-formed, and stays so whatever happens.
pub proof fn law_downloads_stay_well_formed(s: DownloadView, event: DownloadEventView)
    ensures
        download_well_formed(download_start(s.request)),
        download_well_formed(s) ==> download_well_formed(download_next(s, event)),
{
}

/// A download starts with the check for the game, and ends there when the game runs.
pub proof fn law_running_game_blocks_download(request: DownloadRequestView, listing: Seq<char>)
    requires
        listing_names_game(listing),
    ensures
        download_action(download_start(request)) == DownloadActionView::ListProcesses,
        download_action(
            download_next(
                download_start(request),
                DownloadEventView::Processes(Some(listing)),
            ),
        ) == (DownloadActionView::Finish { outcome: Err(game_running_message()) }),
{
}

/// Without the confirmation of the user a local save is not replaced: the download ends before the
/// server is asked.
pub proof fn law_unconfirmed_download_is_refused(s: DownloadView)
    requires
        s.phase is CheckTarget,
        !s.request.overwrite_confirmed,
    ensures
        download_action(download_next(s, DownloadEventView::Found(true)))
            == (DownloadActionView::Finish {
            outcome: Err("本地已存在同名存档，需要确认覆盖后才能下载"@),
        }),
{
}

/// The local save, the staging directory and the backup, by their contents.
pub struct SavePlaces<C> {
    pub target: Option<C>,
    pub staging: Option<C>,
    pub backup: Option<C>,
}

/// What an action does to the places when it succeeds; `new` is what the archive unpacks to.
pub open spec fn placed<C>(places: SavePlaces<C>, action: DownloadActionView, new: C) -> SavePlaces<
    C,
> {
    match action {
        DownloadActionView::Unpack => SavePlaces { staging: Some(new), ..places },
        DownloadActionView::SetAside => SavePlaces {
            target: None,
            backup: places.target,
            ..places
        },
        DownloadActionView::MoveIn => SavePlaces { target: places.staging, staging: None, ..places },
        DownloadActionView::RemoveStaging => SavePlaces { staging: None, ..places },
        DownloadActionView::Restore => SavePlaces {
            target: places.backup,
            backup: None,
            ..places
        },
        _ => places,
    }
}

/// Whether `event` tells truly what `action` came to, and `after` is what it made of `before`. An
/// unpacking or a removal that fails may leave anything in the staging directory; any other
/// action that fails leaves the places as they are.
pub open spec fn truly_placed<C>(
    action: DownloadActionView,
    event: DownloadEventView,
    before: SavePlaces<C>,
    after: SavePlaces<C>,
    new: C,
) -> bool {
    match event {
        DownloadEventView::Found(found) => {
            &&& action is CheckTarget ==> found == before.target is Some
            &&& after == before
        },
        DownloadEventView::Done(done) => if done is Ok {
            after == placed(before, action, new)
        } else if action is Unpack || action is RemoveStaging {
            after == (SavePlaces { staging: after.staging, ..before })
        } else {
            after == before
        },
        _ => after == before,
    }
}

/// How the places stand in each phase, when `old_save` was the local save and the archive unpacks
/// to `new`.
pub open spec fn places_in_phase<C>(
    phase: DownloadPhaseView,
    places: SavePlaces<C>,
    old_save: Option<C>,
    new: C,
) -> bool {
    match phase {
        DownloadPhaseView::RemoveArchive { replaces, unpacked } => {
            &&& places.target == old_save
            &&& replaces == old_save is Some
            &&& unpacked is Ok ==> places.staging == Some(new)
        },
        DownloadPhaseView::SetAside => {
            &&& places.target == old_save && old_save is Some
            &&& places.staging == Some(new)
        },
        DownloadPhaseView::MoveIn { replaces } => {
            &&& places.target is None
            &&& places.staging == Some(new)
            &&& replaces == old_save is Some
            &&& replaces ==> places.backup == old_save
        },
        DownloadPhaseView::RemoveStaging { restores, .. } => if restores {
            places.target is None && old_save is Some && places.backup == old_save
        } else {
            places.target == old_save
        },
        DownloadPhaseView::Restore { .. } => places.target is None && old_save is Some
            && places.backup == old_save,
        DownloadPhaseView::Finished { outcome } => {
            &&& outcome is Ok ==> {
                &&& places.target == Some(new)
                &&& old_save is Some ==> places.backup == old_save
            }
            &&& outcome is Err ==> {
                ||| places.target == old_save
                ||| places.target is None && places.backup == old_save
            }
        },
        _ => {
            &&& places.target == old_save
            &&& replaces_known(phase) is Some ==> replaces_known(phase)->0 == old_save is Some
        },
    }
}

/// A download never loses the local save that it replaces: at every moment that save is in its
/// place or in the backup. A download that succeeds has put the new save in its place and kept the
/// old one as the backup; one that fails has not put anything else in the place of the old one.
pub proof fn law_download_keeps_the_old_save<C>(
    s: DownloadView,
    event: DownloadEventView,
    before: SavePlaces<C>,
    after: SavePlaces<C>,
    old_save: Option<C>,
    new: C,
)
    requires
        places_in_phase(s.phase, before, old_save, new),
        truly_placed(download_action(s), event, before, after, new),
    ensures
        places_in_phase(download_next(s, event).phase, after, old_save, new),
        old_save is Some ==> after.target == old_save || after.backup == old_save,
{
}

/// A download that cannot move the new save in ends as if it had not begun, when the removal of
/// the staging directory and the way back succeed: the old save is in its place again.
pub proof fn law_failed_move_is_undone<C>(
    s: DownloadView,
    error: Seq<char>,
    places: SavePlaces<C>,
    old_save: C,
    new: C,
)
    requires
        s.phase == (DownloadPhaseView::MoveIn { replaces: true }),
        places_in_phase(s.phase, places, Some(old_save), new),
    ensures
        ({
            let cleared = download_next(s, DownloadEventView::Done(Err(error)));
            let restored = download_next(cleared, DownloadEventView::Done(Ok(())));
            let ended = download_next(restored, DownloadEventView::Done(Ok(())));
            let without_staging = placed(places, download_action(cleared), new);
            let put_back = placed(without_staging, download_action(restored), new);
            &&& download_action(cleared) == DownloadActionView::RemoveStaging
            &&& download_action(restored) == DownloadActionView::Restore
            &&& put_back.target == Some(old_save)
            &&& put_back.staging is None
            &&& ended.phase == (DownloadPhaseView::Finished {
                outcome: Err(failed_text("写入下载存档失败"@, error)),
            })
        }),
{
}

/// A download succeeds only by moving the new save in.
pub proof fn law_success_moves_the_save_in(s: DownloadView, event: DownloadEventView)
    requires
        !(s.phase is Finished),
        download_next(s, event).phase is Finished,
        download_next(s, event).phase->outcome is Ok,
    ensures
        s.phase is MoveIn,
        event matches DownloadEventView::Done(done) && done is Ok,
{
}

/// The first `n` of `counts` together.
pub open spec fn received_bytes(counts: Seq<usize>, n: nat) -> nat
    decreases n,
{
    if n == 0 {
        0
    } else {
        received_bytes(counts, (n - 1) as nat) + counts[n - 1] as nat
    }
}

/// A download after `n` portions of these sizes have been received and stored.
pub open spec fn after_portions(s: DownloadView, counts: Seq<usize>, n: nat) -> DownloadView
    decreases n,
{
    if n == 0 {
        s
    } else {
        download_next(
            download_next(
                after_portions(s, counts, (n - 1) as nat),
                DownloadEventView::Received(Ok(counts[n - 1])),
            ),
            DownloadEventView::Done(Ok(())),
        )
    }
}

/// What is reported as downloaded is what was received: after any number of portions, the count is
/// the sum of their sizes, as far as it can be counted.
pub proof fn law_received_bytes_add_up(
    s: DownloadView,
    counts: Seq<usize>,
    n: nat,
    replaces: bool,
    total: u64,
)
    requires
        s.phase == (DownloadPhaseView::Receive { replaces, total, downloaded: 0 }),
        n <= counts.len(),
        forall|k: int| 0 <= k < counts.len() ==> counts[k] > 0,
    ensures
        after_portions(s, counts, n).phase == (DownloadPhaseView::Receive {
            replaces,
            total,
            downloaded: saturated(received_bytes(counts, n)) as u64,
        }),
    decreases n,
{
    if n > 0 {
        law_received_bytes_add_up(s, counts, (n - 1) as nat, replaces, total);
    }
}

}
