//! What a download asks for, and what it makes of each answer.

use crate::download::model::{
    download_action, download_next, download_start, download_step, DownloadPhaseView, DownloadView,
};
use crate::download::types::{
    DownloadActionView, DownloadEventView, DownloadRequestView, SnapshotReplyView,
};
use crate::endpoint::{law_save_address_names_the_save, url_parse, url_with_pairs};
use crate::http::{error_details, refused_text, TransportErrorView};
use crate::names::is_clean_component;
use crate::process::listing_names_game;
use crate::progress::{percent_of, ProgressView};
use crate::text::{decimal, trim_end_char};
use vstd::prelude::*;

verus! {

/// A download that nothing stands in the way of asks the server for exactly the requested save: at
/// `v1/snapshot`, with the mode and the name as they are, under the key of the user. A local save
/// stands in the way only when the user has not confirmed that it be replaced.
pub proof fn law_download_asks_for_the_save(
    request: DownloadRequestView,
    listing: Option<Seq<char>>,
    replaces: bool,
)
    requires
        listing is Some ==> !listing_names_game(listing->0),
        is_clean_component(request.save_mode),
        is_clean_component(request.save_name),
        replaces ==> request.overwrite_confirmed,
    ensures
        ({
            let url = trim_end_char(request.endpoint, '/') + seq!['/'] + "v1/snapshot"@;
            let s0 = download_start(request);
            let s1 = download_next(s0, DownloadEventView::Processes(listing));
            let s2 = download_next(s1, DownloadEventView::Found(true));
            let s3 = download_next(s2, DownloadEventView::Found(replaces));
            let s4 = download_next(s3, DownloadEventView::Done(Ok(())));
            &&& download_action(s0) == DownloadActionView::ListProcesses
            &&& download_action(s1) == DownloadActionView::CheckRoot
            &&& download_action(s2) == DownloadActionView::CheckTarget
            &&& download_action(s3) == DownloadActionView::BuildClient
            &&& match url_parse(url) {
                Ok(_) => {
                    let address = url_with_pairs(
                        url,
                        "saveMode"@,
                        request.save_mode,
                        "saveName"@,
                        request.save_name,
                    );
                    &&& download_action(s4) == (DownloadActionView::Request {
                        url: address,
                        authorization: "Bearer "@ + request.sync_key,
                    })
                    &&& s4.phase == (DownloadPhaseView::Request { replaces, url: address })
                    &&& s4.request == request
                },
                Err(e) => download_action(s4) == (DownloadActionView::Finish {
                    outcome: Err("VPS API 地址无效"@ + ": "@ + e),
                }),
            }
        }),
{
    reveal_strlit("v1/snapshot");
    law_save_address_names_the_save(
        request.endpoint,
        "v1/snapshot"@,
        request.save_mode,
        request.save_name,
    );
}

/// What the server sends is received to its end, stored, unpacked beside the saves and moved in; a
/// local save is set aside right before that, and nothing else happens to it.
pub proof fn law_way_of_a_download(
    request: DownloadRequestView,
    replaces: bool,
    url: Seq<char>,
    reply: SnapshotReplyView,
    total: u64,
    downloaded: u64,
    count: usize,
    removed: Result<(), Seq<char>>,
)
    requires
        200 <= reply.status <= 299,
        count > 0,
    ensures
        ({
            let done = DownloadEventView::Done(Ok(()));
            let asked = DownloadView {
                request,
                phase: DownloadPhaseView::Request { replaces, url },
            };
            let creating = download_next(asked, DownloadEventView::Replied(Ok(reply)));
            let begun = download_next(creating, done);
            let receiving = DownloadView {
                request,
                phase: DownloadPhaseView::Receive { replaces, total, downloaded },
            };
            let storing = download_next(receiving, DownloadEventView::Received(Ok(count)));
            let stored = download_next(storing, done);
            let flushing = download_next(receiving, DownloadEventView::Received(Ok(0)));
            let making = download_next(flushing, done);
            let unpacking = download_next(making, done);
            let removing = download_next(unpacking, done);
            let after = download_next(removing, DownloadEventView::Done(removed));
            let moving = if replaces {
                download_next(after, done)
            } else {
                after
            };
            let ended = download_next(moving, done);
            &&& download_action(creating) == DownloadActionView::CreateArchive
            &&& begun.phase matches DownloadPhaseView::Receive {
                replaces: same,
                total: announced,
                downloaded: none,
            }
            &&& same == replaces && none == 0
            &&& announced == (match reply.content_length {
                Some(n) => n,
                None => 0u64,
            })
            &&& download_action(begun) == DownloadActionView::Receive
            &&& download_action(storing) == DownloadActionView::Store
            &&& stored.phase matches DownloadPhaseView::Receive {
                replaces: still,
                total: same_total,
                downloaded: now,
            }
            &&& still == replaces && same_total == total
            &&& downloaded + count <= u64::MAX ==> now == downloaded + count
            &&& download_action(flushing) == DownloadActionView::Flush
            &&& download_action(making) == DownloadActionView::CreateModeDirectory
            &&& download_action(unpacking) == DownloadActionView::Unpack
            &&& download_action(removing) == DownloadActionView::RemoveArchive
            &&& replaces ==> download_action(after) == DownloadActionView::SetAside
            &&& download_action(moving) == DownloadActionView::MoveIn
            &&& download_action(ended) == (DownloadActionView::Finish {
                outcome: Ok("下载完成："@ + request.save_mode + "/"@ + request.save_name),
            })
        }),
{
}

/// A download goes no further than a check that it does not pass.
pub proof fn law_unfit_download_is_refused(request: DownloadRequestView, found: bool)
    ensures
        ({
            let root = DownloadView { request, phase: DownloadPhaseView::CheckRoot };
            let target = DownloadView { request, phase: DownloadPhaseView::CheckTarget };
            &&& download_action(download_next(root, DownloadEventView::Found(false)))
                == (DownloadActionView::Finish { outcome: Err("Saves 目录不存在"@) })
            &&& !is_clean_component(request.save_mode) ==> download_action(
                download_next(root, DownloadEventView::Found(true)),
            ) == (DownloadActionView::Finish { outcome: Err("无效的 "@ + "远程存档模式"@) })
            &&& is_clean_component(request.save_mode) && !is_clean_component(request.save_name)
                ==> download_action(download_next(root, DownloadEventView::Found(true)))
                == (DownloadActionView::Finish { outcome: Err("无效的 "@ + "远程存档名称"@) })
            &&& download_action(download_next(target, DownloadEventView::Found(found))) is Finish
                <==> found && !request.overwrite_confirmed
        }),
{
}

/// A step that fails ends the download with its reason; one that fails after the archive was
/// unpacked does so only when the staging directory is removed.
pub proof fn law_failed_step_ends_the_download(
    request: DownloadRequestView,
    replaces: bool,
    url: Seq<char>,
    total: u64,
    downloaded: u64,
    count: usize,
    reply: SnapshotReplyView,
    error: TransportErrorView,
    e: Seq<char>,
    removed: Result<(), Seq<char>>,
)
    requires
        reply.status < 200 || reply.status > 299,
    ensures
        ({
            let next = |phase: DownloadPhaseView, event: DownloadEventView|
                download_next(DownloadView { request, phase }, event);
            let ends = |s: DownloadView, message: Seq<char>|
                s.phase == (DownloadPhaseView::Finished { outcome: Err(message) });
            let failed = DownloadEventView::Done(Err(e));
            let over = DownloadEventView::Done(removed);
            let asked = DownloadPhaseView::Request { replaces, url };
            &&& ends(
                next(DownloadPhaseView::Connect { replaces }, failed),
                "创建网络客户端失败"@ + ": "@ + e,
            )
            &&& ends(
                next(asked, DownloadEventView::Replied(Err(error))),
                "下载失败"@ + ": "@ + error_details(error),
            )
            &&& ends(
                next(asked, DownloadEventView::Replied(Ok(reply))),
                refused_text("下载失败"@, reply.status, reply.body),
            )
            &&& ends(
                next(DownloadPhaseView::CreateArchive { replaces, total }, failed),
                "创建下载临时文件失败"@ + ": "@ + e,
            )
            &&& ends(
                next(
                    DownloadPhaseView::Receive { replaces, total, downloaded },
                    DownloadEventView::Received(Err(e)),
                ),
                "下载数据失败"@ + ": "@ + e,
            )
            &&& ends(
                next(DownloadPhaseView::Store { replaces, total, downloaded, count }, failed),
                "保存下载文件失败"@ + ": "@ + e,
            )
            &&& ends(
                next(DownloadPhaseView::Flush { replaces, downloaded }, failed),
                "保存下载文件失败"@ + ": "@ + e,
            )
            &&& ends(
                next(DownloadPhaseView::MakeModeDirectory { replaces }, failed),
                "创建存档模式目录失败"@ + ": "@ + e,
            )
            &&& ({
                let removing = next(DownloadPhaseView::Unpack { replaces }, failed);
                let clearing = download_next(removing, over);
                &&& download_action(removing) == DownloadActionView::RemoveArchive
                &&& download_action(clearing) == DownloadActionView::RemoveStaging
                &&& ends(download_next(clearing, over), e)
            })
            &&& ({
                let clearing = next(DownloadPhaseView::SetAside, failed);
                &&& download_action(clearing) == DownloadActionView::RemoveStaging
                &&& ends(
                    download_next(clearing, over),
                    "准备覆盖本地同名存档失败"@ + ": "@ + e,
                )
            })
            &&& ({
                let clearing = next(DownloadPhaseView::MoveIn { replaces }, failed);
                let cleared = download_next(clearing, over);
                &&& download_action(clearing) == DownloadActionView::RemoveStaging
                &&& !replaces ==> ends(cleared, "写入下载存档失败"@ + ": "@ + e)
                &&& replaces ==> download_action(cleared) == DownloadActionView::Restore && ends(
                    download_next(cleared, over),
                    "写入下载存档失败"@ + ": "@ + e,
                )
            })
        }),
{
}

/// While a download receives, it reports how much of the announced length it has stored, or how
/// much it has stored when no length was announced.
pub proof fn law_reported_part_is_what_is_stored(
    request: DownloadRequestView,
    replaces: bool,
    total: u64,
    downloaded: u64,
    count: usize,
)
    requires
        downloaded + count <= u64::MAX,
    ensures
        ({
            let s = DownloadView {
                request,
                phase: DownloadPhaseView::Store { replaces, total, downloaded, count },
            };
            let reports = download_step(s, DownloadEventView::Done(Ok(()))).reports;
            let now = (downloaded + count) as nat;
            &&& reports.len() == 1
            &&& total > 0 ==> {
                &&& reports[0].percent == percent_of(now, total as nat)
                &&& reports[0].message == "正在下载："@ + decimal(now) + "/"@ + decimal(total as nat)
                    + " 字节"@
            }
            &&& total == 0 ==> {
                &&& reports[0].percent == 0
                &&& reports[0].message == "正在下载："@ + decimal(now) + " 字节"@
            }
        }),
{
}

/// While the game runs, the user is asked to leave it first, and a download does nothing else;
/// without it, a download goes on to the directory of the saves.
pub proof fn law_game_must_be_left_before_a_download(
    request: DownloadRequestView,
    listing: Seq<char>,
)
    ensures
        ({
            let next = download_next(
                download_start(request),
                DownloadEventView::Processes(Some(listing)),
            );
            if listing_names_game(listing) {
                download_action(next) == (DownloadActionView::Finish {
                    outcome: Err("检测到 Project Zomboid 正在运行，请先退出游戏"@),
                })
            } else {
                download_action(next) == DownloadActionView::CheckRoot
            }
        }),
{
}

/// A download moves on only by an answer to what it asked for; anything else leaves it as it is, and
/// a download that is over stays so.
pub proof fn law_only_an_answer_moves_a_download(s: DownloadView, event: DownloadEventView)
    requires
        download_next(s, event) != s,
    ensures
        match download_action(s) {
            DownloadActionView::ListProcesses => event is Processes,
            DownloadActionView::CheckRoot => event is Found,
            DownloadActionView::CheckTarget => event is Found,
            DownloadActionView::Request { .. } => event is Replied,
            DownloadActionView::Receive => event is Received,
            DownloadActionView::Finish { .. } => false,
            _ => event is Done,
        },
        download_next(s, event).request == s.request,
{
}

/// Each stage of a download is reported when it begins or ends.
pub proof fn law_stages_of_a_download_are_reported(
    request: DownloadRequestView,
    listing: Option<Seq<char>>,
    replaces: bool,
    total: u64,
    downloaded: u64,
    removed: Result<(), Seq<char>>,
)
    requires
        listing is Some ==> !listing_names_game(listing->0),
    ensures
        ({
            let reports = |phase: DownloadPhaseView, event: DownloadEventView|
                download_step(DownloadView { request, phase }, event).reports;
            let told = |percent: nat, message: Seq<char>| ProgressView { percent, message };
            let done = DownloadEventView::Done(Ok(()));
            &&& reports(DownloadPhaseView::CheckGame, DownloadEventView::Processes(listing))
                == seq![told(100, "游戏状态检查完成"@)]
            &&& reports(DownloadPhaseView::CreateArchive { replaces, total }, done) == seq![
                told(0, "正在下载：0/"@ + decimal(total as nat) + " 字节"@),
            ]
            &&& reports(DownloadPhaseView::Flush { replaces, downloaded }, done) == seq![
                told(100, "下载完成："@ + decimal(downloaded as nat) + " 字节"@),
            ]
            &&& reports(
                DownloadPhaseView::RemoveArchive { replaces, unpacked: Ok(()) },
                DownloadEventView::Done(removed),
            ) == seq![told(0, "正在覆盖本地存档..."@)]
            &&& reports(DownloadPhaseView::MoveIn { replaces }, done) == seq![
                told(100, "本地存档覆盖完成"@),
                told(100, "存档解压完成"@),
            ]
        }),
{
}

}
