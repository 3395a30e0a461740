//! The saves that the server holds: listing them, and deleting one.

use crate::endpoint::{
    api_address, api_url, fit_in_a_url, law_address_joins_endpoint_and_path,
    law_save_address_names_the_save, save_address, save_url, url_parse, url_with_pairs,
    MAX_URL_TEXT,
};
use crate::http::{
    authorization, authorization_value, error_details, is_success, is_success_status, outcome_view,
    refused, refused_text, request_error_details, Outcome, OutcomeView,
};
use crate::messages::{failed, failed_text};
use crate::names::{clean_component, is_clean_component, unclean_message};
use crate::text::{copy_result, done_result, joined, text_option, text_result, trim_end_char};
use vstd::prelude::*;

verus! {

/// A save on the server.
#[derive(Debug, PartialEq, Eq)]
pub struct RemoteManifest {
    pub exists: bool,
    pub bytes: Option<u64>,
    pub updated_at: Option<String>,
    pub save_mode: String,
    pub save_name: String,
    pub device_name: Option<String>,
}

pub struct RemoteManifestView {
    pub exists: bool,
    pub bytes: Option<u64>,
    pub updated_at: Option<Seq<char>>,
    pub save_mode: Seq<char>,
    pub save_name: Seq<char>,
    pub device_name: Option<Seq<char>>,
}

impl View for RemoteManifest {
    type V = RemoteManifestView;

    open spec fn view(&self) -> RemoteManifestView {
        RemoteManifestView {
            exists: self.exists,
            bytes: self.bytes,
            updated_at: text_option(self.updated_at),
            save_mode: self.save_mode@,
            save_name: self.save_name@,
            device_name: text_option(self.device_name),
        }
    }
}

/// Saves as values of the model.
pub open spec fn manifest_views(saves: Seq<RemoteManifest>) -> Seq<RemoteManifestView> {
    saves.map_values(|m: RemoteManifest| m@)
}

/// The list that the server sends.
pub struct RemoteSaveList {
    pub saves: Vec<RemoteManifest>,
    pub total_bytes: u64,
}

/// The saves on the server, as they are shown.
#[derive(Debug, PartialEq, Eq)]
pub struct RemoteSaveLibrary {
    pub saves: Vec<RemoteManifest>,
    pub total_bytes: u64,
}

/// Saves with what they take up together.
pub struct RemoteSavesView {
    pub saves: Seq<RemoteManifestView>,
    pub total_bytes: u64,
}

impl View for RemoteSaveList {
    type V = RemoteSavesView;

    open spec fn view(&self) -> RemoteSavesView {
        RemoteSavesView { saves: manifest_views(self.saves@), total_bytes: self.total_bytes }
    }
}

impl View for RemoteSaveLibrary {
    type V = RemoteSavesView;

    open spec fn view(&self) -> RemoteSavesView {
        RemoteSavesView { saves: manifest_views(self.saves@), total_bytes: self.total_bytes }
    }
}

/// What a request to the server does next.
pub enum RemoteAction {
    /// Make a network client.
    BuildClient,
    /// Send the request.
    Send { url: String, authorization: String },
    /// The request is over.
    Finish,
}

pub enum RemoteActionView {
    BuildClient,
    Send { url: Seq<char>, authorization: Seq<char> },
    Finish,
}

impl View for RemoteAction {
    type V = RemoteActionView;

    open spec fn view(&self) -> RemoteActionView {
        match *self {
            RemoteAction::BuildClient => RemoteActionView::BuildClient,
            RemoteAction::Send { url, authorization } => RemoteActionView::Send {
                url: url@,
                authorization: authorization@,
            },
            RemoteAction::Finish => RemoteActionView::Finish,
        }
    }
}

/// What the server answered to a request for the list, and what reading the body as a list gave.
pub struct ListAnswer {
    pub outcome: Outcome,
    pub parsed: Result<RemoteSaveList, String>,
}

pub struct ListAnswerView {
    pub outcome: OutcomeView,
    pub parsed: Result<RemoteSavesView, Seq<char>>,
}

impl View for ListAnswer {
    type V = ListAnswerView;

    open spec fn view(&self) -> ListAnswerView {
        ListAnswerView {
            outcome: outcome_view(self.outcome),
            parsed: match self.parsed {
                Ok(list) => Ok(list@),
                Err(e) => Err(e@),
            },
        }
    }
}

/// The saves on the server, or why they are not known, given the answer of the server.
pub open spec fn library_of_answer(answer: ListAnswerView) -> Result<RemoteSavesView, Seq<char>> {
    match answer.outcome {
        Err(e) => Err(failed_text("读取 VPS 存档信息失败"@, error_details(e))),
        Ok(reply) => if !is_success_status(reply.status) {
            Err(refused_text("读取 VPS 存档信息失败"@, reply.status, reply.body))
        } else {
            match answer.parsed {
                Ok(list) => Ok(list),
                Err(e) => Err(failed_text("VPS 存档列表格式错误"@, e)),
            }
        },
    }
}

/// A library or an error, as values of the model.
pub open spec fn library_result(r: Result<RemoteSaveLibrary, String>) -> Result<
    RemoteSavesView,
    Seq<char>,
> {
    match r {
        Ok(library) => Ok(library@),
        Err(e) => Err(e@),
    }
}

/// The saves on the server, given its answer.
pub fn list_remote_saves(answer: ListAnswer) -> (res: Result<RemoteSaveLibrary, String>)
    ensures
        library_result(res) == library_of_answer(answer@),
        res is Ok <==> answer.outcome is Ok && 200 <= answer.outcome->Ok_0.status <= 299
            && answer.parsed is Ok,
        res is Ok ==> res->Ok_0.saves@ == answer.parsed->Ok_0.saves@ && res->Ok_0.total_bytes
            == answer.parsed->Ok_0.total_bytes,
{
    match answer.outcome {
        Err(e) => Err(failed("读取 VPS 存档信息失败", request_error_details(&e).as_str())),
        Ok(reply) => {
            if !is_success(reply.status) {
                return Err(refused("读取 VPS 存档信息失败", &reply));
            }
            match answer.parsed {
                Ok(list) => Ok(
                    RemoteSaveLibrary { saves: list.saves, total_bytes: list.total_bytes },
                ),
                Err(e) => Err(failed("VPS 存档列表格式错误", e.as_str())),
            }
        },
    }
}

/// What a request for the list is waiting for.
enum ListPhase {
    Connect,
    Send,
    Finished { outcome: Result<RemoteSaveLibrary, String> },
}

pub enum ListPhaseView {
    /// A network client.
    Connect,
    /// The answer of the server.
    Send,
    /// Nothing any more.
    Finished { outcome: Result<RemoteSavesView, Seq<char>> },
}

impl View for ListPhase {
    type V = ListPhaseView;

    closed spec fn view(&self) -> ListPhaseView {
        match *self {
            ListPhase::Connect => ListPhaseView::Connect,
            ListPhase::Send => ListPhaseView::Send,
            ListPhase::Finished { outcome } => ListPhaseView::Finished {
                outcome: library_result(outcome),
            },
        }
    }
}

/// What an action of a request for the list came to.
pub enum ListEvent {
    Built(Result<(), String>),
    Answered(ListAnswer),
}

pub enum ListEventView {
    Built(Result<(), Seq<char>>),
    Answered(ListAnswerView),
}

impl View for ListEvent {
    type V = ListEventView;

    open spec fn view(&self) -> ListEventView {
        match *self {
            ListEvent::Built(r) => ListEventView::Built(done_result(r)),
            ListEvent::Answered(answer) => ListEventView::Answered(answer@),
        }
    }
}

/// A request for the list under way.
pub struct RemoteListView {
    pub endpoint: Seq<char>,
    pub sync_key: Seq<char>,
    pub phase: ListPhaseView,
}

/// A request for the list at its start.
pub open spec fn list_start(endpoint: Seq<char>, sync_key: Seq<char>) -> RemoteListView {
    RemoteListView { endpoint, sync_key, phase: ListPhaseView::Connect }
}

/// The request after an event; one that does not answer the pending action changes nothing.
pub open spec fn list_next(s: RemoteListView, event: ListEventView) -> RemoteListView {
    RemoteListView {
        phase: match (s.phase, event) {
            (ListPhaseView::Connect, ListEventView::Built(built)) => match built {
                Ok(_) => ListPhaseView::Send,
                Err(e) => ListPhaseView::Finished {
                    outcome: Err(failed_text("创建网络客户端失败"@, e)),
                },
            },
            (ListPhaseView::Send, ListEventView::Answered(answer)) => ListPhaseView::Finished {
                outcome: library_of_answer(answer),
            },
            (phase, _) => phase,
        },
        ..s
    }
}

/// What is to be done next.
pub open spec fn list_action(s: RemoteListView) -> RemoteActionView {
    match s.phase {
        ListPhaseView::Connect => RemoteActionView::BuildClient,
        ListPhaseView::Send => RemoteActionView::Send {
            url: api_address(s.endpoint, "v1/saves"@),
            authorization: authorization_value(s.sync_key),
        },
        ListPhaseView::Finished { .. } => RemoteActionView::Finish,
    }
}

/// A request for the list under way.
pub struct RemoteListing {
    endpoint: String,
    sync_key: String,
    phase: ListPhase,
}

impl View for RemoteListing {
    type V = RemoteListView;

    closed spec fn view(&self) -> RemoteListView {
        RemoteListView {
            endpoint: self.endpoint@,
            sync_key: self.sync_key@,
            phase: self.phase@,
        }
    }
}

impl RemoteListing {
    /// Starts a request for the list.
    pub fn begin(endpoint: String, sync_key: String) -> (listing: RemoteListing)
        ensures
            listing@ == list_start(endpoint@, sync_key@),
    {
        RemoteListing { endpoint, sync_key, phase: ListPhase::Connect }
    }

    /// What is to be done next.
    pub fn action(&self) -> (action: RemoteAction)
        ensures
            action@ == list_action(self@),
    {
        match &self.phase {
            ListPhase::Connect => RemoteAction::BuildClient,
            ListPhase::Send => RemoteAction::Send {
                url: api_url(self.endpoint.as_str(), "v1/saves"),
                authorization: authorization(self.sync_key.as_str()),
            },
            ListPhase::Finished { .. } => RemoteAction::Finish,
        }
    }

    /// Takes what the pending action came to.
    pub fn handle(self, event: ListEvent) -> (next: RemoteListing)
        ensures
            next@ == list_next(self@, event@),
    {
        let RemoteListing { endpoint, sync_key, phase } = self;
        let phase = match (phase, event) {
            (ListPhase::Connect, ListEvent::Built(built)) => match built {
                Ok(_) => ListPhase::Send,
                Err(e) => ListPhase::Finished {
                    outcome: Err(failed("创建网络客户端失败", e.as_str())),
                },
            },
            (ListPhase::Send, ListEvent::Answered(answer)) => ListPhase::Finished {
                outcome: list_remote_saves(answer),
            },
            (phase, _) => phase,
        };
        RemoteListing { endpoint, sync_key, phase }
    }

    /// What the request has come to, once it is over.
    pub fn outcome(self) -> (outcome: Option<Result<RemoteSaveLibrary, String>>)
        ensures
            match outcome {
                Some(r) => self@.phase == (ListPhaseView::Finished { outcome: library_result(r) }),
                None => !(self@.phase is Finished),
            },
    {
        match self.phase {
            ListPhase::Finished { outcome } => Some(outcome),
            _ => None,
        }
    }
}

/// Which save is to be deleted, and where.
pub struct DeletionRequest {
    pub endpoint: String,
    pub sync_key: String,
    pub save_mode: String,
    pub save_name: String,
}

pub struct DeletionRequestView {
    pub endpoint: Seq<char>,
    pub sync_key: Seq<char>,
    pub save_mode: Seq<char>,
    pub save_name: Seq<char>,
}

impl View for DeletionRequest {
    type V = DeletionRequestView;

    open spec fn view(&self) -> DeletionRequestView {
        DeletionRequestView {
            endpoint: self.endpoint@,
            sync_key: self.sync_key@,
            save_mode: self.save_mode@,
            save_name: self.save_name@,
        }
    }
}

/// Whether the address of the save fits into a URL.
pub open spec fn deletion_fits_in_a_url(request: DeletionRequestView) -> bool {
    request.endpoint.len() + request.save_mode.len() + request.save_name.len() + 25 <= MAX_URL_TEXT
}

impl DeletionRequest {
    /// Whether the address of the save fits into a URL.
    pub fn fits_in_a_url(&self) -> (fits: bool)
        ensures
            fits == deletion_fits_in_a_url(self@),
    {
        fit_in_a_url(
            self.endpoint.as_str(),
            self.save_mode.as_str(),
            self.save_name.as_str(),
            25,
        )
    }
}

/// What a deletion is waiting for.
enum DeletePhase {
    Connect { url: String },
    Send { url: String },
    Finished { outcome: Result<String, String> },
}

pub enum DeletePhaseView {
    /// A network client.
    Connect { url: Seq<char> },
    /// The answer of the server.
    Send { url: Seq<char> },
    /// Nothing any more.
    Finished { outcome: Result<Seq<char>, Seq<char>> },
}

impl View for DeletePhase {
    type V = DeletePhaseView;

    closed spec fn view(&self) -> DeletePhaseView {
        match *self {
            DeletePhase::Connect { url } => DeletePhaseView::Connect { url: url@ },
            DeletePhase::Send { url } => DeletePhaseView::Send { url: url@ },
            DeletePhase::Finished { outcome } => DeletePhaseView::Finished {
                outcome: text_result(outcome),
            },
        }
    }
}

/// What an action of a deletion came to.
pub enum DeleteEvent {
    Built(Result<(), String>),
    Answered(Outcome),
}

pub enum DeleteEventView {
    Built(Result<(), Seq<char>>),
    Answered(OutcomeView),
}

impl View for DeleteEvent {
    type V = DeleteEventView;

    open spec fn view(&self) -> DeleteEventView {
        match *self {
            DeleteEvent::Built(r) => DeleteEventView::Built(done_result(r)),
            DeleteEvent::Answered(outcome) => DeleteEventView::Answered(outcome_view(outcome)),
        }
    }
}

/// A deletion under way.
pub struct DeletionView {
    pub request: DeletionRequestView,
    pub phase: DeletePhaseView,
}

/// A deletion at its start: mode, name and address are checked first.
pub open spec fn delete_start(request: DeletionRequestView) -> DeletionView {
    DeletionView {
        request,
        phase: if !is_clean_component(request.save_mode) {
            DeletePhaseView::Finished { outcome: Err(unclean_message("远程存档模式"@)) }
        } else if !is_clean_component(request.save_name) {
            DeletePhaseView::Finished { outcome: Err(unclean_message("远程存档名称"@)) }
        } else {
            match save_address(
                request.endpoint,
                "v1/saves"@,
                request.save_mode,
                request.save_name,
            ) {
                Ok(url) => DeletePhaseView::Connect { url },
                Err(e) => DeletePhaseView::Finished { outcome: Err(e) },
            }
        },
    }
}

/// The message of a deletion that succeeded.
pub open spec fn deleted_message(request: DeletionRequestView) -> Seq<char> {
    "已删除 VPS 存档："@ + request.save_mode + "/"@ + request.save_name
}

/// What a deletion comes to, given the answer of the server; for a mode or a name that is not clean
/// no answer counts.
pub open spec fn deletion_of_answer(request: DeletionRequestView, outcome: OutcomeView) -> Result<
    Seq<char>,
    Seq<char>,
> {
    if !is_clean_component(request.save_mode) {
        Err(unclean_message("远程存档模式"@))
    } else if !is_clean_component(request.save_name) {
        Err(unclean_message("远程存档名称"@))
    } else {
        match outcome {
            Err(e) => Err(failed_text("删除 VPS 存档失败"@, error_details(e))),
            Ok(reply) => if !is_success_status(reply.status) {
                Err(refused_text("删除 VPS 存档失败"@, reply.status, reply.body))
            } else {
                Ok(deleted_message(request))
            },
        }
    }
}

/// The deletion after an event; one that does not answer the pending action changes nothing.
pub open spec fn delete_next(s: DeletionView, event: DeleteEventView) -> DeletionView {
    DeletionView {
        phase: match (s.phase, event) {
            (DeletePhaseView::Connect { url }, DeleteEventView::Built(built)) => match built {
                Ok(_) => DeletePhaseView::Send { url },
                Err(e) => DeletePhaseView::Finished {
                    outcome: Err(failed_text("创建网络客户端失败"@, e)),
                },
            },
            (DeletePhaseView::Send { .. }, DeleteEventView::Answered(outcome)) =>
                DeletePhaseView::Finished { outcome: deletion_of_answer(s.request, outcome) },
            (phase, _) => phase,
        },
        ..s
    }
}

/// What is to be done next.
pub open spec fn delete_action(s: DeletionView) -> RemoteActionView {
    match s.phase {
        DeletePhaseView::Connect { .. } => RemoteActionView::BuildClient,
        DeletePhaseView::Send { url } => RemoteActionView::Send {
            url,
            authorization: authorization_value(s.request.sync_key),
        },
        DeletePhaseView::Finished { .. } => RemoteActionView::Finish,
    }
}

/// What a deletion comes to, given the answer of the server.
pub fn delete_remote_save(request: &DeletionRequest, outcome: Outcome) -> (res: Result<
    String,
    String,
>)
    ensures
        text_result(res) == deletion_of_answer(request@, outcome_view(outcome)),
{
    if let Err(e) = clean_component(request.save_mode.as_str(), "远程存档模式") {
        return Err(e);
    }
    if let Err(e) = clean_component(request.save_name.as_str(), "远程存档名称") {
        return Err(e);
    }
    match outcome {
        Err(e) => Err(failed("删除 VPS 存档失败", request_error_details(&e).as_str())),
        Ok(reply) => {
            if !is_success(reply.status) {
                return Err(refused("删除 VPS 存档失败", &reply));
            }
            let mut message = joined("已删除 VPS 存档：", request.save_mode.as_str());
            message.append("/");
            message.append(request.save_name.as_str());
            Ok(message)
        },
    }
}

/// A deletion under way.
pub struct RemoteDeletion {
    request: DeletionRequest,
    phase: DeletePhase,
}

impl View for RemoteDeletion {
    type V = DeletionView;

    closed spec fn view(&self) -> DeletionView {
        DeletionView { request: self.request@, phase: self.phase@ }
    }
}

/// The address of the save to be deleted, once mode and name are known to be clean.
fn deletion_url(request: &DeletionRequest) -> (res: Result<String, String>)
    requires
        deletion_fits_in_a_url(request@),
    ensures
        match text_result(res) {
            Ok(url) => delete_start(request@).phase == (DeletePhaseView::Connect { url }),
            Err(e) => delete_start(request@).phase == (DeletePhaseView::Finished {
                outcome: Err(e),
            }),
        },
{
    proof {
        reveal_strlit("v1/saves");
    }
    match clean_component(request.save_mode.as_str(), "远程存档模式") {
        Err(e) => Err(e),
        Ok(_) => match clean_component(request.save_name.as_str(), "远程存档名称") {
            Err(e) => Err(e),
            Ok(_) => save_url(
                request.endpoint.as_str(),
                "v1/saves",
                request.save_mode.as_str(),
                request.save_name.as_str(),
            ),
        },
    }
}

impl RemoteDeletion {
    /// Starts a deletion.
    pub fn begin(request: DeletionRequest) -> (deletion: RemoteDeletion)
        requires
            deletion_fits_in_a_url(request@),
        ensures
            deletion@ == delete_start(request@),
    {
        let phase = match deletion_url(&request) {
            Ok(url) => DeletePhase::Connect { url },
            Err(e) => DeletePhase::Finished { outcome: Err(e) },
        };
        RemoteDeletion { request, phase }
    }

    /// What is to be done next.
    pub fn action(&self) -> (action: RemoteAction)
        ensures
            action@ == delete_action(self@),
    {
        match &self.phase {
            DeletePhase::Connect { .. } => RemoteAction::BuildClient,
            DeletePhase::Send { url } => RemoteAction::Send {
                url: url.clone(),
                authorization: authorization(self.request.sync_key.as_str()),
            },
            DeletePhase::Finished { .. } => RemoteAction::Finish,
        }
    }

    /// Takes what the pending action came to.
    pub fn handle(self, event: DeleteEvent) -> (next: RemoteDeletion)
        ensures
            next@ == delete_next(self@, event@),
    {
        let RemoteDeletion { request, phase } = self;
        let phase = match (phase, event) {
            (DeletePhase::Connect { url }, DeleteEvent::Built(built)) => match built {
                Ok(_) => DeletePhase::Send { url },
                Err(e) => DeletePhase::Finished {
                    outcome: Err(failed("创建网络客户端失败", e.as_str())),
                },
            },
            (DeletePhase::Send { .. }, DeleteEvent::Answered(outcome)) => DeletePhase::Finished {
                outcome: delete_remote_save(&request, outcome),
            },
            (phase, _) => phase,
        };
        RemoteDeletion { request, phase }
    }

    /// What the deletion has come to, once it is over.
    pub fn outcome(&self) -> (outcome: Option<Result<String, String>>)
        ensures
            match outcome {
                Some(r) => self@.phase == (DeletePhaseView::Finished { outcome: text_result(r) }),
                None => !(self@.phase is Finished),
            },
    {
        match &self.phase {
            DeletePhase::Finished { outcome } => Some(copy_result(outcome)),
            _ => None,
        }
    }
}

/// Nothing is sent for a mode or a name that is not clean, or to an address that is none.
pub proof fn law_refused_deletion_sends_nothing(request: DeletionRequestView)
    requires
        !is_clean_component(request.save_mode) || !is_clean_component(request.save_name)
            || save_address(request.endpoint, "v1/saves"@, request.save_mode, request.save_name)
            is Err,
    ensures
        delete_action(delete_start(request)) == RemoteActionView::Finish,
        delete_start(request).phase->outcome is Err,
{
}

/// What is sent asks for the deletion of exactly the requested save, under the key of the user.
pub proof fn law_deletion_asks_for_the_save(request: DeletionRequestView)
    requires
        delete_action(delete_start(request)) is BuildClient,
    ensures
        ({
            let sent = delete_action(
                delete_next(delete_start(request), DeleteEventView::Built(Ok(()))),
            );
            let address = save_address(
                request.endpoint,
                "v1/saves"@,
                request.save_mode,
                request.save_name,
            );
            &&& address is Ok
            &&& sent == (RemoteActionView::Send {
                url: address->Ok_0,
                authorization: authorization_value(request.sync_key),
            })
        }),
{
}

/// The list of the server is shown as it was sent: the same saves, all of them, in the same order
/// and with nothing changed, and the same total. It is shown exactly when the reply tells of
/// success and its body reads as a list.
pub proof fn law_list_is_shown_as_it_was_sent(answer: ListAnswerView)
    ensures
        library_of_answer(answer) is Ok <==> answer.outcome is Ok
            && answer.outcome->Ok_0.status / 100 == 2 && answer.parsed is Ok,
        library_of_answer(answer) matches Ok(library) ==> {
            let list = answer.parsed->Ok_0;
            &&& library.total_bytes == list.total_bytes
            &&& library.saves.len() == list.saves.len()
            &&& forall|i: int|
                0 <= i < list.saves.len() ==> #[trigger] library.saves[i] == list.saves[i]
        },
        answer.outcome is Err ==> library_of_answer(answer)->Err_0 == "读取 VPS 存档信息失败"@ + ": "@
            + error_details(answer.outcome->Err_0),
        answer.outcome is Ok && answer.outcome->Ok_0.status / 100 != 2 ==> library_of_answer(
            answer,
        )->Err_0 == refused_text(
            "读取 VPS 存档信息失败"@,
            answer.outcome->Ok_0.status,
            answer.outcome->Ok_0.body,
        ),
        answer.outcome is Ok && answer.outcome->Ok_0.status / 100 == 2 && answer.parsed is Err
            ==> library_of_answer(answer)->Err_0 == "VPS 存档列表格式错误"@ + ": "@
            + answer.parsed->Err_0,
{
}

/// Every save on the server counts as it is: none is left out, and none of its fields is changed.
pub proof fn law_every_remote_save_counts(saves: Seq<RemoteManifest>, i: int)
    requires
        0 <= i < saves.len(),
    ensures
        manifest_views(saves).len() == saves.len(),
        manifest_views(saves)[i].exists == saves[i].exists,
        manifest_views(saves)[i].bytes == saves[i].bytes,
        manifest_views(saves)[i].save_mode == saves[i].save_mode@,
        manifest_views(saves)[i].save_name == saves[i].save_name@,
        manifest_views(saves)[i].updated_at is Some == saves[i].updated_at is Some,
        saves[i].updated_at is Some ==> manifest_views(saves)[i].updated_at->0
            == saves[i].updated_at->0@,
        manifest_views(saves)[i].device_name is Some == saves[i].device_name is Some,
        saves[i].device_name is Some ==> manifest_views(saves)[i].device_name->0
            == saves[i].device_name->0@,
{
}

/// A request for the list goes to `v1/saves` on the server under the key of the user, and ends with
/// what the server answers.
pub proof fn law_list_is_asked_for(
    endpoint: Seq<char>,
    sync_key: Seq<char>,
    answer: ListAnswerView,
)
    ensures
        ({
            let start = list_start(endpoint, sync_key);
            let sending = list_next(start, ListEventView::Built(Ok(())));
            let done = list_next(sending, ListEventView::Answered(answer));
            &&& list_action(start) is BuildClient
            &&& list_action(sending) == (RemoteActionView::Send {
                url: trim_end_char(endpoint, '/') + seq!['/'] + "v1/saves"@,
                authorization: "Bearer "@ + sync_key,
            })
            &&& list_action(done) is Finish
            &&& done.phase == (ListPhaseView::Finished { outcome: library_of_answer(answer) })
            &&& list_next(done, ListEventView::Answered(answer)) == done
        }),
{
    reveal_strlit("v1/saves");
    law_address_joins_endpoint_and_path(endpoint, "v1/saves"@);
}

/// A deletion asks the server to delete the save of exactly the requested mode and name: the
/// address holds both as they are, whatever characters stand in them.
pub proof fn law_deletion_names_the_save(request: DeletionRequestView)
    requires
        is_clean_component(request.save_mode),
        is_clean_component(request.save_name),
    ensures
        ({
            let url = trim_end_char(request.endpoint, '/') + seq!['/'] + "v1/saves"@;
            let start = delete_start(request);
            let sending = delete_next(start, DeleteEventView::Built(Ok(())));
            match url_parse(url) {
                Ok(_) => {
                    &&& delete_action(start) is BuildClient
                    &&& delete_action(sending) == (RemoteActionView::Send {
                        url: url_with_pairs(
                            url,
                            "saveMode"@,
                            request.save_mode,
                            "saveName"@,
                            request.save_name,
                        ),
                        authorization: "Bearer "@ + request.sync_key,
                    })
                },
                Err(_) => delete_action(start) is Finish && start.phase->outcome is Err,
            }
        }),
{
    reveal_strlit("v1/saves");
    law_save_address_names_the_save(
        request.endpoint,
        "v1/saves"@,
        request.save_mode,
        request.save_name,
    );
}

/// A deletion has succeeded exactly when mode and name are clean and the server answered with
/// success, and its message then names the save.
pub proof fn law_deletion_ends_as_the_server_says(
    request: DeletionRequestView,
    outcome: OutcomeView,
    url: Seq<char>,
)
    ensures
        deletion_of_answer(request, outcome) is Ok <==> is_clean_component(request.save_mode)
            && is_clean_component(request.save_name) && outcome is Ok && outcome->Ok_0.status / 100
            == 2,
        deletion_of_answer(request, outcome) matches Ok(message) ==> message == "已删除 VPS 存档："@
            + request.save_mode + "/"@ + request.save_name,
        delete_next(
            DeletionView { request, phase: DeletePhaseView::Send { url } },
            DeleteEventView::Answered(outcome),
        ).phase == (DeletePhaseView::Finished { outcome: deletion_of_answer(request, outcome) }),
{
}

/// A request to the server moves on only by an answer to what it asked for, and one that is over
/// stays so.
pub proof fn law_only_an_answer_moves_a_request(
    listing: RemoteListView,
    listed: ListEventView,
    deletion: DeletionView,
    deleted: DeleteEventView,
)
    ensures
        list_next(listing, listed) != listing ==> match list_action(listing) {
            RemoteActionView::BuildClient => listed is Built,
            RemoteActionView::Send { .. } => listed is Answered,
            RemoteActionView::Finish => false,
        },
        delete_next(deletion, deleted) != deletion ==> match delete_action(deletion) {
            RemoteActionView::BuildClient => deleted is Built,
            RemoteActionView::Send { .. } => deleted is Answered,
            RemoteActionView::Finish => false,
        },
{
}

/// Without a network client nothing is asked, and the reason is told.
pub proof fn law_request_needs_a_client(
    endpoint: Seq<char>,
    sync_key: Seq<char>,
    request: DeletionRequestView,
    url: Seq<char>,
    e: Seq<char>,
)
    ensures
        list_next(list_start(endpoint, sync_key), ListEventView::Built(Err(e))).phase
            == (ListPhaseView::Finished { outcome: Err("创建网络客户端失败"@ + ": "@ + e) }),
        delete_next(
            DeletionView { request, phase: DeletePhaseView::Connect { url } },
            DeleteEventView::Built(Err(e)),
        ).phase == (DeletePhaseView::Finished {
            outcome: Err("创建网络客户端失败"@ + ": "@ + e),
        }),
{
}

}
