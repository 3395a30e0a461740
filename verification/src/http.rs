//! Replies of the sync server and failures to reach it.

use crate::text::{decimal, joined, law_decimal_notation_tells_the_number, number, number_written};
use vstd::prelude::*;

verus! {

/// A reply of the server: its status code and its body.
pub struct HttpReply {
    pub status: u16,
    pub body: String,
}

pub struct HttpReplyView {
    pub status: u16,
    pub body: Seq<char>,
}

impl View for HttpReply {
    type V = HttpReplyView;

    open spec fn view(&self) -> HttpReplyView {
        HttpReplyView { status: self.status, body: self.body@ }
    }
}

/// Why no reply came: the error itself, and what caused it, outermost cause first.
pub struct TransportError {
    pub message: String,
    pub causes: Vec<String>,
}

pub struct TransportErrorView {
    pub message: Seq<char>,
    pub causes: Seq<Seq<char>>,
}

impl View for TransportError {
    type V = TransportErrorView;

    open spec fn view(&self) -> TransportErrorView {
        TransportErrorView { message: self.message@, causes: self.causes.deep_view() }
    }
}

/// What a request came to.
pub type Outcome = Result<HttpReply, TransportError>;

pub type OutcomeView = Result<HttpReplyView, TransportErrorView>;

pub open spec fn outcome_view(outcome: Outcome) -> OutcomeView {
    match outcome {
        Ok(reply) => Ok(reply@),
        Err(error) => Err(error@),
    }
}

/// The status for something that the server does not have.
pub const NOT_FOUND: u16 = 404;

/// The status for something that has changed on the server meanwhile.
pub const CONFLICT: u16 = 409;

/// Status codes that report success.
pub open spec fn is_success_status(status: u16) -> bool {
    200 <= status < 300
}

/// Status codes after which the same request may succeed later: a server error, a request
/// timeout, or too many requests.
pub open spec fn is_retryable_status(status: u16) -> bool {
    500 <= status < 600 || status == 408 || status == 429
}

/// Whether a status tells of success.
pub fn is_success(status: u16) -> (r: bool)
    ensures
        r == is_success_status(status),
{
    200 <= status && status < 300
}

/// Whether an upload that was answered with this status is worth another attempt.
pub fn retryable_upload_status(status: u16) -> (r: bool)
    ensures
        r == is_retryable_status(status),
{
    (500 <= status && status < 600) || status == 408 || status == 429
}

/// No status both succeeds and asks for another attempt.
pub proof fn law_success_is_not_retried(status: u16)
    ensures
        !(is_success_status(status) && is_retryable_status(status)),
{
}

/// The causes of an error, each behind a colon.
pub open spec fn causes_text(causes: Seq<Seq<char>>) -> Seq<char>
    decreases causes.len(),
{
    if causes.len() == 0 {
        Seq::empty()
    } else {
        causes_text(causes.drop_last()) + ": "@ + causes.last()
    }
}

/// An error with all its causes in one line.
pub open spec fn error_details(error: TransportErrorView) -> Seq<char> {
    error.message + causes_text(error.causes)
}

/// An error with all its causes in one line.
pub fn request_error_details(error: &TransportError) -> (details: String)
    ensures
        details@ == error_details(error@),
{
    let mut details = error.message.clone();
    let ghost causes = error.causes.deep_view();
    assert(causes.take(0) == Seq::<Seq<char>>::empty());
    let mut i: usize = 0;
    while i < error.causes.len()
        invariant
            i <= error.causes@.len(),
            causes == error.causes.deep_view(),
            details@ == error.message@ + causes_text(causes.take(i as int)),
        decreases error.causes@.len() - i,
    {
        let ghost before = details@;
        details.append(": ");
        details.append(error.causes[i].as_str());
        proof {
            assert(causes.take(i + 1).drop_last() == causes.take(i as int));
            assert(causes.take(i + 1).last() == error.causes@[i as int]@);
            assert(details@ == error.message@ + causes_text(causes.take(i + 1)));
        }
        i = i + 1;
    }
    assert(causes.take(causes.len() as int) == causes);
    details
}

/// The message for a request, here called `what`, that was refused with a status.
pub open spec fn refused_text(what: Seq<char>, status: u16, body: Seq<char>) -> Seq<char> {
    what + "（HTTP "@ + decimal(status as nat) + "）: "@ + body
}

pub(crate) fn refused(what: &str, reply: &HttpReply) -> (message: String)
    ensures
        message@ == refused_text(what@, reply.status, reply.body@),
{
    let mut message = joined(what, "（HTTP ");
    message.append(number(reply.status as u128).as_str());
    message.append("）: ");
    message.append(reply.body.as_str());
    message
}

/// The value of the header that authorises a request.
pub open spec fn authorization_value(sync_key: Seq<char>) -> Seq<char> {
    "Bearer "@ + sync_key
}

/// The value of the header that authorises a request.
pub fn authorization(sync_key: &str) -> (value: String)
    ensures
        value@ == authorization_value(sync_key@),
{
    joined("Bearer ", sync_key)
}

/// The statuses of success are those from 200 to 299.
pub proof fn law_success_statuses(status: u16)
    ensures
        is_success_status(status) <==> status / 100 == 2,
{
}

/// Another attempt is worth while after every server error, a request timeout and too many
/// requests, and after no other status.
pub proof fn law_retryable_statuses(status: u16)
    ensures
        is_retryable_status(status) <==> status / 100 == 5 || status == 408 || status == 429,
        NOT_FOUND == 404,
        CONFLICT == 409,
{
}

/// The details of an error start with its message, and each cause, however many there are, adds
/// itself behind a colon.
pub proof fn law_details_tell_every_cause(message: Seq<char>, causes: Seq<Seq<char>>, more: Seq<char>)
    ensures
        error_details(TransportErrorView { message, causes: Seq::empty() }) == message,
        error_details(TransportErrorView { message, causes: causes.push(more) }) == error_details(
            TransportErrorView { message, causes },
        ) + ": "@ + more,
{
    let all = causes.push(more);
    assert(all.drop_last() == causes);
    assert(message + causes_text(all) =~= message + causes_text(causes) + ": "@ + more);
    assert(message + causes_text(Seq::empty()) =~= message);
}

/// A refusal is told with its status, as a number, and with the whole body of the reply.
pub proof fn law_refusal_tells_status_and_body(what: Seq<char>, status: u16, body: Seq<char>)
    ensures
        ({
            let text = refused_text(what, status, body);
            let digits = decimal(status as nat);
            &&& text.take(what.len() as int) == what
            &&& text.len() == what.len() + 6 + digits.len() + 3 + body.len()
            &&& text.subrange(what.len() as int + 6, (what.len() + 6 + digits.len()) as int)
                == digits
            &&& text.skip(text.len() - body.len()) == body
            &&& number_written(digits) == status
        }),
{
    reveal_strlit("（HTTP ");
    reveal_strlit("）: ");
    law_decimal_notation_tells_the_number(status as nat);
    let text = refused_text(what, status, body);
    let digits = decimal(status as nat);
    assert(text.take(what.len() as int) =~= what);
    assert(text.subrange(what.len() as int + 6, (what.len() + 6 + digits.len()) as int)
        =~= digits);
    assert(text.skip(text.len() - body.len()) =~= body);
}

/// A request is authorised by the whole key: behind `Bearer` and a space stands the key as it is.
pub proof fn law_authorization_holds_the_key(sync_key: Seq<char>)
    ensures
        authorization_value(sync_key).len() == sync_key.len() + 7,
        authorization_value(sync_key).skip(7) == sync_key,
        authorization_value(sync_key).take(7) == seq!['B', 'e', 'a', 'r', 'e', 'r', ' '],
{
    reveal_strlit("Bearer ");
    assert(authorization_value(sync_key).skip(7) =~= sync_key);
    assert(authorization_value(sync_key).take(7) =~= seq!['B', 'e', 'a', 'r', 'e', 'r', ' ']);
}

}
