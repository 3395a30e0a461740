//! The wording that messages share.

use crate::text::joined;
use vstd::prelude::*;

verus! {

/// `what`, a colon, and `error`.
pub open spec fn failed_text(what: Seq<char>, error: Seq<char>) -> Seq<char> {
    what + ": "@ + error
}

pub(crate) fn failed(what: &str, error: &str) -> (message: String)
    ensures
        message@ == failed_text(what@, error@),
{
    let mut message = joined(what, ": ");
    message.append(error);
    message
}

/// A message tells both what failed and, at its end, why.
pub proof fn law_message_tells_what_and_why(what: Seq<char>, error: Seq<char>)
    ensures
        failed_text(what, error).take(what.len() as int) == what,
        failed_text(what, error).skip(what.len() as int + 2) == error,
        failed_text(what, error)[what.len() as int] == ':',
        failed_text(what, error)[what.len() as int + 1] == ' ',
{
    reveal_strlit(": ");
    let text = failed_text(what, error);
    assert(text.take(what.len() as int) =~= what);
    assert(text.skip(what.len() as int + 2) =~= error);
}

}
