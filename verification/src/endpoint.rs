//! Addresses of the sync server and of what it offers.

use crate::messages::{failed, failed_text};
use crate::text::{
    is_white_space, law_trimming_finds_the_text_within, strip, strip_end, strip_start, text_result,
    trim_by, trim_end_by, trim_end_char, trim_start_by, trim_start_char, trimmed, Trim,
};
use vstd::prelude::*;

verus! {

/// The address of `path` on the server at `endpoint`, with exactly one slash between them.
pub open spec fn api_address(endpoint: Seq<char>, path: Seq<char>) -> Seq<char> {
    trim_end_char(endpoint, '/') + "/"@ + trim_start_char(path, '/')
}

/// The address of `path` on the server at `endpoint`.
pub fn api_url(endpoint: &str, path: &str) -> (url: String)
    ensures
        url@ == api_address(endpoint@, path@),
{
    let mut url = strip_end(endpoint, '/');
    url.append("/");
    url.append(strip_start(path, '/').as_str());
    url
}

/// What parsing `text` as an absolute URL gives: the URL in its normal form, or the message that
/// says what is wrong with it.
pub uninterp spec fn url_parse(text: Seq<char>) -> Result<Seq<char>, Seq<char>>;

/// The normal form of the URL `text` with the two query pairs appended.
pub uninterp spec fn url_with_pairs(
    text: Seq<char>,
    key_a: Seq<char>,
    value_a: Seq<char>,
    key_b: Seq<char>,
    value_b: Seq<char>,
) -> Seq<char>;

/// `reqwest::Url::parse`, with the URL given back by its serialisation and the error by its
/// message.
#[verifier::external_body]
fn parse_url(text: &str) -> (res: Result<String, String>)
    ensures
        text_result(res) == url_parse(text@),
{
    reqwest::Url::parse(text).map(|url| url.to_string()).map_err(|error| error.to_string())
}

/// How long, in characters, a URL and the pairs for its query may be together. Positions in a
/// URL are 32-bit numbers, and one character takes at most a few dozen bytes of it.
pub const MAX_URL_TEXT: usize = 67108864;

/// `reqwest::Url::query_pairs_mut` and `append_pair`, on the URL that `reqwest::Url::parse`
/// makes of `text`: fails exactly when the parse fails, and with its message; otherwise the
/// result is named by the URL and the pairs.
#[verifier::external_body]
fn parse_url_with_pairs(
    text: &str,
    key_a: &str,
    value_a: &str,
    key_b: &str,
    value_b: &str,
) -> (res: Result<String, String>)
    requires
        text@.len() + key_a@.len() + value_a@.len() + key_b@.len() + value_b@.len()
            <= MAX_URL_TEXT,
    ensures
        text_result(res) == (match url_parse(text@) {
            Ok(_) => Ok::<Seq<char>, Seq<char>>(
                url_with_pairs(text@, key_a@, value_a@, key_b@, value_b@),
            ),
            Err(e) => Err(e),
        }),
{
    let mut url = reqwest::Url::parse(text).map_err(|error| error.to_string())?;
    url.query_pairs_mut().append_pair(key_a, value_a).append_pair(key_b, value_b);
    Ok(url.to_string())
}

/// `text` without surrounding white space and then without trailing slashes.
pub open spec fn bare_endpoint(endpoint: Seq<char>) -> Seq<char> {
    trim_end_char(trimmed(endpoint), '/')
}

/// The normal form of an endpoint, given what parsing its bare text gave: the parsed URL without
/// trailing slashes, or the bare text when it is no URL.
pub open spec fn endpoint_from(
    bare: Seq<char>,
    parsed: Result<Seq<char>, Seq<char>>,
) -> Seq<char> {
    match parsed {
        Ok(url) => trim_end_char(url, '/'),
        Err(_) => bare,
    }
}

/// The normal form of an endpoint. Two spellings with the same normal form are the same server.
pub open spec fn normalized_endpoint(endpoint: Seq<char>) -> Seq<char> {
    endpoint_from(bare_endpoint(endpoint), url_parse(bare_endpoint(endpoint)))
}

/// The normal form of an endpoint, given its bare text and what parsing that gave.
pub fn endpoint_of_parse(bare: &str, parsed: Result<String, String>) -> (r: String)
    ensures
        r@ == endpoint_from(bare@, text_result(parsed)),
{
    match parsed {
        Ok(url) => strip_end(url.as_str(), '/'),
        Err(_) => bare.to_owned(),
    }
}

/// The normal form of an endpoint.
pub fn normalize_endpoint(endpoint: &str) -> (r: String)
    ensures
        r@ == normalized_endpoint(endpoint@),
{
    let bare = strip_end(strip(endpoint).as_str(), '/');
    let parsed = parse_url(bare.as_str());
    endpoint_of_parse(bare.as_str(), parsed)
}

/// The address of what the server holds under `path` for one save, or the error for an endpoint
/// that is no URL.
pub open spec fn save_address(
    endpoint: Seq<char>,
    path: Seq<char>,
    save_mode: Seq<char>,
    save_name: Seq<char>,
) -> Result<Seq<char>, Seq<char>> {
    let url = api_address(endpoint, path);
    match url_parse(url) {
        Ok(_) => Ok(url_with_pairs(url, "saveMode"@, save_mode, "saveName"@, save_name)),
        Err(e) => Err(bad_endpoint(e)),
    }
}

/// The message for an endpoint that is no URL.
pub open spec fn bad_endpoint(error: Seq<char>) -> Seq<char> {
    failed_text("VPS API 地址无效"@, error)
}

/// An address, given what building it gave: the error says that the endpoint is no URL.
pub fn checked_address(built: Result<String, String>) -> (r: Result<String, String>)
    ensures
        text_result(r) == (match text_result(built) {
            Ok(url) => Ok::<Seq<char>, Seq<char>>(url),
            Err(e) => Err(bad_endpoint(e)),
        }),
{
    match built {
        Ok(url) => Ok(url),
        Err(e) => Err(failed("VPS API 地址无效", e.as_str())),
    }
}

/// Trimming never makes a text longer.
proof fn lemma_trims_shorten(s: Seq<char>, trim: Trim)
    ensures
        trim_start_by(s, trim).len() <= s.len(),
        trim_end_by(s, trim).len() <= s.len(),
    decreases s.len(),
{
    if s.len() > 0 {
        lemma_trims_shorten(s.drop_first(), trim);
        lemma_trims_shorten(s.drop_last(), trim);
    }
}

/// Whether these texts and `more` characters fit into a URL together.
pub(crate) fn fit_in_a_url(a: &str, b: &str, c: &str, more: usize) -> (fit: bool)
    requires
        more <= MAX_URL_TEXT,
    ensures
        fit == (a@.len() + b@.len() + c@.len() + more <= MAX_URL_TEXT),
{
    let a = a.unicode_len();
    let b = b.unicode_len();
    let c = c.unicode_len();
    a <= MAX_URL_TEXT && b <= MAX_URL_TEXT - a && c <= MAX_URL_TEXT - a - b && more <= MAX_URL_TEXT
        - a - b - c
}

/// The address under which the server holds one save, with mode and name as query parameters.
pub fn save_url(endpoint: &str, path: &str, save_mode: &str, save_name: &str) -> (r: Result<
    String,
    String,
>)
    requires
        endpoint@.len() + path@.len() + save_mode@.len() + save_name@.len() + 17 <= MAX_URL_TEXT,
    ensures
        text_result(r) == save_address(endpoint@, path@, save_mode@, save_name@),
{
    let url = api_url(endpoint, path);
    proof {
        lemma_trims_shorten(endpoint@, Trim::Only('/'));
        lemma_trims_shorten(path@, Trim::Only('/'));
        reveal_strlit("/");
        reveal_strlit("saveMode");
        reveal_strlit("saveName");
    }
    checked_address(parse_url_with_pairs(url.as_str(), "saveMode", save_mode, "saveName", save_name))
}

/// How many slashes stand between the endpoint and the path does not matter.
pub proof fn law_slashes_between_do_not_matter(endpoint: Seq<char>, path: Seq<char>)
    ensures
        api_address(endpoint.push('/'), path) == api_address(endpoint, path),
        api_address(endpoint, seq!['/'] + path) == api_address(endpoint, path),
{
    assert(endpoint.push('/').drop_last() == endpoint);
    assert((seq!['/'] + path).drop_first() == path);
}

pub(crate) proof fn lemma_trim_around(s: Seq<char>, c: char, trim: Trim)
    requires
        trim.removes(c),
    ensures
        trim_by(seq![c] + s, trim) == trim_by(s, trim),
        trim_by(s.push(c), trim) == trim_by(s, trim),
    decreases s.len(),
{
    assert((seq![c] + s).drop_first() == s);
    if s.len() > 0 && trim.removes(s[0]) {
        lemma_trim_around(s.drop_first(), c, trim);
        assert(s.push(c).drop_first() == s.drop_first().push(c));
    } else if s.len() == 0 {
        assert(s.push(c).drop_first() == s);
    } else {
        assert(s.push(c).drop_last() == s);
    }
}

/// White space around an endpoint does not matter, nor do slashes behind it.
pub proof fn law_spelling_of_an_endpoint_does_not_matter(endpoint: Seq<char>, c: char)
    ensures
        is_white_space(c) ==> normalized_endpoint(seq![c] + endpoint) == normalized_endpoint(
            endpoint,
        ),
        is_white_space(c) ==> normalized_endpoint(endpoint.push(c)) == normalized_endpoint(endpoint),
        trimmed(endpoint) == endpoint && endpoint.len() > 0 ==> normalized_endpoint(
            endpoint.push('/'),
        ) == normalized_endpoint(endpoint),
{
    if is_white_space(c) {
        lemma_trim_around(endpoint, c, Trim::WhiteSpace);
    }
    if trimmed(endpoint) == endpoint && endpoint.len() > 0 {
        lemma_trims_shorten(endpoint, Trim::WhiteSpace);
        lemma_trims_shorten(endpoint.drop_first(), Trim::WhiteSpace);
        lemma_trims_shorten(trim_start_by(endpoint, Trim::WhiteSpace), Trim::WhiteSpace);
        lemma_trims_shorten(
            trim_start_by(endpoint.drop_first(), Trim::WhiteSpace),
            Trim::WhiteSpace,
        );
        assert(!is_white_space(endpoint[0]));
        assert(endpoint.push('/')[0] == endpoint[0]);
        assert(trimmed(endpoint.push('/')) == endpoint.push('/'));
        assert(endpoint.push('/').drop_last() == endpoint);
    }
}

/// The address of a path on a server is the endpoint without the slashes behind it, a slash, and the
/// path as it is; an endpoint without slashes behind it stands there as it is.
pub proof fn law_address_joins_endpoint_and_path(endpoint: Seq<char>, path: Seq<char>)
    requires
        path.len() == 0 || path[0] != '/',
    ensures
        api_address(endpoint, path) == trim_end_char(endpoint, '/') + seq!['/'] + path,
        endpoint.len() == 0 || endpoint.last() != '/' ==> api_address(endpoint, path) == endpoint
            + seq!['/'] + path,
{
    reveal_strlit("/");
    assert("/"@ =~= seq!['/']);
}

/// The address of a save names the save: to the endpoint and the path it appends the mode and the
/// name, as they are, under their keys; only an endpoint that is no URL is refused, with the reason.
pub proof fn law_save_address_names_the_save(
    endpoint: Seq<char>,
    path: Seq<char>,
    save_mode: Seq<char>,
    save_name: Seq<char>,
)
    requires
        path.len() == 0 || path[0] != '/',
    ensures
        ({
            let url = trim_end_char(endpoint, '/') + seq!['/'] + path;
            match url_parse(url) {
                Ok(_) => save_address(endpoint, path, save_mode, save_name) == Ok::<
                    Seq<char>,
                    Seq<char>,
                >(url_with_pairs(url, "saveMode"@, save_mode, "saveName"@, save_name)),
                Err(e) => {
                    &&& save_address(endpoint, path, save_mode, save_name) is Err
                    &&& save_address(endpoint, path, save_mode, save_name)->Err_0
                        == "VPS API 地址无效"@ + ": "@ + e
                },
            }
        }),
{
    law_address_joins_endpoint_and_path(endpoint, path);
}

/// An endpoint without white space around it and slashes behind it stands for what it is parsed to,
/// without the slashes behind it, and for itself when it is no URL.
pub proof fn law_endpoint_is_what_it_is_parsed_to(endpoint: Seq<char>, plain: Seq<char>)
    requires
        endpoint.len() > 0,
        !is_white_space(endpoint[0]),
        !is_white_space(endpoint.last()),
        endpoint.last() != '/',
        plain.len() == 0 || plain.last() != '/',
    ensures
        url_parse(endpoint) is Err ==> normalized_endpoint(endpoint) == endpoint,
        url_parse(endpoint) == Ok::<Seq<char>, Seq<char>>(plain) ==> normalized_endpoint(endpoint)
            == plain,
        url_parse(endpoint) == Ok::<Seq<char>, Seq<char>>(plain.push('/')) ==> normalized_endpoint(
            endpoint,
        ) == plain,
{
    law_trimming_finds_the_text_within(Seq::empty(), endpoint, Seq::empty());
    assert(Seq::<char>::empty() + endpoint + Seq::<char>::empty() == endpoint);
    assert(plain.push('/').drop_last() == plain);
    reveal_with_fuel(trim_end_by, 3);
}

/// The normal form of any endpoint is found by leaving out the white space around it and the slashes
/// behind it, and then, where that is a URL, by parsing it and leaving out the slashes behind that.
pub proof fn law_normal_form_of_an_endpoint(endpoint: Seq<char>)
    ensures
        ({
            let bare = trim_end_char(trimmed(endpoint), '/');
            match url_parse(bare) {
                Ok(url) => normalized_endpoint(endpoint) == trim_end_char(url, '/'),
                Err(_) => normalized_endpoint(endpoint) == bare,
            }
        }),
{
}

}
