//! The address of the approval page, with the callback address in it.

use crate::error::SessionError;
use crate::felt::{decimal_digit, decimal_digits, lemma_decimal_round_trip};
use crate::model::{policy_texts, Policy, PolicyText};
use crate::percent::upper_hex_digit;
use crate::query::{prepare_query_params, query_text};
use crate::text::ascii_text;
use vstd::prelude::*;
use vstd::string::StringExecFns;
use vstd::utf8::{encode_utf8, is_ascii_chars_encode_utf8};

verus! {

/// `url::ParseError`, the error of `Url::parse`; nothing is said of what it
/// holds.
#[verifier::external_type_specification]
#[verifier::external_body]
pub struct ExUrlParseError(url::ParseError);

/// The longest page address, in bytes, that a callback address is added to.
/// The `url` crate indexes a URL by 32-bit numbers; a page address within
/// this bound stays within them when it is parsed and the pair is added.
pub const MAX_PAGE_BYTES: usize = 0x0fff_0000;

/// The address of the approval page before its query string.
pub open spec fn page_base() -> Seq<char> {
    "https://x.cartridge.gg/slot/session?"@
}

/// The address of the approval page for an account, an RPC endpoint and a
/// list of policies, as written before it is parsed as a URL.
pub open spec fn page_text(
    username: Seq<char>,
    rpc_url: Seq<char>,
    policies: Seq<PolicyText>,
) -> Seq<char> {
    page_base() + query_text(username, rpc_url, policies)
}

/// The address to which the approved session is sent: the callback endpoint
/// on the local port `port`.
pub open spec fn callback_uri_text(port: u16) -> Seq<char> {
    "http://localhost:"@ + ascii_text(decimal_digits(port as nat)) + "/callback"@
}

/// The name of the query parameter that carries the callback address.
pub open spec fn callback_key() -> Seq<char> {
    "callback_uri"@
}

/// The bytes that form encoding leaves as they are: ASCII letters and
/// digits, `*`, `-`, `.` and `_`.
pub open spec fn is_form_plain(b: u8) -> bool {
    ||| 0x30 <= b <= 0x39
    ||| 0x41 <= b <= 0x5a
    ||| 0x61 <= b <= 0x7a
    ||| b == 0x2a
    ||| b == 0x2d
    ||| b == 0x2e
    ||| b == 0x5f
}

/// How form encoding writes one byte: a blank as `+`, and every byte that
/// is not left as it is as `%` and two upper-case hexadecimal digits.
pub open spec fn form_encoded_byte(b: u8) -> Seq<u8> {
    if is_form_plain(b) {
        seq![b]
    } else if b == 0x20 {
        seq!['+' as u8]
    } else {
        seq![0x25u8, upper_hex_digit(b as int / 16), upper_hex_digit(b as int % 16)]
    }
}

/// The form encoding of `bytes`.
pub open spec fn form_encoded(bytes: Seq<u8>) -> Seq<u8>
    decreases bytes.len(),
{
    if bytes.len() == 0 {
        Seq::empty()
    } else {
        form_encoded_byte(bytes[0]) + form_encoded(bytes.skip(1))
    }
}

/// A name and a value as a pair of a query: both form-encoded, with `=`
/// between them.
pub open spec fn pair_text(name: Seq<char>, value: Seq<char>) -> Seq<char> {
    ascii_text(
        form_encoded(encode_utf8(name)) + seq!['=' as u8] + form_encoded(encode_utf8(value)),
    )
}

/// Whether the query of `url` ends with `pair`: the pair stands after `?`
/// or `&`, and after it the text ends or its fragment begins with `#`.
pub open spec fn ends_query_with(url: Seq<char>, pair: Seq<char>) -> bool {
    exists|at: int|
        1 <= at && at + pair.len() <= url.len() && #[trigger] url.subrange(at, at + pair.len())
            == pair && (url[at - 1] == '?' || url[at - 1] == '&') && (at + pair.len() == url.len()
            || url[at + pair.len()] == '#')
}

/// The callback address as the last pair of the approval URL's query.
pub open spec fn callback_pair_text(port: u16) -> Seq<char> {
    "callback_uri=http%3A%2F%2Flocalhost%3A"@ + ascii_text(decimal_digits(port as nat))
        + "%2Fcallback"@
}

/// What the `url` crate makes of `url` once it has parsed it and added the
/// pair `name`, `value` to its query: the text of the resulting URL, or
/// `None` where `url` does not parse.
pub uninterp spec fn url_with_pair(url: Seq<char>, name: Seq<char>, value: Seq<char>) -> Option<
    Seq<char>,
>;

/// The approval URL for a page address and the callback endpoint's port.
/// There is none where the page address is longer than `MAX_PAGE_BYTES` or
/// does not parse as a URL.
pub open spec fn approval_url_text(page: Seq<char>, port: u16) -> Option<Seq<char>> {
    if encode_utf8(page).len() > MAX_PAGE_BYTES {
        None
    } else {
        url_with_pair(page, callback_key(), callback_uri_text(port))
    }
}

/// `Url::parse`, then `append_pair` on the URL's `query_pairs_mut()`, then
/// the URL as a `String`: the URL that `url` parses to, with the pair added
/// at the end of its query. The pair is written form-encoded after the `?`
/// that begins the query or after `&`, and only a fragment follows it. The
/// length bound keeps the URL within the sizes that the crate can index.
#[verifier::external_body]
fn append_query_pair(url: &str, name: &str, value: &str) -> (r: Result<String, url::ParseError>)
    requires
        encode_utf8(url@).len() + encode_utf8(name@).len() + encode_utf8(value@).len()
            <= 0x1000_0000,
    ensures
        match r {
            Ok(text) => url_with_pair(url@, name@, value@) == Some(text@) && ends_query_with(
                text@,
                pair_text(name@, value@),
            ),
            Err(_) => url_with_pair(url@, name@, value@) is None,
        },
{
    let mut parsed = url::Url::parse(url)?;
    parsed.query_pairs_mut().append_pair(name, value);
    Ok(String::from(parsed))
}

fn digit_text(d: u16) -> (r: &'static str)
    requires
        d < 10,
    ensures
        r@ == seq![decimal_digit(d as nat) as char],
{
    proof {
        reveal_strlit("0");
        reveal_strlit("1");
        reveal_strlit("2");
        reveal_strlit("3");
        reveal_strlit("4");
        reveal_strlit("5");
        reveal_strlit("6");
        reveal_strlit("7");
        reveal_strlit("8");
        reveal_strlit("9");
    }
    let text = if d == 0 {
        "0"
    } else if d == 1 {
        "1"
    } else if d == 2 {
        "2"
    } else if d == 3 {
        "3"
    } else if d == 4 {
        "4"
    } else if d == 5 {
        "5"
    } else if d == 6 {
        "6"
    } else if d == 7 {
        "7"
    } else if d == 8 {
        "8"
    } else {
        "9"
    };
    text
}

/// The decimal numeral of a port.
pub fn port_text(port: u16) -> (r: String)
    ensures
        r@ == ascii_text(decimal_digits(port as nat)),
    decreases port,
{
    if port < 10 {
        let text = String::from_str(digit_text(port));
        text
    } else {
        let mut text = port_text(port / 10);
        text.append(digit_text(port % 10));
        text
    }
}

/// The callback address for the endpoint that listens on `port`.
pub fn callback_uri(port: u16) -> (r: String)
    ensures
        r@ == callback_uri_text(port),
{
    let mut uri = String::from_str("http://localhost:");
    let digits = port_text(port);
    uri.append(digits.as_str());
    uri.append("/callback");
    uri
}

/// The address of the approval page for `username`, the RPC endpoint
/// `rpc_url` and `policies`.
pub fn approval_page(username: &str, rpc_url: &str, policies: &[Policy]) -> (r: Result<
    String,
    SessionError,
>)
    ensures
        r matches Ok(page) && page@ == page_text(username@, rpc_url@, policy_texts(policies@)),
{
    let query = match prepare_query_params(username, rpc_url, policies) {
        Ok(query) => query,
        Err(error) => {
            return Err(error);
        },
    };
    let mut page = String::from_str("https://x.cartridge.gg/slot/session?");
    page.append(query.as_str());
    Ok(page)
}

/// A numeral of a port has five digits at most.
proof fn lemma_port_digits(port: u16)
    ensures
        1 <= decimal_digits(port as nat).len() <= 5,
        forall|i: int|
            0 <= i < decimal_digits(port as nat).len() ==> 0x30 <= #[trigger] decimal_digits(
                port as nat,
            )[i] <= 0x39,
{
    lemma_decimal_round_trip(port as nat);
    reveal_with_fuel(decimal_digits, 6);
}

proof fn lemma_form_encoded_plain(run: Seq<u8>, rest: Seq<u8>)
    requires
        forall|i: int| 0 <= i < run.len() ==> is_form_plain(#[trigger] run[i]),
    ensures
        form_encoded(run + rest) == run + form_encoded(rest),
    decreases run.len(),
{
    let text = run + rest;
    if run.len() > 0 {
        lemma_form_encoded_plain(run.skip(1), rest);
        assert(text.skip(1) =~= run.skip(1) + rest);
    }
}

proof fn lemma_form_encoded_byte(b: u8, rest: Seq<u8>)
    ensures
        form_encoded(seq![b] + rest) == form_encoded_byte(b) + form_encoded(rest),
{
    let text = seq![b] + rest;
    assert(text.skip(1) =~= rest);
}

/// The callback address, form-encoded under its name, reads
/// `callback_uri=http%3A%2F%2Flocalhost%3A<port>%2Fcallback`.
pub proof fn lemma_callback_pair(port: u16)
    ensures
        pair_text(callback_key(), callback_uri_text(port)) == callback_pair_text(port),
{
    reveal_strlit("callback_uri");
    reveal_strlit("http://localhost:");
    reveal_strlit("/callback");
    reveal_strlit("callback_uri=http%3A%2F%2Flocalhost%3A");
    reveal_strlit("%2Fcallback");
    lemma_port_digits(port);
    let digits = decimal_digits(port as nat);
    let none = Seq::<u8>::empty();
    let colon = ':' as u8;
    let slash = '/' as u8;
    let name = encode_utf8(callback_key());
    let value = encode_utf8(callback_uri_text(port));
    is_ascii_chars_encode_utf8(callback_key());
    is_ascii_chars_encode_utf8(callback_uri_text(port));
    let http = seq!['h' as u8, 't' as u8, 't' as u8, 'p' as u8];
    let host = seq![
        'l' as u8,
        'o' as u8,
        'c' as u8,
        'a' as u8,
        'l' as u8,
        'h' as u8,
        'o' as u8,
        's' as u8,
        't' as u8,
    ];
    let path = seq![
        'c' as u8,
        'a' as u8,
        'l' as u8,
        'l' as u8,
        'b' as u8,
        'a' as u8,
        'c' as u8,
        'k' as u8,
    ];
    let t8 = path + none;
    let t7 = seq![slash] + t8;
    let t6 = digits + t7;
    let t5 = seq![colon] + t6;
    let t4 = host + t5;
    let t3 = seq![slash] + t4;
    let t2 = seq![slash] + t3;
    let t1 = seq![colon] + t2;
    let t0 = http + t1;
    assert(value =~= t0);
    lemma_form_encoded_plain(path, none);
    lemma_form_encoded_byte(slash, t8);
    lemma_form_encoded_plain(digits, t7);
    lemma_form_encoded_byte(colon, t6);
    lemma_form_encoded_plain(host, t5);
    lemma_form_encoded_byte(slash, t4);
    lemma_form_encoded_byte(slash, t3);
    lemma_form_encoded_byte(colon, t2);
    lemma_form_encoded_plain(http, t1);
    lemma_form_encoded_plain(name, none);
    let escaped_colon = seq!['%' as u8, '3' as u8, 'A' as u8];
    let escaped_slash = seq!['%' as u8, '2' as u8, 'F' as u8];
    assert(form_encoded(value) =~= http + escaped_colon + escaped_slash + escaped_slash + host
        + escaped_colon + digits + escaped_slash + path);
}

/// The approval URL: the page address, parsed as a URL, with the callback
/// address of the local endpoint on `port` added to its query as
/// `callback_uri`. The query of the URL ends with that pair.
pub fn approval_url(page: &str, port: u16) -> (r: Result<String, SessionError>)
    ensures
        match approval_url_text(page@, port) {
            Some(url) => r matches Ok(text) && text@ == url && ends_query_with(
                url,
                callback_pair_text(port),
            ),
            None => r == Err::<String, SessionError>(SessionError::EncodingError),
        },
{
    if page.as_bytes().len() > MAX_PAGE_BYTES {
        return Err(SessionError::EncodingError);
    }
    let uri = callback_uri(port);
    proof {
        reveal_strlit("http://localhost:");
        reveal_strlit("/callback");
        reveal_strlit("callback_uri");
        lemma_port_digits(port);
        is_ascii_chars_encode_utf8(uri@);
        is_ascii_chars_encode_utf8("callback_uri"@);
        lemma_callback_pair(port);
    }
    match append_query_pair(page, "callback_uri", uri.as_str()) {
        Ok(url) => Ok(url),
        Err(_) => Err(SessionError::EncodingError),
    }
}

} // verus!
