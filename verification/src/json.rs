//! The JSON text of a policy: `{"target":"<decimal>","method":"<escaped>"}`.

use crate::error::SessionError;
use crate::felt::{
    decimal_digits, decimal_value, lemma_decimal_round_trip, stark_prime, Felt,
};
use crate::model::{Policy, PolicyText};
use crate::percent::{hex_nibble, nibble};
use crate::text::{
    append_bytes, ascii_text, has_bytes_at, holds_at, is_ascii_bytes, lemma_ascii_text_bytes,
    string_from_utf8,
};
use vstd::prelude::*;
use vstd::slice::{slice_subrange, slice_to_vec};
use vstd::utf8::{
    decode_utf8, encode_utf8, encode_utf8_decode_utf8, encode_utf8_valid_utf8, valid_utf8,
};

verus! {

/// `serde_json::Error`, the error of `serde_json::to_string`; nothing is
/// said of what it holds.
#[verifier::external_type_specification]
#[verifier::external_body]
pub struct ExJsonError(serde_json::Error);

/// The lower-case hexadecimal digit for a value below sixteen.
pub open spec fn lower_hex_digit(d: int) -> u8 {
    if d < 10 {
        (0x30 + d) as u8
    } else {
        (0x61 + d - 10) as u8
    }
}

/// How one byte of a string is written between JSON quotes: the quote and
/// the backslash after a backslash, the control characters by their short
/// names or as `\u00` and two lower-case hexadecimal digits, and every other
/// byte as itself.
pub open spec fn escaped_byte(b: u8) -> Seq<u8> {
    if b == '"' as u8 {
        seq!['\\' as u8, '"' as u8]
    } else if b == '\\' as u8 {
        seq!['\\' as u8, '\\' as u8]
    } else if b == 0x08 {
        seq!['\\' as u8, 'b' as u8]
    } else if b == 0x09 {
        seq!['\\' as u8, 't' as u8]
    } else if b == 0x0a {
        seq!['\\' as u8, 'n' as u8]
    } else if b == 0x0c {
        seq!['\\' as u8, 'f' as u8]
    } else if b == 0x0d {
        seq!['\\' as u8, 'r' as u8]
    } else if b < 0x20 {
        seq![
            '\\' as u8,
            'u' as u8,
            '0' as u8,
            '0' as u8,
            lower_hex_digit(b as int / 16),
            lower_hex_digit(b as int % 16),
        ]
    } else {
        seq![b]
    }
}

/// The bytes of a string as they stand between JSON quotes.
pub open spec fn escaped(bytes: Seq<u8>) -> Seq<u8>
    decreases bytes.len(),
{
    if bytes.len() == 0 {
        Seq::empty()
    } else {
        escaped_byte(bytes[0]) + escaped(bytes.skip(1))
    }
}

/// The JSON string for `bytes`: the escaped bytes between quotes.
pub open spec fn json_quoted(bytes: Seq<u8>) -> Seq<u8> {
    seq!['"' as u8] + escaped(bytes) + seq!['"' as u8]
}

/// `{"target":"`
pub open spec fn target_key() -> Seq<u8> {
    seq![
        '{' as u8,
        '"' as u8,
        't' as u8,
        'a' as u8,
        'r' as u8,
        'g' as u8,
        'e' as u8,
        't' as u8,
        '"' as u8,
        ':' as u8,
        '"' as u8,
    ]
}

/// `","method":`
pub open spec fn method_key() -> Seq<u8> {
    seq![
        '"' as u8,
        ',' as u8,
        '"' as u8,
        'm' as u8,
        'e' as u8,
        't' as u8,
        'h' as u8,
        'o' as u8,
        'd' as u8,
        '"' as u8,
        ':' as u8,
    ]
}

/// The JSON text of a policy whose target is the number `target` and whose
/// method name has the UTF-8 bytes `method`: an object of the two fields
/// `target`, the number's decimal numeral as a string, and `method`.
pub open spec fn policy_json(target: nat, method: Seq<u8>) -> Seq<u8> {
    target_key() + decimal_digits(target) + method_key() + json_quoted(method) + seq!['}' as u8]
}

/// The JSON text of a policy.
pub open spec fn policy_json_of(policy: PolicyText) -> Seq<u8> {
    policy_json(policy.target, encode_utf8(policy.method))
}

fn target_key_bytes() -> (r: [u8; 11])
    ensures
        r@ == target_key(),
{
    let key: [u8; 11] = [
        '{' as u8,
        '"' as u8,
        't' as u8,
        'a' as u8,
        'r' as u8,
        'g' as u8,
        'e' as u8,
        't' as u8,
        '"' as u8,
        ':' as u8,
        '"' as u8,
    ];
    assert(key@ =~= target_key());
    key
}

fn method_key_bytes() -> (r: [u8; 11])
    ensures
        r@ == method_key(),
{
    let key: [u8; 11] = [
        '"' as u8,
        ',' as u8,
        '"' as u8,
        'm' as u8,
        'e' as u8,
        't' as u8,
        'h' as u8,
        'o' as u8,
        'd' as u8,
        '"' as u8,
        ':' as u8,
    ];
    assert(key@ =~= method_key());
    key
}

/// `serde_json::to_string` on a string slice: the JSON string for it, which
/// is the slice's bytes, escaped, between quotes. It fails only where a
/// value's own serialisation fails or a map has a key that is no string,
/// and a string slice written into memory does neither.
#[verifier::external_body]
fn json_string(text: &str) -> (r: Result<String, serde_json::Error>)
    ensures
        match r {
            Ok(quoted) => encode_utf8(quoted@) == json_quoted(encode_utf8(text@)),
            Err(_) => false,
        },
{
    serde_json::to_string(text)
}

/// Writes a policy as JSON.
pub fn policy_to_json(policy: &Policy) -> (r: Result<Vec<u8>, SessionError>)
    ensures
        r matches Ok(json) && json@ == policy_json_of(policy@),
{
    let mut out: Vec<u8> = Vec::new();
    let opening = target_key_bytes();
    let middle = method_key_bytes();
    let numeral = policy.target.to_decimal();
    let quoted = match json_string(policy.method.as_str()) {
        Ok(quoted) => quoted,
        Err(_) => {
            return Err(SessionError::EncodingError);
        },
    };
    append_bytes(&mut out, opening.as_slice());
    append_bytes(&mut out, numeral.as_str().as_bytes());
    append_bytes(&mut out, middle.as_slice());
    append_bytes(&mut out, quoted.as_str().as_bytes());
    out.push('}' as u8);
    proof {
        let digits = decimal_digits(policy.target@);
        lemma_decimal_round_trip(policy.target@);
        lemma_ascii_text_bytes(digits);
    }
    Ok(out)
}

/// The byte that a backslash and `c` stand for, where they are one of the
/// short escapes.
pub open spec fn simple_escape(c: u8) -> Option<u8> {
    if c == '"' as u8 {
        Some('"' as u8)
    } else if c == '\\' as u8 {
        Some('\\' as u8)
    } else if c == '/' as u8 {
        Some('/' as u8)
    } else if c == 'b' as u8 {
        Some(0x08u8)
    } else if c == 't' as u8 {
        Some(0x09u8)
    } else if c == 'n' as u8 {
        Some(0x0au8)
    } else if c == 'f' as u8 {
        Some(0x0cu8)
    } else if c == 'r' as u8 {
        Some(0x0du8)
    } else {
        None
    }
}

/// One more byte, written in `width` bytes, before what `tail` read.
pub open spec fn grow(b: u8, width: int, tail: Option<(Seq<u8>, int)>) -> Option<(Seq<u8>, int)> {
    match tail {
        Some((bytes, used)) => Some((seq![b] + bytes, width + used)),
        None => None,
    }
}

/// Reads the inside of a JSON string up to its closing quote: the bytes
/// that it stands for, and how many bytes were read, the quote included.
/// After a backslash stands a short escape or `u00` and two hexadecimal
/// digits for an ASCII character; a control character stands nowhere else.
/// `None` where the text breaks these rules or has no closing quote.
pub open spec fn unescaped(text: Seq<u8>) -> Option<(Seq<u8>, int)>
    decreases text.len(),
{
    if text.len() == 0 {
        None
    } else if text[0] == '"' as u8 {
        Some((Seq::empty(), 1))
    } else if text[0] == '\\' as u8 {
        if text.len() >= 2 && simple_escape(text[1]) is Some {
            grow(simple_escape(text[1])->0, 2, unescaped(text.skip(2)))
        } else if text.len() >= 6 && text[1] == 'u' as u8 && text[2] == '0' as u8 && text[3]
            == '0' as u8 && hex_nibble(text[4]) is Some && hex_nibble(text[5]) is Some
            && hex_nibble(text[4])->0 < 8 {
            grow(
                (hex_nibble(text[4])->0 * 16 + hex_nibble(text[5])->0) as u8,
                6,
                unescaped(text.skip(6)),
            )
        } else {
            None
        }
    } else if text[0] < 0x20 {
        None
    } else {
        grow(text[0], 1, unescaped(text.skip(1)))
    }
}

/// The index of the first quote in `text`, or its length where it has none.
pub open spec fn first_quote(text: Seq<u8>) -> int
    decreases text.len(),
{
    if text.len() == 0 || text[0] == '"' as u8 {
        0
    } else {
        1 + first_quote(text.skip(1))
    }
}

/// Reads the JSON text of a policy: the target's number and the method
/// name's bytes. The text must be the two fields in their order, without
/// white space; the target is a decimal numeral below the field's modulus.
pub open spec fn parsed_policy(text: Seq<u8>) -> Option<(nat, Seq<u8>)> {
    if !holds_at(text, 0, target_key()) {
        None
    } else {
        let end = 11 + first_quote(text.skip(11));
        if !(holds_at(text, end, method_key()) && end + 11 < text.len() && text[end + 11]
            == '"' as u8) {
            None
        } else {
            match (decimal_value(text.subrange(11, end)), unescaped(text.skip(end + 12))) {
                (Some(target), Some((method, used))) => if target < stark_prime() && text.skip(
                    end + 12 + used,
                ) == seq!['}' as u8] {
                    Some((target, method))
                } else {
                    None
                },
                _ => None,
            }
        }
    }
}

/// The policy that a JSON text stands for: as `parsed_policy` reads it,
/// with a method name that is valid UTF-8.
pub open spec fn decoded_policy(text: Seq<u8>) -> Option<PolicyText> {
    match parsed_policy(text) {
        Some((target, method)) => if valid_utf8(method) {
            Some(PolicyText { target, method: decode_utf8(method) })
        } else {
            None
        },
        None => None,
    }
}

spec fn extend(done: Seq<u8>, width: int, tail: Option<(Seq<u8>, int)>) -> Option<(Seq<u8>, int)> {
    match tail {
        Some((bytes, used)) => Some((done + bytes, width + used)),
        None => None,
    }
}

fn short_escape(c: u8) -> (r: Option<u8>)
    ensures
        r == simple_escape(c),
{
    if c == '"' as u8 {
        Some('"' as u8)
    } else if c == '\\' as u8 {
        Some('\\' as u8)
    } else if c == '/' as u8 {
        Some('/' as u8)
    } else if c == 'b' as u8 {
        Some(0x08u8)
    } else if c == 't' as u8 {
        Some(0x09u8)
    } else if c == 'n' as u8 {
        Some(0x0au8)
    } else if c == 'f' as u8 {
        Some(0x0cu8)
    } else if c == 'r' as u8 {
        Some(0x0du8)
    } else {
        None
    }
}

/// Reads the inside of a JSON string, which `text` begins with. Gives the
/// bytes that it stands for and the number of bytes read, the closing quote
/// included.
pub fn unescape(text: &[u8]) -> (r: Option<(Vec<u8>, usize)>)
    ensures
        match r {
            Some((bytes, used)) => 0 < used <= text.len() && unescaped(text@) == Some(
                (bytes@, used as int),
            ),
            None => unescaped(text@) is None,
        },
{
    let mut out: Vec<u8> = Vec::new();
    let mut i: usize = 0;
    let ghost whole = unescaped(text@);
    proof {
        assert(text@.skip(0) =~= text@);
    }
    while i < text.len()
        invariant
            i <= text.len(),
            whole == unescaped(text@),
            whole == extend(out@, i as int, unescaped(text@.skip(i as int))),
        decreases text.len() - i,
    {
        let ghost rest = text@.skip(i as int);
        let b = text[i];
        if b == '"' as u8 {
            return Some((out, i + 1));
        } else if b == '\\' as u8 {
            if text.len() - i < 2 {
                return None;
            }
            let c = text[i + 1];
            match short_escape(c) {
                Some(v) => {
                    proof {
                        assert(rest.skip(2) =~= text@.skip(i + 2));
                    }
                    out.push(v);
                    i += 2;
                },
                None => {
                    if c != 'u' as u8 || text.len() - i < 6 {
                        return None;
                    }
                    if text[i + 2] != '0' as u8 || text[i + 3] != '0' as u8 {
                        return None;
                    }
                    let high = nibble(text[i + 4]);
                    let low = nibble(text[i + 5]);
                    match (high, low) {
                        (Some(h), Some(l)) => {
                            if h >= 8 {
                                return None;
                            }
                            let value: u8 = h * 16 + l;
                            proof {
                                assert(rest.skip(6) =~= text@.skip(i + 6));
                            }
                            out.push(value);
                            i += 6;
                        },
                        _ => {
                            return None;
                        },
                    }
                },
            }
        } else if b < 0x20 {
            return None;
        } else {
            proof {
                assert(rest.skip(1) =~= text@.skip(i + 1));
            }
            out.push(b);
            i += 1;
        }
    }
    None
}

/// A text made of decimal digits only is ASCII.
pub proof fn lemma_decimal_value_ascii(text: Seq<u8>)
    requires
        decimal_value(text) is Some,
    ensures
        is_ascii_bytes(text),
        valid_utf8(text),
    decreases text.len(),
{
    if text.len() > 0 {
        lemma_decimal_value_ascii(text.drop_last());
        assert forall|i: int| 0 <= i < text.len() implies #[trigger] text[i] < 128 by {
            if i < text.len() - 1 {
                assert(text[i] == text.drop_last()[i]);
            }
        }
    }
    lemma_ascii_text_bytes(text);
    encode_utf8_valid_utf8(ascii_text(text));
}

/// Reads a policy from its JSON text.
pub fn policy_from_json(text: &[u8]) -> (r: Option<Policy>)
    ensures
        match r {
            Some(policy) => decoded_policy(text@) == Some(policy@),
            None => decoded_policy(text@) is None,
        },
{
    let opening = target_key_bytes();
    let middle = method_key_bytes();
    if !has_bytes_at(text, 0, opening.as_slice()) {
        return None;
    }
    let ghost after = text@.skip(11);
    let mut end: usize = 11;
    while end < text.len() && text[end] != '"' as u8
        invariant
            11 <= end <= text.len(),
            after == text@.skip(11),
            first_quote(after) == (end - 11) + first_quote(text@.skip(end as int)),
        decreases text.len() - end,
    {
        proof {
            assert(text@.skip(end as int).skip(1) =~= text@.skip(end + 1));
        }
        end += 1;
    }
    if !has_bytes_at(text, end, middle.as_slice()) {
        return None;
    }
    if text.len() - end < 12 || text[end + 11] != '"' as u8 {
        return None;
    }
    let digits = slice_to_vec(slice_subrange(text, 11, end));
    let numeral = match string_from_utf8(digits) {
        Some(numeral) => numeral,
        None => {
            proof {
                if decimal_value(text@.subrange(11, end as int)) is Some {
                    lemma_decimal_value_ascii(text@.subrange(11, end as int));
                }
            }
            return None;
        },
    };
    let target = match Felt::from_dec_str(numeral.as_str()) {
        Some(target) => target,
        None => {
            return None;
        },
    };
    let inside = slice_subrange(text, end + 12, text.len());
    let (bytes, used) = match unescape(inside) {
        Some(read) => read,
        None => {
            return None;
        },
    };
    let stop = end + 12 + used;
    if text.len() - stop != 1 || text[stop] != '}' as u8 {
        proof {
            if text@.skip(stop as int) == seq!['}' as u8] {
                assert(text@.skip(stop as int).len() == 1);
                assert(text@.skip(stop as int)[0] == text@[stop as int]);
            }
        }
        return None;
    }
    proof {
        assert(text@.skip(stop as int) =~= seq!['}' as u8]);
    }
    let method = match string_from_utf8(bytes) {
        Some(method) => method,
        None => {
            return None;
        },
    };
    proof {
        encode_utf8_decode_utf8(method@);
    }
    Some(Policy { target, method })
}

/// Reading an escaped string up to its closing quote gives the bytes back,
/// whatever follows the quote.
pub proof fn lemma_unescape_round_trip(bytes: Seq<u8>, rest: Seq<u8>)
    ensures
        unescaped(escaped(bytes) + seq!['"' as u8] + rest) == Some(
            (bytes, escaped(bytes).len() as int + 1),
        ),
    decreases bytes.len(),
{
    let text = escaped(bytes) + seq!['"' as u8] + rest;
    if bytes.len() > 0 {
        let head = escaped_byte(bytes[0]);
        let later = bytes.skip(1);
        let tail = escaped(later) + seq!['"' as u8] + rest;
        lemma_unescape_round_trip(later, rest);
        assert(text.skip(head.len() as int) =~= tail);
    }
}

/// Where no quote stands in `numeral` and `rest` begins with one, the first
/// quote of the two together is the one that begins `rest`.
pub proof fn lemma_first_quote_after(numeral: Seq<u8>, rest: Seq<u8>)
    requires
        forall|i: int| 0 <= i < numeral.len() ==> numeral[i] != '"' as u8,
        rest.len() > 0,
        rest[0] == '"' as u8,
    ensures
        first_quote(numeral + rest) == numeral.len(),
    decreases numeral.len(),
{
    if numeral.len() > 0 {
        lemma_first_quote_after(numeral.skip(1), rest);
        assert((numeral + rest).skip(1) =~= numeral.skip(1) + rest);
    }
}

/// Reading the JSON text of a policy gives the policy back.
pub proof fn lemma_policy_json_round_trip(policy: PolicyText)
    requires
        policy.target < stark_prime(),
    ensures
        decoded_policy(policy_json_of(policy)) == Some(policy),
        policy_json_of(policy).len() > 0,
{
    let method = encode_utf8(policy.method);
    let digits = decimal_digits(policy.target);
    let text = policy_json_of(policy);
    let quote = seq!['"' as u8];
    let brace = seq!['}' as u8];
    let end = 11 + digits.len() as int;
    lemma_decimal_round_trip(policy.target);
    assert(text.subrange(0, 11) =~= target_key());
    let after = digits + (method_key() + quote + escaped(method) + quote + brace);
    assert(text.skip(11) =~= after);
    assert forall|i: int| 0 <= i < digits.len() implies digits[i] != '"' as u8 by {}
    lemma_first_quote_after(digits, method_key() + quote + escaped(method) + quote + brace);
    assert(text.subrange(end, end + 11) =~= method_key());
    assert(text.subrange(11, end) =~= digits);
    assert(text.skip(end + 12) =~= escaped(method) + quote + brace);
    lemma_unescape_round_trip(method, brace);
    assert(text.skip(end + 12 + escaped(method).len() + 1) =~= brace);
    encode_utf8_valid_utf8(policy.method);
    encode_utf8_decode_utf8(policy.method);
}

} // verus!
