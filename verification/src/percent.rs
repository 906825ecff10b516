//! Percent-encoding: every byte but the unreserved ones (ASCII letters and
//! digits, `-`, `.`, `_`, `~`) is written as `%` and two upper-case
//! hexadecimal digits.

use crate::text::ascii_text;
use vstd::prelude::*;

verus! {

/// The bytes that stand for themselves.
pub open spec fn is_unreserved(b: u8) -> bool {
    ||| 0x30 <= b <= 0x39
    ||| 0x41 <= b <= 0x5a
    ||| 0x61 <= b <= 0x7a
    ||| b == 0x2d
    ||| b == 0x2e
    ||| b == 0x5f
    ||| b == 0x7e
}

/// The upper-case hexadecimal digit for a value below sixteen.
pub open spec fn upper_hex_digit(d: int) -> u8 {
    if d < 10 {
        (0x30 + d) as u8
    } else {
        (0x41 + d - 10) as u8
    }
}

/// How one byte is written.
pub open spec fn encoded_byte(b: u8) -> Seq<u8> {
    if is_unreserved(b) {
        seq![b]
    } else {
        seq![0x25u8, upper_hex_digit(b as int / 16), upper_hex_digit(b as int % 16)]
    }
}

/// The percent-encoding of `bytes`.
pub open spec fn percent_encoded(bytes: Seq<u8>) -> Seq<u8>
    decreases bytes.len(),
{
    if bytes.len() == 0 {
        Seq::empty()
    } else {
        encoded_byte(bytes[0]) + percent_encoded(bytes.skip(1))
    }
}

/// The value of a hexadecimal digit in either case.
pub open spec fn hex_nibble(c: u8) -> Option<int> {
    if 0x30 <= c <= 0x39 {
        Some(c - 0x30)
    } else if 0x41 <= c <= 0x46 {
        Some(c - 0x41 + 10)
    } else if 0x61 <= c <= 0x66 {
        Some(c - 0x61 + 10)
    } else {
        None
    }
}

/// `head` before what `tail` holds, where it holds anything.
pub open spec fn prepend(head: Seq<u8>, tail: Option<Seq<u8>>) -> Option<Seq<u8>> {
    match tail {
        Some(rest) => Some(head + rest),
        None => None,
    }
}

/// The bytes that a percent-encoded text stands for. `%` must be followed
/// by two hexadecimal digits, of either case; any other byte stands for
/// itself.
pub open spec fn percent_decoded(text: Seq<u8>) -> Option<Seq<u8>>
    decreases text.len(),
{
    if text.len() == 0 {
        Some(Seq::empty())
    } else if text[0] != 0x25 {
        prepend(seq![text[0]], percent_decoded(text.skip(1)))
    } else if text.len() >= 3 && hex_nibble(text[1]) is Some && hex_nibble(text[2]) is Some {
        prepend(
            seq![(hex_nibble(text[1])->0 * 16 + hex_nibble(text[2])->0) as u8],
            percent_decoded(text.skip(3)),
        )
    } else {
        None
    }
}

/// `urlencoding::encode_binary`, the byte-slice form of `urlencoding::encode`:
/// the percent-encoding of `data`, which is ASCII text.
#[verifier::external_body]
pub(crate) fn percent_encode(data: &[u8]) -> (r: String)
    ensures
        r@ == ascii_text(percent_encoded(data@)),
{
    urlencoding::encode_binary(data).into_owned()
}

pub(crate) fn nibble(c: u8) -> (r: Option<u8>)
    ensures
        match r {
            Some(v) => hex_nibble(c) == Some(v as int) && v < 16,
            None => hex_nibble(c) is None,
        },
{
    if 0x30 <= c && c <= 0x39 {
        Some(c - 0x30)
    } else if 0x41 <= c && c <= 0x46 {
        Some(c - 0x41 + 10)
    } else if 0x61 <= c && c <= 0x66 {
        Some(c - 0x61 + 10)
    } else {
        None
    }
}

/// Decodes a percent-encoded text. `None` where a `%` is not followed by
/// two hexadecimal digits.
pub fn percent_decode(text: &[u8]) -> (r: Option<Vec<u8>>)
    ensures
        match r {
            Some(bytes) => percent_decoded(text@) == Some(bytes@),
            None => percent_decoded(text@) is None,
        },
{
    let mut out: Vec<u8> = Vec::new();
    let mut i: usize = 0;
    proof {
        assert(text@.skip(0) =~= text@);
    }
    while i < text.len()
        invariant
            i <= text.len(),
            percent_decoded(text@) == prepend(out@, percent_decoded(text@.skip(i as int))),
        decreases text.len() - i,
    {
        let ghost rest = text@.skip(i as int);
        let b = text[i];
        if b != 0x25 {
            proof {
                assert(rest.skip(1) =~= text@.skip(i + 1));
            }
            out.push(b);
            i += 1;
        } else {
            if text.len() - i < 3 {
                return None;
            }
            let high = nibble(text[i + 1]);
            let low = nibble(text[i + 2]);
            match (high, low) {
                (Some(h), Some(l)) => {
                    let value: u8 = h * 16 + l;
                    proof {
                        assert(rest.skip(3) =~= text@.skip(i + 3));
                    }
                    out.push(value);
                    i += 3;
                },
                _ => {
                    return None;
                },
            }
        }
    }
    Some(out)
}

/// Decoding a percent-encoding gives the bytes back.
pub proof fn lemma_percent_round_trip(bytes: Seq<u8>)
    ensures
        percent_decoded(percent_encoded(bytes)) == Some(bytes),
    decreases bytes.len(),
{
    if bytes.len() > 0 {
        let b = bytes[0];
        let rest = bytes.skip(1);
        let tail = percent_encoded(rest);
        let text = percent_encoded(bytes);
        lemma_percent_round_trip(rest);
        if is_unreserved(b) {
            assert(text.skip(1) =~= tail);
        } else {
            assert(text.skip(3) =~= tail);
        }
    }
}

/// A percent-encoding is made of unreserved bytes and `%` alone.
pub proof fn lemma_percent_encoded_plain(bytes: Seq<u8>)
    ensures
        forall|i: int|
            0 <= i < percent_encoded(bytes).len() ==> is_unreserved(#[trigger] percent_encoded(bytes)[i])
                || percent_encoded(bytes)[i] == 0x25,
        bytes.len() > 0 ==> percent_encoded(bytes).len() > 0,
    decreases bytes.len(),
{
    if bytes.len() > 0 {
        lemma_percent_encoded_plain(bytes.skip(1));
        let head = encoded_byte(bytes[0]);
        let tail = percent_encoded(bytes.skip(1));
        assert forall|i: int| 0 <= i < percent_encoded(bytes).len() implies is_unreserved(
            #[trigger] percent_encoded(bytes)[i],
        ) || percent_encoded(bytes)[i] == 0x25 by {
            if i >= head.len() {
                assert(percent_encoded(bytes)[i] == tail[i - head.len()]);
            }
        }
    }
}

} // verus!
