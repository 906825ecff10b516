//! Field elements of the Stark curve's base field, held as 32 big-endian
//! bytes below the field's modulus.

use crate::text::ascii_text;
use vstd::prelude::*;
use vstd::utf8::encode_utf8;

verus! {

/// The field's modulus: 2^251 + 17 * 2^192 + 1.
pub open spec fn stark_prime() -> nat {
    0x800000000000011000000000000000000000000000000000000000000000001nat
}

/// The number that a big-endian byte string stands for.
pub open spec fn be_value(bytes: Seq<u8>) -> nat
    decreases bytes.len(),
{
    if bytes.len() == 0 {
        0
    } else {
        be_value(bytes.drop_last()) * 256 + bytes.last() as nat
    }
}

/// The ASCII digit for a value below ten.
pub open spec fn decimal_digit(d: nat) -> u8 {
    (0x30 + d) as u8
}

/// The decimal numeral of `n`, without leading zeros.
pub open spec fn decimal_digits(n: nat) -> Seq<u8>
    decreases n,
{
    if n < 10 {
        seq![decimal_digit(n)]
    } else {
        decimal_digits(n / 10).push(decimal_digit(n % 10))
    }
}

/// Whether `b` is an ASCII decimal digit.
pub open spec fn is_decimal_digit(b: u8) -> bool {
    0x30 <= b <= 0x39
}

/// The number that a string of decimal digits stands for; the empty string
/// stands for zero and leading zeros are allowed. `None` where a byte is no
/// digit.
pub open spec fn decimal_value(text: Seq<u8>) -> Option<nat>
    decreases text.len(),
{
    if text.len() == 0 {
        Some(0)
    } else if is_decimal_digit(text.last()) {
        match decimal_value(text.drop_last()) {
            Some(v) => Some(v * 10 + (text.last() - 0x30) as nat),
            None => None,
        }
    } else {
        None
    }
}

/// The lower-case hexadecimal digit for a value below sixteen.
pub open spec fn hex_digit(d: nat) -> char {
    if d < 10 {
        ((0x30 + d) as u8) as char
    } else {
        ((0x61 + d - 10) as u8) as char
    }
}

/// The lower-case hexadecimal numeral of `n`, without leading zeros.
pub open spec fn hex_digits(n: nat) -> Seq<char>
    decreases n,
{
    if n < 16 {
        seq![hex_digit(n)]
    } else {
        hex_digits(n / 16).push(hex_digit(n % 16))
    }
}

/// The value of a lower-case hexadecimal digit, sixteen for any other character.
pub open spec fn hex_digit_value(c: char) -> nat {
    let u = c as u32;
    if 0x30 <= u <= 0x39 {
        (u - 0x30) as nat
    } else if 0x61 <= u <= 0x66 {
        (u - 0x61 + 10) as nat
    } else {
        16
    }
}

/// The number that a string of lower-case hexadecimal digits stands for.
pub open spec fn hex_value(text: Seq<char>) -> nat
    decreases text.len(),
{
    if text.len() == 0 {
        0
    } else {
        hex_value(text.drop_last()) * 16 + hex_digit_value(text.last())
    }
}

/// Reading a decimal numeral gives the number back.
pub proof fn lemma_decimal_round_trip(n: nat)
    ensures
        decimal_value(decimal_digits(n)) == Some(n),
        decimal_digits(n).len() >= 1,
        forall|i: int| 0 <= i < decimal_digits(n).len() ==> is_decimal_digit(#[trigger] decimal_digits(n)[i]),
    decreases n,
{
    if n < 10 {
        let s = decimal_digits(n);
        assert(decimal_value(s.drop_last()) == Some(0nat));
    } else {
        lemma_decimal_round_trip(n / 10);
        let s = decimal_digits(n);
        assert(s.drop_last() =~= decimal_digits(n / 10));
    }
}

/// Reading a hexadecimal numeral gives the number back.
pub proof fn lemma_hex_round_trip(n: nat)
    ensures
        hex_value(hex_digits(n)) == n,
        hex_digits(n).len() >= 1,
    decreases n,
{
    if n < 16 {
        let s = hex_digits(n);
        assert(hex_value(s.drop_last()) == 0);
    } else {
        lemma_hex_round_trip(n / 16);
        let s = hex_digits(n);
        assert(s.drop_last() =~= hex_digits(n / 16));
    }
}

/// A field element: a number below the modulus.
#[derive(Debug, Clone, Copy, PartialEq, Eq, Hash)]
pub struct Felt {
    bytes: [u8; 32],
}

impl View for Felt {
    type V = nat;

    closed spec fn view(&self) -> nat {
        be_value(self.bytes@)
    }
}

/// `FieldElement::from_bytes_be`, which accepts 32 big-endian bytes exactly
/// when the number they stand for is below the modulus.
#[verifier::external_body]
fn canonical(bytes: &[u8; 32]) -> (r: bool)
    ensures
        r == (be_value(bytes@) < stark_prime()),
{
    starknet::core::types::FieldElement::from_bytes_be(bytes).is_ok()
}

/// `FieldElement`'s `Display`, reached through `to_string`: the decimal
/// numeral of the element, without padding or leading zeros.
#[verifier::external_body]
fn decimal_text(bytes: &[u8; 32]) -> (r: String)
    requires
        be_value(bytes@) < stark_prime(),
    ensures
        r@ == ascii_text(decimal_digits(be_value(bytes@))),
{
    starknet::core::types::FieldElement::from_bytes_be(bytes).unwrap().to_string()
}

/// `FieldElement`'s `LowerHex` in its alternate form (`{:#x}`): `0x`, then the
/// lower-case hexadecimal numeral of the element without leading zeros.
#[verifier::external_body]
fn hex_text(bytes: &[u8; 32]) -> (r: String)
    requires
        be_value(bytes@) < stark_prime(),
    ensures
        r@ == seq!['0', 'x'] + hex_digits(be_value(bytes@)),
{
    format!("{:#x}", starknet::core::types::FieldElement::from_bytes_be(bytes).unwrap())
}

/// `FieldElement::from_dec_str`, then `to_bytes_be`: a string of decimal
/// digits whose number is below the modulus gives that number's 32
/// big-endian bytes; any other string is refused.
#[verifier::external_body]
fn decimal_bytes(text: &str) -> (r: Option<[u8; 32]>)
    ensures
        match r {
            Some(bytes) => decimal_value(encode_utf8(text@)) == Some(be_value(bytes@))
                && be_value(bytes@) < stark_prime(),
            None => match decimal_value(encode_utf8(text@)) {
                Some(v) => v >= stark_prime(),
                None => true,
            },
        },
{
    starknet::core::types::FieldElement::from_dec_str(text).ok().map(|felt| felt.to_bytes_be())
}

impl Felt {
    #[verifier::type_invariant]
    spec fn in_field(self) -> bool {
        be_value(self.bytes@) < stark_prime()
    }

    /// The element that 32 big-endian bytes stand for, if they stand for one.
    pub fn from_bytes_be(bytes: [u8; 32]) -> (r: Option<Felt>)
        ensures
            match r {
                Some(felt) => felt@ == be_value(bytes@) && felt@ < stark_prime(),
                None => be_value(bytes@) >= stark_prime(),
            },
    {
        if canonical(&bytes) {
            Some(Felt { bytes })
        } else {
            None
        }
    }

    /// The element's 32 big-endian bytes.
    pub fn to_bytes_be(&self) -> (r: [u8; 32])
        ensures
            be_value(r@) == self@,
            self@ < stark_prime(),
    {
        proof {
            use_type_invariant(self);
        }
        self.bytes
    }

    /// The element that a decimal numeral stands for. Leading zeros are
    /// allowed and the empty string is zero; a byte that is no digit, or a
    /// number at or above the modulus, gives `None`.
    pub fn from_dec_str(text: &str) -> (r: Option<Felt>)
        ensures
            match r {
                Some(felt) => decimal_value(encode_utf8(text@)) == Some(felt@) && felt@ < stark_prime(),
                None => match decimal_value(encode_utf8(text@)) {
                    Some(v) => v >= stark_prime(),
                    None => true,
                },
            },
    {
        match decimal_bytes(text) {
            Some(bytes) => Some(Felt { bytes }),
            None => None,
        }
    }

    /// The element's decimal numeral.
    pub fn to_decimal(&self) -> (r: String)
        ensures
            self@ < stark_prime(),
            r@ == ascii_text(decimal_digits(self@)),
    {
        proof {
            use_type_invariant(self);
        }
        decimal_text(&self.bytes)
    }

    /// The element's hexadecimal numeral in lower case, after `0x`.
    pub fn to_hex(&self) -> (r: String)
        ensures
            self@ < stark_prime(),
            r@ == seq!['0', 'x'] + hex_digits(self@),
    {
        proof {
            use_type_invariant(self);
        }
        hex_text(&self.bytes)
    }
}

} // verus!
