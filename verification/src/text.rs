//! Bytes and the text they spell.

use vstd::prelude::*;
use vstd::utf8::{encode_utf8, is_ascii_chars, is_ascii_chars_encode_utf8, valid_utf8};

verus! {

/// The text that ASCII bytes spell, byte for byte.
pub open spec fn ascii_text(bytes: Seq<u8>) -> Seq<char> {
    Seq::new(bytes.len(), |i: int| bytes[i] as char)
}

/// Whether every byte is an ASCII character.
pub open spec fn is_ascii_bytes(bytes: Seq<u8>) -> bool {
    forall|i: int| 0 <= i < bytes.len() ==> #[trigger] bytes[i] < 128
}

/// The text of ASCII bytes is ASCII, and its UTF-8 form is those bytes.
pub proof fn lemma_ascii_text_bytes(bytes: Seq<u8>)
    requires
        is_ascii_bytes(bytes),
    ensures
        is_ascii_chars(ascii_text(bytes)),
        encode_utf8(ascii_text(bytes)) == bytes,
{
    let chars = ascii_text(bytes);
    assert forall|i: int| 0 <= i < chars.len() implies '\0' <= #[trigger] chars[i] <= '\u{7f}' by {}
    is_ascii_chars_encode_utf8(chars);
    assert forall|i: int| 0 <= i < bytes.len() implies encode_utf8(chars)[i] == bytes[i] by {}
}

/// `String::from_utf8`: the string whose UTF-8 form is `bytes`, where they
/// are valid UTF-8, and nothing where they are not.
#[verifier::external_body]
pub(crate) fn string_from_utf8(bytes: Vec<u8>) -> (r: Option<String>)
    ensures
        match r {
            Some(text) => valid_utf8(bytes@) && encode_utf8(text@) == bytes@,
            None => !valid_utf8(bytes@),
        },
{
    String::from_utf8(bytes).ok()
}

/// Puts `more` at the end of `out`.
pub fn append_bytes(out: &mut Vec<u8>, more: &[u8])
    ensures
        final(out)@ == old(out)@ + more@,
{
    let mut i: usize = 0;
    while i < more.len()
        invariant
            i <= more.len(),
            out@ == old(out)@ + more@.take(i as int),
        decreases more.len() - i,
    {
        out.push(more[i]);
        i += 1;
    }
}

/// Whether `text` holds `word` from index `at` on.
pub open spec fn holds_at(text: Seq<u8>, at: int, word: Seq<u8>) -> bool {
    at + word.len() <= text.len() && text.subrange(at, at + word.len()) == word
}

/// Tests whether `text` holds `word` from index `at` on.
pub fn has_bytes_at(text: &[u8], at: usize, word: &[u8]) -> (r: bool)
    ensures
        r == holds_at(text@, at as int, word@),
{
    if at > text.len() || text.len() - at < word.len() {
        return false;
    }
    let mut i: usize = 0;
    while i < word.len()
        invariant
            i <= word.len(),
            at + word.len() <= text.len(),
            forall|j: int| 0 <= j < i ==> text@[at + j] == word@[j],
        decreases word.len() - i,
    {
        if text[at + i] != word[i] {
            return false;
        }
        i += 1;
    }
    proof {
        assert(text@.subrange(at as int, at + word.len()) =~= word@);
    }
    true
}

} // verus!
