//! The text column of a row: the characters that the row's bytes decode to,
//! with a visible marker in place of the blank ones.

use vstd::prelude::*;
use vstd::utf8::{
    decode_utf8, encode_utf8, encode_utf8_decode_utf8, encode_utf8_valid_utf8,
    is_ascii_chars_encode_utf8, valid_utf8,
};

use crate::strings::{decode_lossy, lossy_text};

verus! {

/// The text of a chunk of bytes: the characters that it encodes where it is
/// valid UTF-8, and else what lossy decoding makes of it.
pub open spec fn chunk_text(chunk: Seq<u8>) -> Seq<char> {
    if valid_utf8(chunk) {
        decode_utf8(chunk)
    } else {
        lossy_text(chunk)
    }
}

/// The glyph shown in place of a space, a line feed or a carriage return:
/// U+2022, a bullet.
pub open spec fn marker() -> char {
    '\u{2022}'
}

/// Whether `c` is shown as the marker.
pub open spec fn is_blank(c: char) -> bool {
    c == ' ' || c == '\n' || c == '\r'
}

/// The character shown for `c` in the text column.
pub open spec fn shown_char(c: char) -> char {
    if is_blank(c) {
        marker()
    } else {
        c
    }
}

/// The text column for `text`: every character as `shown_char` shows it.
pub open spec fn shown_text(text: Seq<char>) -> Seq<char> {
    Seq::new(text.len(), |k: int| shown_char(text[k]))
}

/// A chunk of ASCII bytes is valid UTF-8, and its text has one character for
/// each byte, with the byte's value.
pub proof fn lemma_ascii_chunk_text(chunk: Seq<u8>)
    requires
        forall|k: int| 0 <= k < chunk.len() ==> chunk[k] < 0x80,
    ensures
        valid_utf8(chunk),
        chunk_text(chunk) == Seq::new(chunk.len(), |k: int| chunk[k] as char),
{
    // these characters are encoded by the chunk, each in one byte
    let chars = Seq::new(chunk.len(), |k: int| chunk[k] as char);
    is_ascii_chars_encode_utf8(chars);
    assert(encode_utf8(chars) =~= chunk);
    encode_utf8_valid_utf8(chars);
    encode_utf8_decode_utf8(chars);
}

/// The text of `chunk`.
pub fn decode_chunk(chunk: &[u8]) -> (text: String)
    ensures
        text@ == chunk_text(chunk@),
{
    decode_lossy(chunk)
}

/// The text column for `text`: as long as `text`, with the marker wherever
/// `text` has a space, a line feed or a carriage return, and the character
/// of `text` everywhere else.
pub fn mark_whitespace(text: &str) -> (shown: String)
    ensures
        shown@ == shown_text(text@),
        shown@.len() == text@.len(),
        forall|k: int|
            0 <= k < text@.len() ==> #[trigger] shown@[k] == if is_blank(text@[k]) {
                marker()
            } else {
                text@[k]
            },
{
    let mut shown = String::new();
    for c in it: text.chars()
        invariant
            it.seq() == text@,
            shown@ == shown_text(text@.take(it.index() as int)),
    {
        if c == ' ' || c == '\n' || c == '\r' {
            shown.push('\u{2022}');
        } else {
            shown.push(c);
        }
    }
    shown
}

} // verus!
