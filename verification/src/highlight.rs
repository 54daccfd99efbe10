//! Highlighting of hex tokens: which bytes stand out, and the markup that
//! makes their tokens red.

use colored::Colorize;
use vstd::prelude::*;

use crate::hex::{byte_token, format_byte, lemma_byte_token_shape, lemma_hex_char_is_digit};

verus! {

/// An ASCII control character: U+0000 to U+001F, or U+007F.
pub open spec fn is_ascii_control(byte: u8) -> bool {
    byte <= 0x1f || byte == 0x7f
}

/// An ASCII whitespace character: space, tab, line feed, form feed or
/// carriage return.
pub open spec fn is_ascii_whitespace(byte: u8) -> bool {
    byte == 0x20 || byte == 0x09 || byte == 0x0a || byte == 0x0c || byte == 0x0d
}

/// The bytes whose tokens are highlighted when colour is on.
pub open spec fn stands_out(byte: u8) -> bool {
    is_ascii_control(byte) || is_ascii_whitespace(byte)
}

/// No token of `bytes` is to be highlighted: colour is off, or none of the
/// bytes stands out.
pub open spec fn all_plain(bytes: Seq<u8>, colored: bool) -> bool {
    !colored || forall|k: int| 0 <= k < bytes.len() ==> !stands_out(#[trigger] bytes[k])
}

/// The escape character, with which every piece of markup begins.
pub open spec fn escape() -> char {
    '\u{1b}'
}

/// The sequence that switches the foreground colour to red.
pub open spec fn red_on() -> Seq<char> {
    seq![escape(), '[', '3', '1', 'm']
}

/// The sequence that switches all styling off.
pub open spec fn style_off() -> Seq<char> {
    seq![escape(), '[', '0', 'm']
}

/// `painted` is `token` with highlight markup: the token followed by the
/// reset sequence, and preceded by the red sequence unless colouring was
/// switched off while the token was being written.
pub open spec fn has_markup(painted: Seq<char>, token: Seq<char>) -> bool {
    painted == red_on() + token + style_off() || painted == token + style_off()
}

/// `shown` is a way to show `byte` in the hex column: its plain token, or,
/// only where colour is on and the byte stands out, its token with markup.
pub open spec fn shows_byte(shown: Seq<char>, byte: u8, colored: bool) -> bool {
    shown == byte_token(byte) || (colored && stands_out(byte) && has_markup(
        shown,
        byte_token(byte),
    ))
}

/// `colored`'s `Colorize::red` on a string slice, and the `Display` of the
/// `ColoredString` that it returns. `Display` asks the crate's process-wide
/// switch (environment variables, whether standard output is a terminal, a
/// manual override) whether to colour at all, and once more when it writes
/// the colour sequence: so the token comes back unchanged, or between the
/// red and the reset sequence, or followed by the reset sequence alone.
/// Reset sequences inside a token would be rewritten: `requires` leaves out
/// the tokens that hold an escape character.
#[verifier::external_body]
fn paint_red(token: &str) -> (painted: String)
    requires
        !token@.contains(escape()),
    ensures
        painted@ == token@ || has_markup(painted@, token@),
{
    format!("{}", token.red())
}

/// Whether the token of `byte` is to be highlighted.
pub fn wants_highlight(byte: u8, colored: bool) -> (wanted: bool)
    ensures
        wanted == (colored && stands_out(byte)),
{
    colored && (byte <= 0x20 || byte == 0x7f)
}

/// The token of `byte` for the hex column: plain, or handed to the
/// terminal-colour crate where it is to be highlighted.
pub fn format_token(byte: u8, colored: bool) -> (shown: String)
    ensures
        shows_byte(shown@, byte, colored),
        !(colored && stands_out(byte)) ==> shown@ == byte_token(byte),
{
    let token = format_byte(byte);
    if wants_highlight(byte, colored) {
        proof {
            lemma_token_has_no_escape(byte);
        }
        paint_red(token.as_str())
    } else {
        token
    }
}

/// A plain token holds no escape character.
pub proof fn lemma_token_has_no_escape(byte: u8)
    ensures
        !byte_token(byte).contains(escape()),
{
    lemma_byte_token_shape(byte);
    lemma_hex_char_is_digit(byte as int / 16);
    lemma_hex_char_is_digit(byte as int % 16);
    let token = byte_token(byte);
    assert forall|k: int| 0 <= k < token.len() implies token[k] != escape() by {}
}

} // verus!
