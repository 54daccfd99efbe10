//! A row of the dump: offset label, hex column, padding, gap, text column.

use vstd::prelude::*;

use crate::hex::{
    byte_token, format_offset, is_plain_char, lemma_byte_token_shape, lemma_hex_char_is_digit,
    lemma_offset_label_shape, offset_label,
};
use crate::highlight::{all_plain, format_token, shows_byte};
use crate::text::{chunk_text, decode_chunk, mark_whitespace, shown_text};

verus! {

/// The number of spaces between the hex column and the text column.
pub const SPACE_BEFORE_TEXT: usize = 2;

/// `count` spaces.
pub open spec fn spaces(count: nat) -> Seq<char> {
    Seq::new(count, |k: int| ' ')
}

/// What follows the hex column of a row of `len` bytes where a full row has
/// `stride`: nothing after a full row, else as many spaces as the gap has,
/// and two more for each missing byte.
pub open spec fn padding(stride: nat, len: nat) -> Seq<char> {
    if len < stride {
        spaces((SPACE_BEFORE_TEXT + 2 * (stride - len)) as nat)
    } else {
        Seq::empty()
    }
}

/// The spaces in front of the text column.
pub open spec fn gap() -> Seq<char> {
    spaces(SPACE_BEFORE_TEXT as nat)
}

/// The contents of each string of a sequence.
pub open spec fn views(strings: Seq<String>) -> Seq<Seq<char>> {
    Seq::new(strings.len(), |k: int| strings[k]@)
}

/// The plain token of each byte of a chunk.
pub open spec fn plain_tokens(chunk: Seq<u8>) -> Seq<Seq<char>> {
    Seq::new(chunk.len(), |k: int| byte_token(chunk[k]))
}

/// The row made of these parts: the label of `offset`, the tokens one after
/// the other, the padding that a row of as many bytes as there are tokens
/// needs, the gap, and `text` as the text column shows it.
pub open spec fn row_of(offset: nat, tokens: Seq<Seq<char>>, stride: nat, text: Seq<char>) -> Seq<
    char,
> {
    offset_label(offset) + tokens.flatten() + padding(stride, tokens.len()) + gap() + shown_text(
        text,
    )
}

/// The row of `chunk` at `offset` without any highlight.
pub open spec fn plain_row(offset: nat, chunk: Seq<u8>, stride: nat) -> Seq<char> {
    row_of(offset, plain_tokens(chunk), stride, chunk_text(chunk))
}

/// `row` is the row of `chunk` at `offset` in which byte `k` is shown by
/// `tokens[k]`.
pub open spec fn is_row_with(
    row: Seq<char>,
    offset: nat,
    chunk: Seq<u8>,
    stride: nat,
    colored: bool,
    tokens: Seq<Seq<char>>,
) -> bool {
    &&& tokens.len() == chunk.len()
    &&& forall|k: int| 0 <= k < chunk.len() ==> shows_byte(#[trigger] tokens[k], chunk[k], colored)
    &&& row == row_of(offset, tokens, stride, chunk_text(chunk))
}

/// `row` is a row of `chunk` at `offset`: each byte is shown by its plain
/// token or, where colour is on and the byte stands out, by its token with
/// markup.
pub open spec fn is_row(row: Seq<char>, offset: nat, chunk: Seq<u8>, stride: nat, colored: bool) -> bool {
    exists|tokens: Seq<Seq<char>>| #[trigger] is_row_with(row, offset, chunk, stride, colored, tokens)
}

/// A row carries markup only where colour is on and one of its bytes stands
/// out: with colour off, or with no such byte, it is the plain row.
pub proof fn lemma_markup_is_gated(
    row: Seq<char>,
    offset: nat,
    chunk: Seq<u8>,
    stride: nat,
    colored: bool,
)
    requires
        is_row(row, offset, chunk, stride, colored),
        all_plain(chunk, colored),
    ensures
        row == plain_row(offset, chunk, stride),
{
    let tokens = choose|tokens: Seq<Seq<char>>| #[trigger]
        is_row_with(row, offset, chunk, stride, colored, tokens);
    assert forall|k: int| 0 <= k < chunk.len() implies tokens[k] == plain_tokens(chunk)[k] by {
        assert(shows_byte(tokens[k], chunk[k], colored));
    }
    assert(tokens =~= plain_tokens(chunk));
}

/// Where the text column of a row without markup starts: behind the label,
/// three characters for each byte, the padding and the gap.
pub open spec fn text_column(offset: nat, len: nat, stride: nat) -> nat {
    offset_label(offset).len() + 3 * len + padding(stride, len).len() + gap().len()
}

/// The plain hex column holds three characters for each byte of the chunk:
/// the byte's token. None of them is anything but a digit or a space.
pub proof fn lemma_plain_hex_column(chunk: Seq<u8>)
    ensures
        plain_tokens(chunk).flatten().len() == 3 * chunk.len(),
        forall|k: int|
            0 <= k < chunk.len() ==> plain_tokens(chunk).flatten().subrange(3 * k, 3 * k + 3)
                == byte_token(#[trigger] chunk[k]),
        forall|m: int|
            0 <= m < 3 * chunk.len() ==> is_plain_char(#[trigger] plain_tokens(chunk).flatten()[m]),
    decreases chunk.len(),
{
    let flat = plain_tokens(chunk).flatten();
    if chunk.len() > 0 {
        // the column of the chunk is the column of its front, and one more token
        let front = chunk.drop_last();
        let last = byte_token(chunk.last());
        lemma_plain_hex_column(front);
        lemma_byte_token_shape(chunk.last());
        lemma_hex_char_is_digit(chunk.last() as int / 16);
        lemma_hex_char_is_digit(chunk.last() as int % 16);
        assert(plain_tokens(chunk) =~= plain_tokens(front).push(last));
        plain_tokens(front).lemma_flatten_push(last);
        assert forall|k: int| 0 <= k < chunk.len() implies flat.subrange(3 * k, 3 * k + 3)
            == byte_token(#[trigger] chunk[k]) by {
            if k < front.len() {
                assert(front[k] == chunk[k]);
            }
        }
    }
}

/// A plain row is laid out in plain characters up to its text column: digits,
/// a colon and spaces, and so no markup; the text column starts at
/// `text_column` and holds the text of the chunk as the text column shows
/// it.
pub proof fn lemma_plain_row_layout(offset: nat, chunk: Seq<u8>, stride: nat)
    ensures
        plain_row(offset, chunk, stride).len() == text_column(offset, chunk.len(), stride)
            + chunk_text(chunk).len(),
        plain_row(offset, chunk, stride).subrange(
            text_column(offset, chunk.len(), stride) as int,
            plain_row(offset, chunk, stride).len() as int,
        ) == shown_text(chunk_text(chunk)),
        forall|k: int|
            0 <= k < text_column(offset, chunk.len(), stride) ==> is_plain_char(
                #[trigger] plain_row(offset, chunk, stride)[k],
            ),
{
    lemma_plain_hex_column(chunk);
    lemma_offset_label_shape(offset);
}

/// Every row, highlighted or not, ends with its text column: the text of its
/// chunk, with the marker in place of each space, line feed and carriage
/// return and every other character as it is.
pub proof fn lemma_row_ends_with_text(
    row: Seq<char>,
    offset: nat,
    chunk: Seq<u8>,
    stride: nat,
    colored: bool,
)
    requires
        is_row(row, offset, chunk, stride, colored),
    ensures
        row.len() >= chunk_text(chunk).len(),
        row.subrange(row.len() - chunk_text(chunk).len(), row.len() as int) == shown_text(
            chunk_text(chunk),
        ),
{
}

/// Appends `count` spaces to `out`.
pub fn push_spaces(out: &mut String, count: usize)
    ensures
        final(out)@ == old(out)@ + spaces(count as nat),
{
    for k in 0..count
        invariant
            out@ == old(out)@ + spaces(k as nat),
    {
        out.push(' ');
    }
}

/// Puts a row together from the offset of its first byte, the token of each
/// of its bytes, the number of bytes in a full row, and its bytes as text.
pub fn assemble_row(offset: usize, tokens: &Vec<String>, stride: usize, text: &str) -> (row: String)
    ensures
        row@ == row_of(offset as nat, views(tokens@), stride as nat, text@),
{
    let mut row = format_offset(offset);
    for j in 0..tokens.len()
        invariant
            row@ == offset_label(offset as nat) + views(tokens@).take(j as int).flatten(),
    {
        proof {
            // the first `j + 1` tokens are the first `j`, and one more
            let parts = views(tokens@);
            assert(parts.take(j + 1) =~= parts.take(j as int).push(tokens@[j as int]@));
            parts.take(j as int).lemma_flatten_push(tokens@[j as int]@);
        }
        row.append(tokens[j].as_str());
    }
    proof {
        assert(views(tokens@).take(tokens.len() as int) =~= views(tokens@));
    }
    let ghost hex = row@;
    if tokens.len() < stride {
        let missing: usize = stride - tokens.len();
        push_spaces(&mut row, SPACE_BEFORE_TEXT);
        for k in 0..missing
            invariant
                row@ == hex + spaces((SPACE_BEFORE_TEXT + 2 * k) as nat),
        {
            push_spaces(&mut row, 2);
        }
    }
    push_spaces(&mut row, SPACE_BEFORE_TEXT);
    let shown = mark_whitespace(text);
    row.append(shown.as_str());
    row
}

/// The row of `chunk`, whose first byte stands at `offset` in the buffer,
/// where a full row has `stride` bytes. The tokens of bytes that stand out
/// are handed to the terminal-colour crate if `colored` is set; whether
/// markup comes back is for that crate to say. With colour off, or without
/// such a byte, the row is the plain row.
pub fn format_row(offset: usize, chunk: &[u8], stride: usize, colored: bool) -> (row: String)
    ensures
        is_row(row@, offset as nat, chunk@, stride as nat, colored),
        all_plain(chunk@, colored) ==> row@ == plain_row(offset as nat, chunk@, stride as nat),
{
    let mut tokens: Vec<String> = Vec::new();
    for j in 0..chunk.len()
        invariant
            tokens.len() == j,
            forall|k: int| 0 <= k < j ==> shows_byte(#[trigger] tokens@[k]@, chunk@[k], colored),
    {
        tokens.push(format_token(chunk[j], colored));
    }
    let text = decode_chunk(chunk);
    let row = assemble_row(offset, &tokens, stride, text.as_str());
    proof {
        assert(is_row_with(
            row@,
            offset as nat,
            chunk@,
            stride as nat,
            colored,
            views(tokens@),
        ));
        if all_plain(chunk@, colored) {
            lemma_markup_is_gated(row@, offset as nat, chunk@, stride as nat, colored);
        }
    }
    row
}

} // verus!
