//! The dump of a buffer: its rows, in order.

use vstd::prelude::*;

use crate::hex::{lemma_offset_label_shape, offset_label};
use crate::highlight::all_plain;
use crate::row::{format_row, is_row, lemma_plain_row_layout, plain_row, text_column, views};
use crate::text::{chunk_text, shown_text};
use crate::window::{
    lemma_advanced_is_next_row, lemma_row_count_is_ceiling, lemma_rows_are_contiguous,
    lemma_window_is_row, row_bytes, row_count, row_end, row_start, Iteration,
};

verus! {

/// `rows` is a dump of `buffer`: one row for each chunk of `stride` bytes,
/// front to back, each a row of its chunk at the chunk's offset.
pub open spec fn is_dump(rows: Seq<Seq<char>>, buffer: Seq<u8>, stride: int, colored: bool) -> bool {
    &&& rows.len() == row_count(buffer.len() as int, stride)
    &&& forall|i: int|
        0 <= i < rows.len() ==> is_row(
            #[trigger] rows[i],
            row_start(stride, i) as nat,
            row_bytes(buffer, stride, i),
            stride as nat,
            colored,
        )
}

/// The plain dump of `buffer`: the plain row of each of its chunks.
pub open spec fn plain_dump(buffer: Seq<u8>, stride: int) -> Seq<Seq<char>> {
    Seq::new(
        row_count(buffer.len() as int, stride) as nat,
        |i: int| plain_row(row_start(stride, i) as nat, row_bytes(buffer, stride, i), stride as nat),
    )
}

/// Where the text column of row `i` of a plain dump starts.
pub open spec fn text_column_at(total_length: int, stride: int, i: int) -> nat {
    text_column(
        row_start(stride, i) as nat,
        (row_end(total_length, stride, i) - row_start(stride, i)) as nat,
        stride as nat,
    )
}

/// The text columns of all rows of a plain dump start at the same position.
pub open spec fn rows_align(total_length: int, stride: int) -> bool {
    forall|i: int, j: int|
        0 <= i < row_count(total_length, stride) && 0 <= j < row_count(total_length, stride)
            ==> text_column_at(total_length, stride, i) == text_column_at(total_length, stride, j)
}

/// The dumps whose layout keeps the text column in place: those of at most
/// one row, and those in which every row but the last has an offset of
/// eight digits and the last row is either full, with an offset of eight
/// digits, or short of a full row by two bytes and one more for each digit
/// that its offset has beyond eight.
pub open spec fn keeps_text_column(total_length: int, stride: int) -> bool {
    let count = row_count(total_length, stride);
    let last_offset = (count - 1) * stride;
    let last_len = total_length - last_offset;
    let more_digits = offset_label(last_offset as nat).len() - 10;
    count <= 1 || {
        &&& (count - 2) * stride < 0x1_0000_0000
        &&& if last_len == stride {
            more_digits == 0
        } else {
            last_len + 2 + more_digits == stride
        }
    }
}

/// Row `i` of a plain dump has its text column at `text_column_at`: in front
/// of it stand the label, the tokens, the padding and the gap, and from
/// there on the text of the row's bytes as the text column shows it.
pub proof fn lemma_dump_text_column(buffer: Seq<u8>, stride: int, i: int)
    requires
        stride >= 1,
        0 <= i < row_count(buffer.len() as int, stride),
    ensures
        plain_dump(buffer, stride)[i].len() == text_column_at(buffer.len() as int, stride, i)
            + chunk_text(row_bytes(buffer, stride, i)).len(),
        plain_dump(buffer, stride)[i].subrange(
            text_column_at(buffer.len() as int, stride, i) as int,
            plain_dump(buffer, stride)[i].len() as int,
        ) == shown_text(chunk_text(row_bytes(buffer, stride, i))),
{
    lemma_rows_are_contiguous(buffer.len() as int, stride, i);
    lemma_plain_row_layout(
        row_start(stride, i) as nat,
        row_bytes(buffer, stride, i),
        stride as nat,
    );
}

/// The text columns of all rows of a plain dump start at the same position,
/// for the dumps that `keeps_text_column` names. (The padding behind a short
/// last row is two spaces and two for each missing byte, where a token has
/// three characters: it makes up for a row that is two bytes short.)
pub proof fn lemma_text_columns_align(total_length: int, stride: int)
    requires
        total_length >= 0,
        stride >= 1,
        keeps_text_column(total_length, stride),
    ensures
        rows_align(total_length, stride),
{
    lemma_alignment(total_length, stride);
}

/// In every other dump two rows have their text columns at different
/// positions.
pub proof fn lemma_text_columns_differ(total_length: int, stride: int)
    requires
        total_length >= 0,
        stride >= 1,
        !keeps_text_column(total_length, stride),
    ensures
        !rows_align(total_length, stride),
{
    lemma_alignment(total_length, stride);
}

/// For a buffer of up to 2^32 bytes every offset has eight digits, and the
/// dumps that keep the text column in place are those of at most one row
/// and those whose last row is full or two bytes short.
pub proof fn lemma_keeps_text_column_below_eight_digits(total_length: int, stride: int)
    requires
        0 <= total_length <= 0x1_0000_0000,
        stride >= 1,
    ensures
        keeps_text_column(total_length, stride) <==> {
            ||| row_count(total_length, stride) <= 1
            ||| total_length % stride == 0
            ||| total_length % stride + 2 == stride
        },
{
    lemma_alignment(total_length, stride);
}

proof fn lemma_alignment(total_length: int, stride: int)
    requires
        total_length >= 0,
        stride >= 1,
    ensures
        rows_align(total_length, stride) <==> keeps_text_column(total_length, stride),
        total_length <= 0x1_0000_0000 ==> (keeps_text_column(total_length, stride) <==> {
            ||| row_count(total_length, stride) <= 1
            ||| total_length % stride == 0
            ||| total_length % stride + 2 == stride
        }),
{
    let n = total_length;
    let w = stride;
    let count = row_count(n, w);
    let last = count - 1;
    let last_offset = last * w;
    let last_len = n - last_offset;
    let more_digits = offset_label(last_offset as nat).len() - 10;
    let full = 12 + 3 * w;
    lemma_row_count_is_ceiling(n, w);
    if count >= 2 {
        // the last row: `last_len` bytes at `last_offset`
        lemma_rows_are_contiguous(n, w, last);
        lemma_offset_label_shape(last_offset as nat);
        assert(row_start(w, last) == last_offset);
        assert(text_column_at(n, w, last) == if last_len == w {
            10 + more_digits + 3 * w + 2
        } else {
            10 + more_digits + 3 * last_len + (2 + 2 * (w - last_len)) + 2
        });
        // the rows in front of it: full rows
        assert forall|i: int| 0 <= i < last implies #[trigger] text_column_at(n, w, i)
            == offset_label((i * w) as nat).len() + 3 * w + 2 by {
            lemma_rows_are_contiguous(n, w, i);
        }
        assert((count - 2) * w >= 0) by (nonlinear_arith)
            requires
                count >= 2,
                w >= 1,
        ;
        lemma_offset_label_shape(((count - 2) * w) as nat);
        lemma_offset_label_shape(0);
        assert(0 * w == 0);
        assert(text_column_at(n, w, 0) == full);
        if keeps_text_column(n, w) {
            assert forall|i: int| 0 <= i < count implies #[trigger] text_column_at(n, w, i)
                == full by {
                if i < last {
                    assert(0 <= i * w <= (count - 2) * w) by (nonlinear_arith)
                        requires
                            0 <= i <= count - 2,
                            w >= 1,
                    ;
                    lemma_offset_label_shape((i * w) as nat);
                }
            }
            assert(rows_align(n, w));
        }
        if rows_align(n, w) {
            assert(text_column_at(n, w, 0) == text_column_at(n, w, count - 2));
            assert(text_column_at(n, w, 0) == text_column_at(n, w, last));
            assert(keeps_text_column(n, w));
        }
        if n <= 0x1_0000_0000 {
            // every offset has eight digits, and `last_len` is the remainder or `w`
            assert(last_offset < n);
            assert(last * w == (count - 2) * w + w) by (nonlinear_arith)
                requires
                    last == count - 1,
            ;
            assert(more_digits == 0);
            vstd::arithmetic::div_mod::lemma_fundamental_div_mod(n, w);
            vstd::arithmetic::div_mod::lemma_mod_bound(n, w);
            if n % w == 0 {
                assert(last_len == w) by (nonlinear_arith)
                    requires
                        n == w * (n / w),
                        count == n / w,
                        last_len == n - (count - 1) * w,
                ;
            } else {
                assert(last_len == n % w) by (nonlinear_arith)
                    requires
                        n == w * (n / w) + n % w,
                        count == n / w + 1,
                        last_len == n - (count - 1) * w,
                ;
            }
        }
    }
}

/// The rows of the dump of `buffer`, `stride` bytes to a row: as many as
/// `buffer.len() / stride` rounded up, none for an empty buffer; row `i`
/// shows the bytes from `i * stride` up to `(i + 1) * stride` or the end of
/// the buffer. With `colored` off, or without a byte that stands out, every
/// row is the plain row.
pub fn render_rows(buffer: &[u8], stride: usize, colored: bool) -> (rows: Vec<String>)
    requires
        stride >= 1,
    ensures
        is_dump(views(rows@), buffer@, stride as int, colored),
        rows@.len() == row_count(buffer@.len() as int, stride as int),
        buffer@.len() == 0 ==> rows@.len() == 0,
        all_plain(buffer@, colored) ==> views(rows@) == plain_dump(buffer@, stride as int),
{
    let ghost count = row_count(buffer@.len() as int, stride as int);
    let mut rows: Vec<String> = Vec::new();
    let mut window = Iteration::new(buffer.len(), stride);
    proof {
        lemma_row_count_is_ceiling(buffer@.len() as int, stride as int);
        lemma_window_is_row(buffer.len(), stride, 0);
    }
    while !window.is_done()
        invariant
            stride >= 1,
            count == row_count(buffer@.len() as int, stride as int),
            0 <= rows@.len() <= count,
            window == Iteration::at(buffer.len(), stride, rows@.len() as int),
            forall|i: int|
                0 <= i < rows@.len() ==> is_row(
                    #[trigger] rows@[i]@,
                    row_start(stride as int, i) as nat,
                    row_bytes(buffer@, stride as int, i),
                    stride as nat,
                    colored,
                ),
            all_plain(buffer@, colored) ==> forall|i: int|
                0 <= i < rows@.len() ==> #[trigger] rows@[i]@ == plain_row(
                    row_start(stride as int, i) as nat,
                    row_bytes(buffer@, stride as int, i),
                    stride as nat,
                ),
        decreases count - rows@.len(),
    {
        let ghost i = rows@.len() as int;
        proof {
            lemma_window_is_row(buffer.len(), stride, i);
            lemma_rows_are_contiguous(buffer@.len() as int, stride as int, i);
            lemma_advanced_is_next_row(buffer.len(), stride, i);
        }
        let chunk = &buffer[window.start..window.end];
        let row = format_row(window.start, chunk, stride, colored);
        rows.push(row);
        window.next();
    }
    proof {
        // the window is done: every row has been made
        lemma_window_is_row(buffer.len(), stride, rows@.len() as int);
    }
    rows
}

} // verus!
