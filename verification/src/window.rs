//! The chunk window: which bytes of a buffer belong to which row.
//!
//! A buffer of `total_length` bytes shown `stride` bytes per row has
//! `row_count(total_length, stride)` rows; row `i` holds the bytes from
//! `row_start(stride, i)` up to, but not including,
//! `row_end(total_length, stride, i)`.

use vstd::prelude::*;

verus! {

/// The number of rows: `total_length / stride`, rounded up.
pub open spec fn row_count(total_length: int, stride: int) -> int
    recommends
        total_length >= 0,
        stride >= 1,
{
    (total_length + stride - 1) / stride
}

/// The offset of the first byte of row `i`.
pub open spec fn row_start(stride: int, i: int) -> int {
    i * stride
}

/// The offset just past the last byte of row `i`.
pub open spec fn row_end(total_length: int, stride: int, i: int) -> int {
    if (i + 1) * stride <= total_length {
        (i + 1) * stride
    } else {
        total_length
    }
}

/// The bytes of row `i`.
pub open spec fn row_bytes(buffer: Seq<u8>, stride: int, i: int) -> Seq<u8> {
    buffer.subrange(row_start(stride, i), row_end(buffer.len() as int, stride, i))
}

/// The bytes of the first `k` rows, one row after the other.
pub open spec fn rows_joined(buffer: Seq<u8>, stride: int, k: int) -> Seq<u8>
    decreases k,
{
    if k <= 0 {
        Seq::empty()
    } else {
        rows_joined(buffer, stride, k - 1) + row_bytes(buffer, stride, k - 1)
    }
}

/// `row_count` is the rounded-up quotient: it is the least number of rows
/// of `stride` bytes that hold `total_length` bytes. An empty buffer has no
/// rows.
pub proof fn lemma_row_count_is_ceiling(total_length: int, stride: int)
    requires
        total_length >= 0,
        stride >= 1,
    ensures
        row_count(total_length, stride) >= 0,
        row_count(total_length, stride) * stride >= total_length,
        (row_count(total_length, stride) - 1) * stride < total_length,
        total_length == 0 <==> row_count(total_length, stride) == 0,
        total_length % stride == 0 ==> row_count(total_length, stride) == total_length / stride,
        total_length % stride != 0 ==> row_count(total_length, stride) == total_length / stride
            + 1,
{
    // total_length == stride * q + r, with 0 <= r < stride
    let q = total_length / stride;
    let r = total_length % stride;
    vstd::arithmetic::div_mod::lemma_fundamental_div_mod(total_length, stride);
    vstd::arithmetic::div_mod::lemma_mod_bound(total_length, stride);
    assert(stride * (q + 1) == stride * q + stride) by (nonlinear_arith);
    assert(q >= 0) by (nonlinear_arith)
        requires
            total_length == stride * q + r,
            total_length >= 0,
            stride >= 1,
            0 <= r < stride,
    ;
    // the count is q where r == 0, and q + 1 elsewhere
    if r == 0 {
        vstd::arithmetic::div_mod::lemma_fundamental_div_mod_converse(
            total_length + stride - 1,
            stride,
            q,
            stride - 1,
        );
    } else {
        vstd::arithmetic::div_mod::lemma_fundamental_div_mod_converse(
            total_length + stride - 1,
            stride,
            q + 1,
            r - 1,
        );
    }
    let c = row_count(total_length, stride);
    assert(c * stride == stride * c) by (nonlinear_arith);
    assert((c - 1) * stride == stride * c - stride) by (nonlinear_arith);
    if total_length == 0 {
        assert(q == 0) by (nonlinear_arith)
            requires
                0 == stride * q + r,
                stride >= 1,
                0 <= r < stride,
                q >= 0,
        ;
    }
}

/// Row `i` of the dump starts where row `i - 1` ended, the first row starts
/// at the front of the buffer, the last row ends at its back, and every row
/// holds at least one byte and at most `stride` bytes.
pub proof fn lemma_rows_are_contiguous(total_length: int, stride: int, i: int)
    requires
        total_length >= 0,
        stride >= 1,
        0 <= i < row_count(total_length, stride),
    ensures
        row_start(stride, 0) == 0,
        i > 0 ==> row_start(stride, i) == row_end(total_length, stride, i - 1),
        i == row_count(total_length, stride) - 1 <==> row_end(total_length, stride, i)
            == total_length,
        0 <= row_start(stride, i) < row_end(total_length, stride, i) <= total_length,
        row_end(total_length, stride, i) - row_start(stride, i) <= stride,
        i < row_count(total_length, stride) - 1 ==> row_end(total_length, stride, i) - row_start(
            stride,
            i,
        ) == stride,
{
    lemma_row_count_is_ceiling(total_length, stride);
    let c = row_count(total_length, stride);
    assert((i + 1) * stride == i * stride + stride) by (nonlinear_arith);
    assert(i * stride >= 0) by (nonlinear_arith)
        requires
            i >= 0,
            stride >= 1,
    ;
    assert(i * stride <= (c - 1) * stride) by (nonlinear_arith)
        requires
            i <= c - 1,
            stride >= 1,
    ;
    if i < c - 1 {
        assert((i + 1) * stride <= (c - 1) * stride) by (nonlinear_arith)
            requires
                i + 1 <= c - 1,
                stride >= 1,
        ;
    }
    assert(c * stride == (c - 1) * stride + stride) by (nonlinear_arith);
}

/// The rows cover the buffer: joined in order they give back the buffer,
/// every byte once.
pub proof fn lemma_rows_cover_buffer(buffer: Seq<u8>, stride: int)
    requires
        stride >= 1,
    ensures
        rows_joined(buffer, stride, row_count(buffer.len() as int, stride)) == buffer,
{
    let n = buffer.len() as int;
    let c = row_count(n, stride);
    lemma_row_count_is_ceiling(n, stride);
    lemma_rows_joined_is_prefix(buffer, stride, c);
    if c > 0 {
        lemma_rows_are_contiguous(n, stride, c - 1);
    }
}

/// The first `k` rows, joined, are the buffer up to the end of row `k - 1`.
proof fn lemma_rows_joined_is_prefix(buffer: Seq<u8>, stride: int, k: int)
    requires
        stride >= 1,
        0 <= k <= row_count(buffer.len() as int, stride),
    ensures
        k == 0 ==> rows_joined(buffer, stride, k) == Seq::<u8>::empty(),
        k > 0 ==> rows_joined(buffer, stride, k) == buffer.subrange(
            0,
            row_end(buffer.len() as int, stride, k - 1),
        ),
    decreases k,
{
    if k > 0 {
        // row `k - 1` starts where the first `k - 1` rows end
        lemma_rows_joined_is_prefix(buffer, stride, k - 1);
        lemma_rows_are_contiguous(buffer.len() as int, stride, k - 1);
    }
}

/// A cursor over the rows of a buffer: the byte range of the current row.
#[derive(Clone, Copy, Debug, PartialEq, Eq, Structural)]
pub struct Iteration {
    /// The length of the buffer, in bytes.
    pub total_length: usize,
    /// The number of bytes per row.
    pub stride: usize,
    /// The offset of the first byte of the current row.
    pub start: usize,
    /// The offset just past the last byte of the current row.
    pub end: usize,
}

impl Iteration {
    /// The window lies inside the buffer and is no wider than a row.
    pub open spec fn wf(self) -> bool {
        &&& self.stride >= 1
        &&& self.start <= self.end <= self.total_length
        &&& self.end - self.start <= self.stride
    }

    /// The window on row `i` of a buffer; from `row_count` on, the empty
    /// window at the end of the buffer.
    pub open spec fn at(total_length: usize, stride: usize, i: int) -> Iteration {
        Iteration {
            total_length,
            stride,
            start: row_end(total_length as int, stride as int, i - 1) as usize,
            end: row_end(total_length as int, stride as int, i) as usize,
        }
    }

    /// The window one row further on.
    pub open spec fn advanced(self) -> Iteration {
        Iteration {
            total_length: self.total_length,
            stride: self.stride,
            start: self.end,
            end: if self.end + self.stride <= self.total_length {
                (self.end + self.stride) as usize
            } else {
                self.total_length
            },
        }
    }

    /// The window on the first row of a buffer.
    pub fn new(total_length: usize, stride: usize) -> (window: Iteration)
        ensures
            window == Iteration::at(total_length, stride, 0),
            window.total_length == total_length,
            window.stride == stride,
            window.start == 0,
            window.end == if stride <= total_length {
                stride
            } else {
                total_length
            },
            stride >= 1 ==> window.wf(),
    {
        assert((0 - 1 + 1) * (stride as int) == 0) by (nonlinear_arith);
        assert((0 + 1) * (stride as int) == stride as int) by (nonlinear_arith);
        Iteration {
            total_length,
            stride,
            start: 0,
            end: if stride <= total_length {
                stride
            } else {
                total_length
            },
        }
    }

    /// Moves the window to the next row: it starts where the current row
    /// ended and is `stride` bytes wide, or ends with the buffer if fewer
    /// are left. A well-formed window stays well-formed and never moves
    /// back.
    pub fn next(&mut self)
        ensures
            *final(self) == old(self).advanced(),
            old(self).wf() ==> final(self).wf(),
            old(self).wf() ==> old(self).start <= final(self).start,
            old(self).wf() ==> old(self).end <= final(self).end,
    {
        self.start = self.end;
        if self.end < self.total_length && self.stride <= self.total_length - self.end {
            self.end = self.end + self.stride;
        } else {
            self.end = self.total_length;
        }
    }

    /// Whether the window has passed the last row.
    pub fn is_done(&self) -> (done: bool)
        ensures
            done == (self.start >= self.total_length),
    {
        self.start >= self.total_length
    }
}

/// Stepping the window from row `i` gives the window of row `i + 1`: the
/// cursor visits exactly the byte ranges of the rows, in order.
pub proof fn lemma_advanced_is_next_row(total_length: usize, stride: usize, i: int)
    requires
        stride >= 1,
        i >= 0,
    ensures
        Iteration::at(total_length, stride, i).wf(),
        Iteration::at(total_length, stride, i).advanced() == Iteration::at(
            total_length,
            stride,
            i + 1,
        ),
{
    let w = stride as int;
    assert((i + 1) * w == i * w + w) by (nonlinear_arith);
    assert((i + 1 + 1) * w == i * w + w + w) by (nonlinear_arith);
    assert(i * w >= 0) by (nonlinear_arith)
        requires
            i >= 0,
            w >= 1,
    ;
}

/// On the rows of the buffer the window is the row's byte range, and it is
/// done exactly when all rows have been visited.
pub proof fn lemma_window_is_row(total_length: usize, stride: usize, i: int)
    requires
        stride >= 1,
        i >= 0,
    ensures
        i < row_count(total_length as int, stride as int) ==> {
            &&& Iteration::at(total_length, stride, i).start == row_start(stride as int, i)
            &&& Iteration::at(total_length, stride, i).end == row_end(
                total_length as int,
                stride as int,
                i,
            )
        },
        Iteration::at(total_length, stride, i).start >= total_length <==> i >= row_count(
            total_length as int,
            stride as int,
        ),
{
    let n = total_length as int;
    let w = stride as int;
    let c = row_count(n, w);
    lemma_row_count_is_ceiling(n, w);
    if i < c {
        lemma_rows_are_contiguous(n, w, i);
    } else {
        assert(i * w >= c * w) by (nonlinear_arith)
            requires
                i >= c,
                w >= 1,
        ;
    }
}

/// The number of rows of a buffer of `total_length` bytes, `stride` bytes
/// per row.
pub fn count_rows(total_length: usize, stride: usize) -> (count: usize)
    requires
        stride >= 1,
    ensures
        count == row_count(total_length as int, stride as int),
{
    proof {
        lemma_row_count_is_ceiling(total_length as int, stride as int);
    }
    let whole: usize = total_length / stride;
    if total_length % stride == 0 {
        whole
    } else {
        proof {
            let r = total_length as int % stride as int;
            vstd::arithmetic::div_mod::lemma_fundamental_div_mod(
                total_length as int,
                stride as int,
            );
            assert(whole < total_length) by (nonlinear_arith)
                requires
                    total_length == stride * whole + r,
                    r >= 1,
                    stride >= 1,
                    whole >= 0,
            ;
        }
        whole + 1
    }
}

} // verus!
