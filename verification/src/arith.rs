//! Wrapping coordinates and row-major positions, with the arithmetic facts
//! that the rest of the library needs of them.

use vstd::arithmetic::div_mod::{
    lemma_fundamental_div_mod, lemma_fundamental_div_mod_converse, lemma_mod_bound,
    lemma_mod_multiples_vanish, lemma_small_mod,
};
use vstd::prelude::*;

verus! {

/// The position `i` folded onto a ring of `n` places, so that `-1` is the last
/// place and `n` is the first.
#[verifier::opaque]
pub open spec fn wrap(i: int, n: nat) -> int {
    i % (n as int)
}

/// The place of `(row, col)` in a layout that stores its rows one after the
/// other, `stride` places to a row.
#[verifier::opaque]
pub open spec fn row_major(row: int, col: int, stride: nat) -> int {
    row * stride + col
}

/// On a ring of `n` places, a position on the ring is itself, one step before
/// the first place is the last place, and one step after the last is the
/// first.
pub proof fn lemma_wrap(i: int, n: nat)
    requires
        n > 0,
        -1 <= i <= n,
    ensures
        wrap(i, n) == if i == -1 {
            n - 1
        } else if i == n {
            0
        } else {
            i
        },
{
    reveal(wrap);
    if i == -1 {
        lemma_mod_multiples_vanish(1, -1, n as int);
        lemma_small_mod((n - 1) as nat, n);
    } else if i == n {
        lemma_mod_multiples_vanish(-1, n as int, n as int);
        lemma_small_mod(0, n);
    } else {
        lemma_small_mod(i as nat, n);
    }
}

/// A wrapped position lies on the ring.
pub proof fn lemma_wrap_on_ring(i: int, n: nat)
    requires
        n > 0,
    ensures
        0 <= wrap(i, n) < n,
{
    reveal(wrap);
    lemma_mod_bound(i, n as int);
}

/// The layout starts at place 0, places in a row follow one another, and the
/// place after the last of a row is the first of the next row.
pub proof fn lemma_row_major_walk(row: int, col: int, stride: nat)
    ensures
        row_major(0, 0, stride) == 0,
        row_major(row, col + 1, stride) == row_major(row, col, stride) + 1,
        row_major(row + 1, 0, stride) == row_major(row, stride as int, stride),
{
    reveal(row_major);
    assert((row + 1) * stride == row * stride + stride) by (nonlinear_arith);
}

/// `rows` full rows take up `stride * rows` places.
pub proof fn lemma_row_major_rows(rows: nat, stride: nat)
    ensures
        row_major(rows as int, 0, stride) == stride * rows,
{
    reveal(row_major);
    assert(rows * stride == stride * rows) by (nonlinear_arith);
}

/// A position within `rows` rows of `stride` places has a place below
/// `stride * rows`, and the place gives the position back.
pub proof fn lemma_row_major_position(row: int, col: int, stride: nat, rows: nat)
    requires
        0 <= row < rows,
        0 <= col < stride,
    ensures
        0 <= row_major(row, col, stride) < stride * rows,
        row_major(row, col, stride) / (stride as int) == row,
        row_major(row, col, stride) % (stride as int) == col,
{
    reveal(row_major);
    assert(row * stride + stride <= rows * stride) by (nonlinear_arith)
        requires
            row + 1 <= rows,
            stride >= 0,
    ;
    assert(0 <= row * stride) by (nonlinear_arith)
        requires
            0 <= row,
            stride >= 0,
    ;
    assert(rows * stride == stride * rows) by (nonlinear_arith);
    assert(row * stride == stride * row) by (nonlinear_arith);
    lemma_fundamental_div_mod_converse(row * stride + col, stride as int, row, col);
}

/// A place below `stride * rows` is the place of a position within `rows`
/// rows of `stride` places: its quotient and remainder by `stride`.
pub proof fn lemma_row_major_place(i: int, stride: nat, rows: nat)
    requires
        0 <= i < stride * rows,
    ensures
        stride > 0,
        0 <= i / (stride as int) < rows,
        0 <= i % (stride as int) < stride,
        row_major(i / (stride as int), i % (stride as int), stride) == i,
{
    reveal(row_major);
    assert(stride > 0) by (nonlinear_arith)
        requires
            0 <= i < stride * rows,
    ;
    let w = stride as int;
    lemma_fundamental_div_mod(i, w);
    lemma_mod_bound(i, w);
    let q = i / w;
    assert(w * q == q * w) by (nonlinear_arith);
    assert(0 <= q < rows) by (nonlinear_arith)
        requires
            q * w + i % w == i,
            0 <= i % w < w,
            0 <= i < w * rows,
            w > 0,
    ;
}

} // verus!
