//! Row-major addressing of rectangular grids.

use vstd::arithmetic::div_mod::{lemma_fundamental_div_mod, lemma_fundamental_div_mod_converse};
use vstd::prelude::*;

verus! {

/// Index of column `x` in row `y` of a grid that is `w` wide.
pub open spec fn cell(x: int, y: int, w: int) -> int {
    y * w + x
}

/// A position inside a grid has an index inside its storage, and the index
/// gives the position back.
pub proof fn lemma_cell(x: int, y: int, w: int, h: int)
    requires
        0 <= x < w,
        0 <= y < h,
    ensures
        0 <= cell(x, y, w) < w * h,
        cell(x, y, w) / w == y,
        cell(x, y, w) % w == x,
        0 <= y * w <= cell(x, y, w),
{
    assert(0 <= y * w) by (nonlinear_arith)
        requires
            0 <= y,
            0 < w,
    ;
    assert(y * w + x < w * h) by (nonlinear_arith)
        requires
            0 <= x < w,
            0 <= y < h,
    ;
    lemma_fundamental_div_mod_converse(y * w + x, w, y, x);
}

/// An index inside the storage of a grid is a position inside the grid.
pub proof fn lemma_position(i: int, w: int, h: int)
    requires
        0 <= i < w * h,
        0 < w,
    ensures
        0 <= i % w < w,
        0 <= i / w < h,
        cell(i % w, i / w, w) == i,
{
    lemma_fundamental_div_mod(i, w);
    let q = i / w;
    let r = i % w;
    assert(0 <= q < h) by (nonlinear_arith)
        requires
            i == w * q + r,
            0 <= r < w,
            0 <= i < w * h,
            0 < w,
    ;
    assert(w * q == q * w) by (nonlinear_arith);
}

} // verus!
