//! Laws of enlarged pictures and of what is drawn over them.

use vstd::prelude::*;

use crate::grid::{cell, lemma_cell};
use crate::test_runner::overlay::{canvas_wf, enlarged_byte, plotted, region_byte};

verus! {

/// A pixel of a picture enlarged `n` times, `i` columns and `j` rows into the square
/// of the pixel at `(x, y)`, has that pixel's red, green and blue, and is opaque.
pub proof fn law_pixels_become_squares(
    src: Seq<u8>,
    w: int,
    n: int,
    x: int,
    y: int,
    i: int,
    j: int,
    channel: int,
)
    requires
        0 <= x < w,
        0 <= y,
        0 <= i < n,
        0 <= j < n,
        0 <= channel < 4,
    ensures
        enlarged_byte(src, w, n, 4 * ((n * y + j) * (w * n) + (n * x + i)) + channel) == if channel
            == 3 {
            255
        } else {
            src[4 * (y * w + x) + channel]
        },
{
    let column = n * x + i;
    let row = n * y + j;
    let wide = w * n;
    assert(0 <= column < wide) by (nonlinear_arith)
        requires
            column == n * x + i,
            0 <= i < n,
            0 <= x < w,
            wide == w * n,
    ;
    assert(0 <= row) by (nonlinear_arith)
        requires
            row == n * y + j,
            0 <= y,
            0 <= j < n,
    ;
    lemma_cell(column, row, wide, row + 1);
    lemma_square(n, x, i);
    lemma_square(n, y, j);
    let p = row * wide + column;
    let b = 4 * p + channel;
    assert(b / 4 == p && b % 4 == channel);
}

proof fn lemma_square(n: int, x: int, i: int)
    requires
        0 <= i < n,
        0 <= x,
    ensures
        (n * x + i) / n == x,
{
    assert(n * x == x * n) by (nonlinear_arith);
    vstd::arithmetic::div_mod::lemma_fundamental_div_mod_converse(n * x + i, n, x, i);
}

/// The same of a square region of the picture; what lies beyond it is black.
pub proof fn law_regions_become_squares(
    src: Seq<u8>,
    w: int,
    h: int,
    x0: int,
    y0: int,
    span: int,
    mag: int,
    x: int,
    y: int,
    i: int,
    j: int,
    channel: int,
)
    requires
        0 <= x < span,
        0 <= y,
        0 <= i < mag,
        0 <= j < mag,
        0 <= channel < 4,
    ensures
        region_byte(
            src,
            w,
            h,
            x0,
            y0,
            span * mag,
            mag,
            4 * ((mag * y + j) * (span * mag) + (mag * x + i)) + channel,
        ) == if channel == 3 {
            255
        } else if 0 <= x0 + x < w && 0 <= y0 + y < h {
            src[4 * ((y0 + y) * w + (x0 + x)) + channel]
        } else {
            0
        },
{
    let column = mag * x + i;
    let row = mag * y + j;
    let wide = span * mag;
    assert(0 <= column < wide) by (nonlinear_arith)
        requires
            column == mag * x + i,
            0 <= i < mag,
            0 <= x < span,
            wide == span * mag,
    ;
    assert(0 <= row) by (nonlinear_arith)
        requires
            row == mag * y + j,
            0 <= y,
            0 <= j < mag,
    ;
    lemma_cell(column, row, wide, row + 1);
    lemma_square(mag, x, i);
    lemma_square(mag, y, j);
    let p = row * wide + column;
    let b = 4 * p + channel;
    assert(b / 4 == p && b % 4 == channel);
}

/// A plotted pixel takes the mean of what was there and the color, in red, green and
/// blue; nothing else changes, and off the canvas nothing at all.
pub proof fn law_plotting_mixes_one_pixel(
    buf: Seq<u8>,
    w: int,
    h: int,
    x: int,
    y: int,
    c: Seq<u8>,
    u: int,
    v: int,
    channel: int,
)
    requires
        canvas_wf(buf, w, h),
        c.len() == 3,
        0 <= u < w,
        0 <= v < h,
        0 <= channel < 4,
    ensures
        ({
            let at = 4 * (v * w + u) + channel;
            plotted(buf, w, h, x, y, c)[at] == if u == x && v == y && channel < 3 {
                (buf[at] + c[channel]) / 2
            } else {
                buf[at] as int
            }
        }),
{
    lemma_cell(u, v, w, h);
    if 0 <= x < w && 0 <= y < h {
        lemma_cell(x, y, w, h);
        assert(cell(x, y, w) == cell(u, v, w) ==> x == u && y == v);
    }
}

} // verus!
