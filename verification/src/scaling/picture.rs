//! Pictures: pixels by coordinate, mixing of colors, and pictures made of
//! square blocks.

use vstd::prelude::*;

use crate::grid::{cell, lemma_cell, lemma_position};
use crate::scaling::cell_graph::clamped;
use crate::scaling::raster::pixel_clamped;

verus! {

fn clamp_index(v: i64, n: usize) -> (r: usize)
    requires
        1 <= n <= i32::MAX,
    ensures
        r == clamped(v as int, 0, n - 1),
        r < n,
{
    if v < 0 {
        0
    } else if v > (n - 1) as i64 {
        n - 1
    } else {
        v as usize
    }
}

/// A picture.
pub open spec fn picture_fits(px: Seq<u32>, w: int, h: int) -> bool {
    &&& 0 <= w <= i32::MAX
    &&& 0 <= h <= i32::MAX
    &&& px.len() >= w * h
}

/// A picture that is not empty.
pub open spec fn picture_wf(px: Seq<u32>, w: int, h: int) -> bool {
    &&& picture_fits(px, w, h)
    &&& 1 <= w
    &&& 1 <= h
}

/// The pixel at a coordinate; beyond the rim, the nearest pixel of the picture.
pub fn get(src: &[u32], w: usize, h: usize, x: i64, y: i64) -> (c: u32)
    requires
        picture_wf(src@, w as int, h as int),
    ensures
        c == pixel_clamped(src@, w as int, h as int, x as int, y as int),
{
    let _n: usize = src.len();
    let cx: usize = clamp_index(x, w);
    let cy: usize = clamp_index(y, h);
    proof {
        lemma_cell(cx as int, cy as int, w as int, h as int);
    }
    src[cy * w + cx]
}

// ── Mixing ──

/// Weight of a color that replaces another altogether.
pub const FULL_WEIGHT: u32 = 65536;

/// One of the four 8-bit channels of a color, the lowest first.
pub open spec fn channel(c: u32, i: int) -> int {
    if i == 0 {
        c as int % 256
    } else if i == 1 {
        c as int / 256 % 256
    } else if i == 2 {
        c as int / 65536 % 256
    } else {
        c as int / 0x100_0000
    }
}

/// The color made of four channels.
pub open spec fn from_channels(c0: int, c1: int, c2: int, c3: int) -> u32 {
    (c0 + 256 * c1 + 65536 * c2 + 0x100_0000 * c3) as u32
}

/// A mean of two channel values, `weight` 65536ths of the second. It is rounded
/// to the nearest, and a half upwards; that is a choice of this library, as is
/// the unit of the weights.
pub open spec fn mixed(a: int, b: int, weight: int) -> int {
    (a * (65536 - weight) + b * weight + 32768) / 65536
}

/// Every channel mixed.
#[verifier::opaque]
pub open spec fn blended(a: u32, b: u32, weight: int) -> u32 {
    from_channels(
        mixed(channel(a, 0), channel(b, 0), weight),
        mixed(channel(a, 1), channel(b, 1), weight),
        mixed(channel(a, 2), channel(b, 2), weight),
        mixed(channel(a, 3), channel(b, 3), weight),
    )
}

proof fn lemma_mixed(a: int, b: int, weight: int)
    requires
        0 <= a <= 255,
        0 <= b <= 255,
        0 <= weight <= 65536,
    ensures
        0 <= a * (65536 - weight) <= 255 * 65536,
        0 <= b * weight <= 255 * 65536,
        0 <= mixed(a, b, weight) <= 255,
{
    assert(0 <= a * (65536 - weight) <= 255 * (65536 - weight)) by (nonlinear_arith)
        requires
            0 <= a <= 255,
            0 <= weight <= 65536,
    ;
    assert(0 <= b * weight <= 255 * weight) by (nonlinear_arith)
        requires
            0 <= b <= 255,
            0 <= weight <= 65536,
    ;
}

fn mix(a: u32, b: u32, weight: u32) -> (r: u32)
    requires
        a <= 255,
        b <= 255,
        weight <= 65536,
    ensures
        r == mixed(a as int, b as int, weight as int),
        r <= 255,
{
    proof {
        lemma_mixed(a as int, b as int, weight as int);
    }
    (a * (65536 - weight) + b * weight + 32768) / 65536
}

/// Mix `weight` parts of the second color into the first, out of 65536.
pub fn blend_argb(a: u32, b: u32, weight: u32) -> (r: u32)
    requires
        weight <= FULL_WEIGHT,
    ensures
        r == blended(a, b, weight as int),
        r == from_channels(
            mixed(channel(a, 0), channel(b, 0), weight as int),
            mixed(channel(a, 1), channel(b, 1), weight as int),
            mixed(channel(a, 2), channel(b, 2), weight as int),
            mixed(channel(a, 3), channel(b, 3), weight as int),
        ),
{
    proof {
        reveal(blended);
    }
    let c0: u32 = mix(a % 256, b % 256, weight);
    let c1: u32 = mix(a / 256 % 256, b / 256 % 256, weight);
    let c2: u32 = mix(a / 65536 % 256, b / 65536 % 256, weight);
    let c3: u32 = mix(a / 0x100_0000, b / 0x100_0000, weight);
    c0 + 256 * c1 + 65536 * c2 + 0x100_0000 * c3
}

/// A color mixed with itself stays, weight nothing leaves the first color, and
/// full weight gives the second.
pub proof fn law_blend_ends(a: u32, b: u32, weight: int)
    requires
        0 <= weight <= 65536,
    ensures
        blended(a, a, weight) == a,
        blended(a, b, 0) == a,
        blended(a, b, 65536) == b,
{
    reveal(blended);
    assert forall|c: int| 0 <= c <= 255 implies #[trigger] mixed(c, c, weight) == c by {
        assert(c * (65536 - weight) + c * weight == c * 65536) by (nonlinear_arith);
    }
    assert forall|c: int, d: int| 0 <= c <= 255 && 0 <= d <= 255 implies #[trigger] mixed(c, d, 0)
        == c by {}
    assert forall|c: int, d: int| 0 <= c <= 255 && 0 <= d <= 255 implies #[trigger] mixed(
        c,
        d,
        65536,
    ) == d by {}
}

proof fn lemma_channel_of(c0: int, c1: int, c2: int, c3: int)
    requires
        0 <= c0 <= 255,
        0 <= c1 <= 255,
        0 <= c2 <= 255,
        0 <= c3 <= 255,
    ensures
        ({
            let r = from_channels(c0, c1, c2, c3) as int;
            &&& r % 0x100 == c0
            &&& r / 0x100 % 0x100 == c1
            &&& r / 0x1_0000 % 0x100 == c2
            &&& r / 0x100_0000 % 0x100 == c3
        }),
{
}

/// Each of the four channels of a mixed color is the whole number nearest to the
/// weighted mean of the two channels.
pub proof fn law_blend_is_the_nearest_mean(a: u32, b: u32, weight: int, unit: int)
    requires
        0 <= weight <= 65536,
        unit == 1 || unit == 0x100 || unit == 0x1_0000 || unit == 0x100_0000,
    ensures
        ({
            let x = a as int / unit % 0x100;
            let y = b as int / unit % 0x100;
            let r = blended(a, b, weight) as int / unit % 0x100;
            -32768 < 65536 * r - (x * (65536 - weight) + y * weight) <= 32768
        }),
{
    reveal(blended);
    lemma_mixed(channel(a, 0), channel(b, 0), weight);
    lemma_mixed(channel(a, 1), channel(b, 1), weight);
    lemma_mixed(channel(a, 2), channel(b, 2), weight);
    lemma_mixed(channel(a, 3), channel(b, 3), weight);
    let i: int = if unit == 1 {
        0
    } else if unit == 0x100 {
        1
    } else if unit == 0x1_0000 {
        2
    } else {
        3
    };
    lemma_channel_of(
        mixed(channel(a, 0), channel(b, 0), weight),
        mixed(channel(a, 1), channel(b, 1), weight),
        mixed(channel(a, 2), channel(b, 2), weight),
        mixed(channel(a, 3), channel(b, 3), weight),
    );
    assert(a as int / unit % 0x100 == channel(a, i));
    assert(b as int / unit % 0x100 == channel(b, i));
    assert(blended(a, b, weight) as int / unit % 0x100 == mixed(channel(a, i), channel(b, i), weight));
}

// ── Blocks ──

/// A picture of square blocks, `n` pixels wide and high, `w` by `h` of them:
/// pixel `(i, j)` of the block at `(x, y)` stands at `(n * x + i, n * y + j)`.
pub open spec fn tiled(
    block: spec_fn(int, int) -> Seq<u32>,
    w: int,
    h: int,
    n: int,
) -> Seq<u32> {
    Seq::new(
        ((n * n * w) * h) as nat,
        |k: int|
            {
                let column = k % (n * w);
                let row = k / (n * w);
                block(column / n, row / n)[cell(column % n, row % n, n)]
            },
    )
}

/// Nothing is made of no blocks.
pub proof fn lemma_tiled_empty(block: spec_fn(int, int) -> Seq<u32>, w: int, h: int, n: int)
    requires
        w == 0 || h == 0,
    ensures
        tiled(block, w, h, n) == Seq::<u32>::empty(),
{
    assert((n * n * w) * h == 0) by (nonlinear_arith)
        requires
            w == 0 || h == 0,
    ;
    assert(tiled(block, w, h, n) =~= Seq::<u32>::empty());
}

/// The pixel rows of one row of blocks.
pub open spec fn row_tiles(row: Seq<Vec<u32>>, w: int, n: int) -> Seq<u32> {
    Seq::new(
        (n * n * w) as nat,
        |k: int|
            row[k % (n * w) / n]@[cell(k % (n * w) % n, k / (n * w), n)],
    )
}

/// The blocks of one row have the right number and size.
pub open spec fn row_wf(row: Seq<Vec<u32>>, w: int, n: int) -> bool {
    &&& row.len() == w
    &&& forall|x: int| 0 <= x < w ==> (#[trigger] row[x])@.len() == n * n
}

proof fn lemma_row_index(k: int, w: int, n: int)
    requires
        0 <= k < n * n * w,
        1 <= w,
        1 <= n,
    ensures
        0 <= k % (n * w) < n * w,
        0 <= k / (n * w) < n,
        0 <= k % (n * w) / n < w,
        0 <= k % (n * w) % n < n,
        0 <= cell(k % (n * w) % n, k / (n * w), n) < n * n,
{
    assert(n * n * w == (n * w) * n && n * w >= 1 && n * w == w * n) by (nonlinear_arith)
        requires
            1 <= w,
            1 <= n,
    ;
    lemma_position(k, n * w, n);
    lemma_position(k % (n * w), n, w);
    lemma_cell(k % (n * w) % n, k / (n * w), n, n);
}

/// Append the pixel rows of one row of blocks.
pub fn emit_row(dst: &mut Vec<u32>, row: &Vec<Vec<u32>>, n: usize)
    requires
        1 <= n <= 6,
        1 <= row@.len() <= i32::MAX,
        n * n * row@.len() <= usize::MAX,
        row_wf(row@, row@.len() as int, n as int),
    ensures
        final(dst)@ == old(dst)@ + row_tiles(row@, row@.len() as int, n as int),
{
    let w: usize = row.len();
    let ghost before = dst@;
    assert(n * n * w >= n * w && n * w >= 1 && n * n >= 1) by (nonlinear_arith)
        requires
            1 <= n,
            1 <= w,
    ;
    assert(n * n <= 36) by (nonlinear_arith)
        requires
            1 <= n <= 6,
    ;
    let nn: usize = n * n;
    let total: usize = nn * w;
    let nw: usize = n * w;
    let mut k: usize = 0;
    while k < total
        invariant
            k <= total == n * n * w,
            1 <= n <= 6,
            w == row@.len(),
            1 <= w,
            nw == n * w,
            row_wf(row@, w as int, n as int),
            dst@.len() == before.len() + k,
            forall|i: int| 0 <= i < before.len() ==> #[trigger] dst@[i] == before[i],
            forall|i: int|
                0 <= i < k ==> #[trigger] dst@[before.len() + i] == row_tiles(
                    row@,
                    w as int,
                    n as int,
                )[i],
        decreases total - k,
    {
        proof {
            lemma_row_index(k as int, w as int, n as int);
            assert(nw > 0);
        }
        let column: usize = k % nw;
        let j: usize = k / nw;
        let x: usize = column / n;
        assert(row@[x as int]@.len() == n * n);
        assert(0 <= j * n <= 36) by (nonlinear_arith)
            requires
                0 <= j < n,
                n <= 6,
        ;
        let at: usize = j * n + column % n;
        let ghost last = dst@;
        dst.push(row[x][at]);
        assert forall|i: int| 0 <= i < k + 1 implies #[trigger] dst@[before.len() + i]
            == row_tiles(row@, w as int, n as int)[i] by {
            if i < k {
                assert(dst@[before.len() + i] == last[before.len() + i]);
            }
        }
        k += 1;
    }
    let ghost want = before + row_tiles(row@, w as int, n as int);
    assert forall|i: int| 0 <= i < want.len() implies dst@[i] == want[i] by {
        if i >= before.len() {
            assert(dst@[before.len() + (i - before.len())] == row_tiles(
                row@,
                w as int,
                n as int,
            )[i - before.len()]);
        }
    }
    assert(dst@ =~= want);
}

/// A picture grows by one row of blocks.
pub proof fn lemma_tiled_grows(
    block: spec_fn(int, int) -> Seq<u32>,
    row: Seq<Vec<u32>>,
    w: int,
    y: int,
    n: int,
)
    requires
        1 <= w,
        0 <= y,
        1 <= n,
        row_wf(row, w, n),
        forall|x: int| 0 <= x < w ==> (#[trigger] row[x])@ == block(x, y),
    ensures
        tiled(block, w, y + 1, n) == tiled(block, w, y, n) + row_tiles(row, w, n),
{
    let s = n * n * w;
    let nw = n * w;
    assert(s == nw * n && nw >= 1 && s >= 1) by (nonlinear_arith)
        requires
            s == n * n * w,
            nw == n * w,
            1 <= w,
            1 <= n,
    ;
    assert(s * (y + 1) == s * y + s) by (nonlinear_arith);
    assert(s * y >= 0) by (nonlinear_arith)
        requires
            s >= 1,
            y >= 0,
    ;
    let a = tiled(block, w, y + 1, n);
    let b = tiled(block, w, y, n) + row_tiles(row, w, n);
    assert(a.len() == b.len());
    assert forall|k: int| 0 <= k < a.len() implies a[k] == b[k] by {
        if k >= s * y {
            let r = k - s * y;
            lemma_row_index(r, w, n);
            let j = r / nw;
            let c = r % nw;
            lemma_position(r, nw, n);
            assert(k == (n * y + j) * nw + c) by (nonlinear_arith)
                requires
                    k == s * y + r,
                    r == j * nw + c,
                    s == nw * n,
            ;
            vstd::arithmetic::div_mod::lemma_fundamental_div_mod_converse(k, nw, n * y + j, c);
            assert(n * y + j == y * n + j) by (nonlinear_arith);
            vstd::arithmetic::div_mod::lemma_fundamental_div_mod_converse(n * y + j, n, y, j);
            assert(row[c / n]@ == block(c / n, y));
        }
    }
    assert(a =~= b);
}

/// Every pixel of a block stands in the enlarged picture where its own pixel was:
/// `n` times as far to the right and down, and further by its place in the block.
pub proof fn law_tiles_stand_in_place(
    block: spec_fn(int, int) -> Seq<u32>,
    w: int,
    h: int,
    n: int,
    x: int,
    y: int,
    i: int,
    j: int,
)
    requires
        1 <= n,
        0 <= x < w,
        0 <= y < h,
        0 <= i < n,
        0 <= j < n,
    ensures
        ({
            let at = cell(n * x + i, n * y + j, n * w);
            &&& 0 <= at < tiled(block, w, h, n).len()
            &&& tiled(block, w, h, n)[at] == block(x, y)[cell(i, j, n)]
        }),
{
    let c = n * x + i;
    let r = n * y + j;
    assert(c == x * n + i && r == y * n + j) by (nonlinear_arith)
        requires
            c == n * x + i,
            r == n * y + j,
    ;
    lemma_cell(i, x, n, w);
    lemma_cell(j, y, n, h);
    assert(n * w == w * n && n * h == h * n && (n * n * w) * h == (n * w) * (n * h))
        by (nonlinear_arith);
    lemma_cell(c, r, n * w, n * h);
    assert(cell(i, x, n) == c);
    assert(cell(j, y, n) == r);
}

} // verus!
