//! Scaling by 2 that mixes smooth interpolation with edge rules: smooth where
//! the colors around a pixel differ little, edges where they differ much, and
//! a mean of both in between. How far apart colors look is measured outside;
//! the outcomes come in as [`HybridTests`].

use vstd::prelude::*;

use crate::grid::{cell, lemma_cell};
use crate::scaling::picture::{
    blend_argb, blended, emit_row, get, lemma_tiled_empty, lemma_tiled_grows, picture_fits,
    picture_wf, tiled, FULL_WEIGHT,
};
use crate::scaling::raster::pixel_clamped;

verus! {

/// Half and a quarter of [`FULL_WEIGHT`].
pub const HALF: u32 = 32768;

pub const QUARTER: u32 = 16384;

/// What the comparisons at a corner came out as.
#[derive(Clone, Copy, PartialEq, Eq, Structural)]
pub struct CornerTests {
    /// The distances along the diagonal are smaller than those beside it.
    pub diagonal: bool,
    /// The pixel and the one behind the corner are similar.
    pub e_i: bool,
    /// The two pixels beside the corner are similar.
    pub f_h: bool,
    /// The one beside it in the row is nearer than the one in the column.
    pub f_nearer: bool,
}

/// How much the colors around a pixel differ.
#[derive(Clone, Copy, PartialEq, Eq, Structural)]
pub enum Variance {
    Low,
    High,
    /// In between: the weight of the edge rules, out of 65536.
    Between { weight: u32 },
}

/// What the comparisons for a pixel came out as. The corners count from the
/// top left, row by row.
#[derive(Clone, Copy)]
pub struct HybridTests {
    pub variance: Variance,
    pub corners: [CornerTests; 4],
}

pub open spec fn tests_wf(t: HybridTests) -> bool {
    t.variance matches Variance::Between { weight } ==> weight <= FULL_WEIGHT
}

pub open spec fn side_x(k: int) -> int {
    if k % 2 == 0 {
        -1
    } else {
        1
    }
}

pub open spec fn side_y(k: int) -> int {
    if k < 2 {
        -1
    } else {
        1
    }
}

/// The smooth block: the pixel, and means with its neighbors to the right and
/// below.
pub open spec fn bilinear(px: Seq<u32>, w: int, h: int, x: int, y: int) -> Seq<u32> {
    let p = pixel_clamped(px, w, h, x, y);
    let r = pixel_clamped(px, w, h, x + 1, y);
    let d = pixel_clamped(px, w, h, x, y + 1);
    let dr = pixel_clamped(px, w, h, x + 1, y + 1);
    seq![
        p,
        blended(p, r, HALF as int),
        blended(p, d, HALF as int),
        blended(blended(p, r, HALF as int), blended(d, dr, HALF as int), HALF as int),
    ]
}

/// One output pixel of the edge rules: the corner is mixed with the nearer
/// neighbor where an edge cuts it off.
pub open spec fn edge_pixel(
    px: Seq<u32>,
    w: int,
    h: int,
    x: int,
    y: int,
    t: CornerTests,
    k: int,
) -> u32 {
    let e = pixel_clamped(px, w, h, x, y);
    if t.diagonal && !t.e_i {
        blended(
            e,
            if t.f_nearer {
                pixel_clamped(px, w, h, x + side_x(k), y)
            } else {
                pixel_clamped(px, w, h, x, y + side_y(k))
            },
            if t.f_h {
                HALF as int
            } else {
                QUARTER as int
            },
        )
    } else {
        e
    }
}

/// The block of the edge rules.
pub open spec fn edge_block(
    px: Seq<u32>,
    w: int,
    h: int,
    x: int,
    y: int,
    t: Seq<CornerTests>,
) -> Seq<u32> {
    Seq::new(4, |k: int| edge_pixel(px, w, h, x, y, t[k], k))
}

/// The output block of a pixel.
pub open spec fn block(px: Seq<u32>, w: int, h: int, x: int, y: int, t: HybridTests) -> Seq<u32> {
    let smooth = bilinear(px, w, h, x, y);
    let sharp = edge_block(px, w, h, x, y, t.corners@);
    match t.variance {
        Variance::Low => smooth,
        Variance::High => sharp,
        Variance::Between { weight } => Seq::new(
            4,
            |k: int| blended(smooth[k], sharp[k], weight as int),
        ),
    }
}

/// The eight pixels around a pixel, row by row: the mean of their distances
/// from it is what [`Variance`] tells.
pub fn ring(src: &[u32], w: usize, h: usize, x: usize, y: usize) -> (r: [u32; 8])
    requires
        picture_wf(src@, w as int, h as int),
        x < w,
        y < h,
    ensures
        ({
            let at = |dx: int, dy: int| pixel_clamped(src@, w as int, h as int, x + dx, y + dy);
            r@ == seq![
                at(-1, -1),
                at(0, -1),
                at(1, -1),
                at(-1, 0),
                at(1, 0),
                at(-1, 1),
                at(0, 1),
                at(1, 1),
            ]
        }),
{
    let ix: i64 = x as i64;
    let iy: i64 = y as i64;
    let r: [u32; 8] = [
        get(src, w, h, ix - 1, iy - 1),
        get(src, w, h, ix, iy - 1),
        get(src, w, h, ix + 1, iy - 1),
        get(src, w, h, ix - 1, iy),
        get(src, w, h, ix + 1, iy),
        get(src, w, h, ix - 1, iy + 1),
        get(src, w, h, ix, iy + 1),
        get(src, w, h, ix + 1, iy + 1),
    ];
    r
}

/// The colors seen from a corner: the pixel, those beside the corner in the row
/// and in the column, the one behind it, and those opposite the first two.
#[derive(Clone, Copy)]
pub struct CornerColors {
    pub e: u32,
    pub f: u32,
    pub h: u32,
    pub i: u32,
    pub d: u32,
    pub b: u32,
}

/// The colors seen from corner `k`.
pub fn corner_colors(src: &[u32], w: usize, h: usize, x: usize, y: usize, k: usize) -> (r:
    CornerColors)
    requires
        picture_wf(src@, w as int, h as int),
        x < w,
        y < h,
        k < 4,
    ensures
        ({
            let at = |dx: int, dy: int| pixel_clamped(src@, w as int, h as int, x + dx, y + dy);
            let sx = side_x(k as int);
            let sy = side_y(k as int);
            &&& r.e == at(0, 0)
            &&& r.f == at(sx, 0)
            &&& r.h == at(0, sy)
            &&& r.i == at(sx, sy)
            &&& r.d == at(-sx, 0)
            &&& r.b == at(0, -sy)
        }),
{
    let ix: i64 = x as i64;
    let iy: i64 = y as i64;
    let sx: i64 = if k % 2 == 0 {
        -1
    } else {
        1
    };
    let sy: i64 = if k < 2 {
        -1
    } else {
        1
    };
    CornerColors {
        e: get(src, w, h, ix, iy),
        f: get(src, w, h, ix + sx, iy),
        h: get(src, w, h, ix, iy + sy),
        i: get(src, w, h, ix + sx, iy + sy),
        d: get(src, w, h, ix - sx, iy),
        b: get(src, w, h, ix, iy - sy),
    }
}

fn bilinear_block(src: &[u32], w: usize, h: usize, x: usize, y: usize) -> (r: [u32; 4])
    requires
        picture_wf(src@, w as int, h as int),
        x < w,
        y < h,
    ensures
        r@ == bilinear(src@, w as int, h as int, x as int, y as int),
{
    let ix: i64 = x as i64;
    let iy: i64 = y as i64;
    let p: u32 = get(src, w, h, ix, iy);
    let right: u32 = get(src, w, h, ix + 1, iy);
    let d: u32 = get(src, w, h, ix, iy + 1);
    let dr: u32 = get(src, w, h, ix + 1, iy + 1);
    let r: [u32; 4] = [
        p,
        blend_argb(p, right, HALF),
        blend_argb(p, d, HALF),
        blend_argb(blend_argb(p, right, HALF), blend_argb(d, dr, HALF), HALF),
    ];
    r
}

fn xbr_block(src: &[u32], w: usize, h: usize, x: usize, y: usize, t: &[CornerTests; 4]) -> (r: [u32; 4])
    requires
        picture_wf(src@, w as int, h as int),
        x < w,
        y < h,
    ensures
        r@ == edge_block(src@, w as int, h as int, x as int, y as int, t@),
{
    let mut r: [u32; 4] = [0u32;4];
    let mut k: usize = 0;
    while k < 4
        invariant
            k <= 4,
            picture_wf(src@, w as int, h as int),
            x < w,
            y < h,
            forall|i: int|
                0 <= i < k ==> #[trigger] r@[i] == edge_pixel(
                    src@,
                    w as int,
                    h as int,
                    x as int,
                    y as int,
                    t@[i],
                    i,
                ),
        decreases 4 - k,
    {
        let c: CornerColors = corner_colors(src, w, h, x, y, k);
        let ct: CornerTests = t[k];
        let mut v: u32 = c.e;
        if ct.diagonal && !ct.e_i {
            let color: u32 = if ct.f_nearer {
                c.f
            } else {
                c.h
            };
            let weight: u32 = if ct.f_h {
                HALF
            } else {
                QUARTER
            };
            v = blend_argb(c.e, color, weight);
        }
        r[k] = v;
        k += 1;
    }
    assert(r@ =~= edge_block(src@, w as int, h as int, x as int, y as int, t@));
    r
}

/// The output block of a pixel.
pub fn scale_block(src: &[u32], w: usize, h: usize, x: usize, y: usize, t: &HybridTests) -> (b: Vec<
    u32,
>)
    requires
        picture_wf(src@, w as int, h as int),
        x < w,
        y < h,
        tests_wf(*t),
    ensures
        b@ == block(src@, w as int, h as int, x as int, y as int, *t),
        b@.len() == 4,
{
    let smooth: [u32; 4] = bilinear_block(src, w, h, x, y);
    let sharp: [u32; 4] = xbr_block(src, w, h, x, y, &t.corners);
    let mut b: Vec<u32> = Vec::new();
    let mut k: usize = 0;
    while k < 4
        invariant
            k <= 4,
            tests_wf(*t),
            smooth@ == bilinear(src@, w as int, h as int, x as int, y as int),
            sharp@ == edge_block(src@, w as int, h as int, x as int, y as int, t.corners@),
            b@.len() == k,
            forall|i: int|
                0 <= i < k ==> #[trigger] b@[i] == block(
                    src@,
                    w as int,
                    h as int,
                    x as int,
                    y as int,
                    *t,
                )[i],
        decreases 4 - k,
    {
        let v: u32 = match t.variance {
            Variance::Low => smooth[k],
            Variance::High => sharp[k],
            Variance::Between { weight } => blend_argb(smooth[k], sharp[k], weight),
        };
        b.push(v);
        k += 1;
    }
    assert(b@ =~= block(src@, w as int, h as int, x as int, y as int, *t));
    b
}

/// The output block of the pixel at `(x, y)`.
pub open spec fn block_of(px: Seq<u32>, w: int, h: int, tests: Seq<HybridTests>) -> spec_fn(
    int,
    int,
) -> Seq<u32> {
    |x: int, y: int| block(px, w, h, x, y, tests[cell(x, y, w)])
}

pub open spec fn scalable(px: Seq<u32>, w: int, h: int, tests: Seq<HybridTests>) -> bool {
    &&& picture_fits(px, w, h)
    &&& tests.len() == w * h
    &&& forall|i: int| 0 <= i < tests.len() ==> tests_wf(#[trigger] tests[i])
    &&& (4 * w) * h <= usize::MAX
}

/// Scale a picture by 2, given what the comparisons came out as.
pub fn scale(src: &[u32], src_w: usize, src_h: usize, tests: &[HybridTests]) -> (dst: Vec<u32>)
    requires
        scalable(src@, src_w as int, src_h as int, tests@),
    ensures
        dst@ == tiled(
            block_of(src@, src_w as int, src_h as int, tests@),
            src_w as int,
            src_h as int,
            2,
        ),
{
    let w: usize = src_w;
    let h: usize = src_h;
    let ghost f = block_of(src@, w as int, h as int, tests@);
    if w == 0 || h == 0 {
        proof {
            lemma_tiled_empty(f, w as int, h as int, 2);
        }
        return Vec::new();
    }
    assert(4 * w <= (4 * w) * h) by (nonlinear_arith)
        requires
            1 <= w,
            1 <= h,
    ;
    let _n: usize = tests.len();
    let mut dst: Vec<u32> = Vec::new();
    let mut y: usize = 0;
    assert(dst@ =~= tiled(f, w as int, 0, 2));
    while y < h
        invariant
            y <= h,
            1 <= w,
            scalable(src@, w as int, h as int, tests@),
            4 * w <= usize::MAX,
            tests@.len() <= usize::MAX,
            f == block_of(src@, w as int, h as int, tests@),
            dst@ == tiled(f, w as int, y as int, 2),
        decreases h - y,
    {
        let mut row: Vec<Vec<u32>> = Vec::new();
        let mut x: usize = 0;
        while x < w
            invariant
                x <= w,
                y < h,
                scalable(src@, w as int, h as int, tests@),
                tests@.len() <= usize::MAX,
                f == block_of(src@, w as int, h as int, tests@),
                row@.len() == x,
                forall|i: int|
                    0 <= i < x ==> (#[trigger] row@[i])@ == f(i, y as int) && row@[i]@.len() == 4,
            decreases w - x,
        {
            proof {
                lemma_cell(x as int, y as int, w as int, h as int);
                assert(tests_wf(tests@[cell(x as int, y as int, w as int)]));
            }
            let b: Vec<u32> = scale_block(src, w, h, x, y, &tests[y * w + x]);
            row.push(b);
            x += 1;
        }
        proof {
            lemma_tiled_grows(f, row@, w as int, y as int, 2);
        }
        emit_row(&mut dst, &row, 2);
        y += 1;
    }
    dst
}

/// A picture of one color stays one color, whatever the comparisons say.
pub proof fn law_one_color_stays(
    px: Seq<u32>,
    w: int,
    h: int,
    x: int,
    y: int,
    t: HybridTests,
    c: u32,
    k: int,
)
    requires
        picture_wf(px, w, h),
        0 <= x < w,
        0 <= y < h,
        tests_wf(t),
        forall|i: int| 0 <= i < px.len() ==> px[i] == c,
        0 <= k < 4,
    ensures
        block(px, w, h, x, y, t)[k] == c,
{
    assert forall|ax: int, ay: int| #[trigger] pixel_clamped(px, w, h, ax, ay) == c by {
        let cx = crate::scaling::cell_graph::clamped(ax, 0, w - 1);
        let cy = crate::scaling::cell_graph::clamped(ay, 0, h - 1);
        lemma_cell(cx, cy, w, h);
    }
    crate::scaling::picture::law_blend_ends(c, c, HALF as int);
    crate::scaling::picture::law_blend_ends(c, c, QUARTER as int);
    if let Variance::Between { weight } = t.variance {
        crate::scaling::picture::law_blend_ends(c, c, weight as int);
    }
}

} // verus!
