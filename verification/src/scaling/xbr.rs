//! xBR pixel-art scaling by 2, 3 and 4.
//!
//! Each corner of a pixel is looked at on its own: where a diagonal edge runs
//! past it, the output pixels there are mixed with a neighbor's color. How far
//! apart two colors look is measured outside; the outcomes of the comparisons
//! come in as [`CornerTests`], and [`pairs_to_compare`] tells which colors they
//! are about.

use vstd::prelude::*;

use crate::scaling::picture::{
    blend_argb, blended, emit_row, get, lemma_tiled_empty, lemma_tiled_grows, picture_fits,
    picture_wf, tiled,
};
use crate::scaling::raster::pixel_clamped;

verus! {

/// Scaling factor.
#[derive(Clone, Copy, Debug, PartialEq, Eq, Structural)]
pub enum XbrScale {
    Xbr2x,
    Xbr3x,
    Xbr4x,
}

impl XbrScale {
    pub open spec fn times(self) -> int {
        match self {
            XbrScale::Xbr2x => 2,
            XbrScale::Xbr3x => 3,
            XbrScale::Xbr4x => 4,
        }
    }

    /// How many times wider and higher the output is.
    pub fn factor(self) -> (r: u32)
        ensures
            r == self.times(),
    {
        match self {
            XbrScale::Xbr2x => 2,
            XbrScale::Xbr3x => 3,
            XbrScale::Xbr4x => 4,
        }
    }
}

// ── Neighborhood ──

/// The 25 pixels around a pixel, row by row; it is in the middle.
pub open spec fn around(px: Seq<u32>, w: int, h: int, x: int, y: int) -> Seq<u32> {
    Seq::new(25, |k: int| pixel_clamped(px, w, h, x + k % 5 - 2, y + k / 5 - 2))
}

/// The 25 pixels around a pixel.
pub fn sample(src: &[u32], w: usize, h: usize, x: usize, y: usize) -> (p: [u32; 25])
    requires
        picture_wf(src@, w as int, h as int),
        x < w,
        y < h,
    ensures
        p@ == around(src@, w as int, h as int, x as int, y as int),
{
    let mut p: [u32; 25] = [0u32;25];
    let mut k: usize = 0;
    while k < 25
        invariant
            k <= 25,
            picture_wf(src@, w as int, h as int),
            x < w,
            y < h,
            forall|i: int|
                0 <= i < k ==> #[trigger] p@[i] == around(
                    src@,
                    w as int,
                    h as int,
                    x as int,
                    y as int,
                )[i],
        decreases 25 - k,
    {
        p[k] = get(src, w, h, x as i64 + (k % 5) as i64 - 2, y as i64 + (k / 5) as i64 - 2);
        k += 1;
    }
    assert(p@ =~= around(src@, w as int, h as int, x as int, y as int));
    p
}

// ── Corners ──

/// Corners are numbered bottom right, bottom left, top right, top left; these
/// are their directions.
pub open spec fn to_x(k: int) -> int {
    if k % 2 == 0 {
        1
    } else {
        -1
    }
}

pub open spec fn to_y(k: int) -> int {
    if k < 2 {
        1
    } else {
        -1
    }
}

/// The pixel of a neighborhood `dx` columns towards corner `k` and `dy` rows
/// towards it.
#[verifier::opaque]
pub open spec fn near(p: Seq<u32>, k: int, dx: int, dy: int) -> u32 {
    p[12 + dx * to_x(k) + 5 * (dy * to_y(k))]
}

/// Positions in the neighborhood as seen from a corner: `f` and `h` are the
/// neighbors beside the corner, `i` the one behind it, `b` and `d` the ones
/// opposite `h` and `f`, `c` and `g` the other diagonal ones, and `f4`, `h5`,
/// `i4` and `i5` lie one further out.
#[derive(Clone, Copy)]
pub struct CornerParams {
    pub f: usize,
    pub h: usize,
    pub i: usize,
    pub c: usize,
    pub g: usize,
    pub b: usize,
    pub d: usize,
    pub f4: usize,
    pub h5: usize,
    pub i4: usize,
    pub i5: usize,
}

impl CornerParams {
    pub open spec fn of_corner(self, k: int) -> bool {
        &&& self.f == 12 + to_x(k)
        &&& self.h == 12 + 5 * to_y(k)
        &&& self.i == 12 + to_x(k) + 5 * to_y(k)
        &&& self.c == 12 + to_x(k) - 5 * to_y(k)
        &&& self.g == 12 - to_x(k) + 5 * to_y(k)
        &&& self.b == 12 - 5 * to_y(k)
        &&& self.d == 12 - to_x(k)
        &&& self.f4 == 12 + 2 * to_x(k)
        &&& self.h5 == 12 + 10 * to_y(k)
        &&& self.i4 == 12 + 2 * to_x(k) + 5 * to_y(k)
        &&& self.i5 == 12 + to_x(k) + 10 * to_y(k)
    }
}

/// Positions as seen from corner `k`.
pub fn corner_params(k: usize) -> (r: CornerParams)
    requires
        k < 4,
    ensures
        r.of_corner(k as int),
{
    if k == 0 {
        CornerParams { f: 13, h: 17, i: 18, c: 8, g: 16, b: 7, d: 11, f4: 14, h5: 22, i4: 19, i5: 23 }
    } else if k == 1 {
        CornerParams { f: 11, h: 17, i: 16, c: 6, g: 18, b: 7, d: 13, f4: 10, h5: 22, i4: 15, i5: 21 }
    } else if k == 2 {
        CornerParams { f: 13, h: 7, i: 8, c: 18, g: 6, b: 17, d: 11, f4: 14, h5: 2, i4: 9, i5: 3 }
    } else {
        CornerParams { f: 11, h: 7, i: 6, c: 16, g: 8, b: 17, d: 13, f4: 10, h5: 2, i4: 5, i5: 1 }
    }
}

/// What the positions as seen from a corner hold.
proof fn lemma_near(p: Seq<u32>, k: int, cp: CornerParams)
    requires
        0 <= k < 4,
        cp.of_corner(k),
    ensures
        near(p, k, 1, 0) == p[cp.f as int],
        near(p, k, 0, 1) == p[cp.h as int],
        near(p, k, 1, 1) == p[cp.i as int],
        near(p, k, 1, -1) == p[cp.c as int],
        near(p, k, -1, 1) == p[cp.g as int],
        near(p, k, 0, -1) == p[cp.b as int],
        near(p, k, -1, 0) == p[cp.d as int],
        near(p, k, 2, 0) == p[cp.f4 as int],
        near(p, k, 0, 2) == p[cp.h5 as int],
        near(p, k, 2, 1) == p[cp.i4 as int],
        near(p, k, 1, 2) == p[cp.i5 as int],
{
    reveal(near);
}

// ── Comparisons ──

/// Which of two sums of distances is smaller.
#[derive(Clone, Copy, PartialEq, Eq, Structural)]
pub enum Sums {
    FirstSmaller,
    Equal,
    SecondSmaller,
}

/// What the comparisons of distances at a corner came out as.
#[derive(Clone, Copy, PartialEq, Eq, Structural)]
pub struct CornerTests {
    /// The distances across the edge against those along it.
    pub edge: Sums,
    /// The center is as near to `f` as to `h`, or nearer.
    pub f_nearer: bool,
    /// Twice the distance of `f` and `g` is at most that of `h` and `c`.
    pub steep: bool,
    /// The distance of `f` and `g` is at least twice that of `h` and `c`.
    pub shallow: bool,
}

/// The pairs of colors whose distances are compared. In each of the two sums
/// the last distance counts four times.
#[derive(Clone, Copy)]
pub struct CornerPairs {
    pub first: [(u32, u32); 5],
    pub second: [(u32, u32); 5],
    pub to_f: (u32, u32),
    pub to_h: (u32, u32),
    pub f_g: (u32, u32),
    pub h_c: (u32, u32),
}

/// The pairs of colors whose distances are compared at corner `k`.
pub fn pairs_to_compare(p: &[u32; 25], k: usize) -> (r: CornerPairs)
    requires
        k < 4,
    ensures
        ({
            let e = p@[12];
            let f = near(p@, k as int, 1, 0);
            let h = near(p@, k as int, 0, 1);
            let i = near(p@, k as int, 1, 1);
            let c = near(p@, k as int, 1, -1);
            let g = near(p@, k as int, -1, 1);
            &&& r.first@ == seq![
                (e, c),
                (e, g),
                (i, near(p@, k as int, 0, 2)),
                (i, near(p@, k as int, 2, 0)),
                (h, f),
            ]
            &&& r.second@ == seq![
                (h, near(p@, k as int, -1, 0)),
                (h, near(p@, k as int, 1, 2)),
                (f, near(p@, k as int, 2, 1)),
                (f, near(p@, k as int, 0, -1)),
                (e, i),
            ]
            &&& r.to_f == (e, f)
            &&& r.to_h == (e, h)
            &&& r.f_g == (f, g)
            &&& r.h_c == (h, c)
        }),
{
    let cp: CornerParams = corner_params(k);
    proof {
        lemma_near(p@, k as int, cp);
    }
    let e: u32 = p[12];
    CornerPairs {
        first: [
            (e, p[cp.c]),
            (e, p[cp.g]),
            (p[cp.i], p[cp.h5]),
            (p[cp.i], p[cp.f4]),
            (p[cp.h], p[cp.f]),
        ],
        second: [
            (p[cp.h], p[cp.d]),
            (p[cp.h], p[cp.i5]),
            (p[cp.f], p[cp.i4]),
            (p[cp.f], p[cp.b]),
            (e, p[cp.i]),
        ],
        to_f: (e, p[cp.f]),
        to_h: (e, p[cp.h]),
        f_g: (p[cp.f], p[cp.g]),
        h_c: (p[cp.h], p[cp.c]),
    }
}

// ── Rules ──

/// What is done at a corner.
#[derive(Clone, Copy, PartialEq, Eq, Structural)]
pub enum Rule {
    /// Nothing.
    Keep,
    /// The corner is mixed halfway.
    Diagonal,
    /// An edge runs past the corner: steep, shallow, both or neither.
    Lines { left: bool, up: bool },
}

/// An edge is followed further, in the scalers by 2 and 4: nothing flat goes
/// on beside the corner, or the center's color goes on across it.
pub open spec fn sub_condition_24_at(p: Seq<u32>, k: int) -> bool {
    let e = p[12];
    let f = near(p, k, 1, 0);
    let h = near(p, k, 0, 1);
    ||| f != near(p, k, 0, -1) && h != near(p, k, -1, 0)
    ||| e == near(p, k, 1, 1) && f != near(p, k, 2, 1) && h != near(p, k, 1, 2)
    ||| e == near(p, k, -1, 1)
    ||| e == near(p, k, 1, -1)
}

/// The same in the scaler by 3, which asks for less.
pub open spec fn sub_condition_3_at(p: Seq<u32>, k: int) -> bool {
    let e = p[12];
    let f = near(p, k, 1, 0);
    let h = near(p, k, 0, 1);
    let c = near(p, k, 1, -1);
    let g = near(p, k, -1, 1);
    ||| f != near(p, k, 0, -1) && f != c
    ||| h != near(p, k, -1, 0) && h != g
    ||| e == near(p, k, 1, 1) && ((f != near(p, k, 2, 0) && f != near(p, k, 2, 1)) || (h != near(
        p,
        k,
        0,
        2,
    ) && h != near(p, k, 1, 2)))
    ||| e == g
    ||| e == c
}

pub open spec fn sub_condition_at(p: Seq<u32>, k: int, n: int) -> bool {
    if n == 3 {
        sub_condition_3_at(p, k)
    } else {
        sub_condition_24_at(p, k)
    }
}

/// The rule for a corner in the scaler by `n`.
pub open spec fn rule_at(p: Seq<u32>, k: int, t: CornerTests, n: int) -> Rule {
    let e = p[12];
    let c = near(p, k, 1, -1);
    let g = near(p, k, -1, 1);
    if e == near(p, k, 0, 1) || e == near(p, k, 1, 0) || t.edge == Sums::SecondSmaller {
        Rule::Keep
    } else if t.edge == Sums::FirstSmaller && sub_condition_at(p, k, n) {
        Rule::Lines {
            left: t.steep && e != g && near(p, k, -1, 0) != g,
            up: t.shallow && e != c && near(p, k, 0, -1) != c,
        }
    } else {
        Rule::Diagonal
    }
}

/// The color that is mixed in: that of the nearer neighbor.
pub open spec fn color_at(p: Seq<u32>, k: int, t: CornerTests) -> u32 {
    if t.f_nearer {
        near(p, k, 1, 0)
    } else {
        near(p, k, 0, 1)
    }
}

fn sub_condition_24(p: &[u32; 25], k: usize) -> (r: bool)
    requires
        k < 4,
    ensures
        r == sub_condition_24_at(p@, k as int),
{
    let cp: CornerParams = corner_params(k);
    proof {
        lemma_near(p@, k as int, cp);
    }
    let e: u32 = p[12];
    (p[cp.f] != p[cp.b] && p[cp.h] != p[cp.d]) || (e == p[cp.i] && p[cp.f] != p[cp.i4] && p[cp.h]
        != p[cp.i5]) || e == p[cp.g] || e == p[cp.c]
}

fn sub_condition_3(p: &[u32; 25], k: usize) -> (r: bool)
    requires
        k < 4,
    ensures
        r == sub_condition_3_at(p@, k as int),
{
    let cp: CornerParams = corner_params(k);
    proof {
        lemma_near(p@, k as int, cp);
    }
    let e: u32 = p[12];
    (p[cp.f] != p[cp.b] && p[cp.f] != p[cp.c]) || (p[cp.h] != p[cp.d] && p[cp.h] != p[cp.g]) || (e
        == p[cp.i] && ((p[cp.f] != p[cp.f4] && p[cp.f] != p[cp.i4]) || (p[cp.h] != p[cp.h5]
        && p[cp.h] != p[cp.i5]))) || e == p[cp.g] || e == p[cp.c]
}

/// The rule for a corner, and the color that is mixed in.
pub fn corner_rule(p: &[u32; 25], k: usize, t: CornerTests, n: usize) -> (r: (Rule, u32))
    requires
        k < 4,
    ensures
        r.0 == rule_at(p@, k as int, t, n as int),
        r.1 == color_at(p@, k as int, t),
{
    let cp: CornerParams = corner_params(k);
    proof {
        lemma_near(p@, k as int, cp);
    }
    let e: u32 = p[12];
    let color: u32 = if t.f_nearer {
        p[cp.f]
    } else {
        p[cp.h]
    };
    if e == p[cp.h] || e == p[cp.f] || t.edge == Sums::SecondSmaller {
        return (Rule::Keep, color);
    }
    let sub: bool = if n == 3 {
        sub_condition_3(p, k)
    } else {
        sub_condition_24(p, k)
    };
    if t.edge == Sums::FirstSmaller && sub {
        let left: bool = t.steep && e != p[cp.g] && p[cp.d] != p[cp.g];
        let up: bool = t.shallow && e != p[cp.c] && p[cp.b] != p[cp.c];
        (Rule::Lines { left, up }, color)
    } else {
        (Rule::Diagonal, color)
    }
}

// ── Output blocks ──

/// Position in the output block that corner `k` sees where the bottom right
/// corner sees position `i`.
pub open spec fn place(n: int, k: int, i: int) -> int {
    let column = if to_x(k) > 0 {
        i % n
    } else {
        n - 1 - i % n
    };
    let row = if to_y(k) > 0 {
        i / n
    } else {
        n - 1 - i / n
    };
    row * n + column
}

/// Position `i` of the block is mixed with a color, out of 256 parts.
pub open spec fn dab(b: Seq<u32>, n: int, k: int, i: int, color: u32, parts: int) -> Seq<u32> {
    b.update(place(n, k, i), blended(b[place(n, k, i)], color, 256 * parts))
}

/// Position `i` of the block gets a color.
pub open spec fn put(b: Seq<u32>, n: int, k: int, i: int, color: u32) -> Seq<u32> {
    b.update(place(n, k, i), color)
}

/// What one corner does to a block of the scaler by 2.
pub open spec fn corner2(b: Seq<u32>, k: int, rule: Rule, c: u32) -> Seq<u32> {
    match rule {
        Rule::Keep => b,
        Rule::Diagonal => dab(b, 2, k, 3, c, 128),
        Rule::Lines { left, up } => if left && up {
            let side = blended(b[place(2, k, 2)], c, 16384);
            put(put(dab(b, 2, k, 3, c, 224), 2, k, 2, side), 2, k, 1, side)
        } else if left {
            dab(dab(b, 2, k, 3, c, 192), 2, k, 2, c, 64)
        } else if up {
            dab(dab(b, 2, k, 3, c, 192), 2, k, 1, c, 64)
        } else {
            dab(b, 2, k, 3, c, 128)
        },
    }
}

/// What one corner does to a block of the scaler by 3.
pub open spec fn corner3(b: Seq<u32>, k: int, rule: Rule, c: u32) -> Seq<u32> {
    match rule {
        Rule::Keep => b,
        Rule::Diagonal => dab(b, 3, k, 8, c, 128),
        Rule::Lines { left, up } => if left && up {
            let inner = blended(b[place(3, k, 7)], c, 49152);
            let outer = blended(b[place(3, k, 6)], c, 16384);
            let b1 = put(put(b, 3, k, 7, inner), 3, k, 6, outer);
            put(put(put(b1, 3, k, 5, inner), 3, k, 2, outer), 3, k, 8, c)
        } else if left {
            let b1 = dab(dab(dab(b, 3, k, 7, c, 192), 3, k, 5, c, 64), 3, k, 6, c, 64);
            put(b1, 3, k, 8, c)
        } else if up {
            let b1 = dab(dab(dab(b, 3, k, 5, c, 192), 3, k, 7, c, 64), 3, k, 2, c, 64);
            put(b1, 3, k, 8, c)
        } else {
            dab(dab(dab(b, 3, k, 8, c, 224), 3, k, 5, c, 32), 3, k, 7, c, 32)
        },
    }
}

/// What one corner does to a block of the scaler by 4.
pub open spec fn corner4(b: Seq<u32>, k: int, rule: Rule, c: u32) -> Seq<u32> {
    match rule {
        Rule::Keep => b,
        Rule::Diagonal => dab(b, 4, k, 15, c, 128),
        Rule::Lines { left, up } => if left && up {
            let inner = blended(b[place(4, k, 13)], c, 49152);
            let outer = blended(b[place(4, k, 12)], c, 16384);
            let b1 = put(put(b, 4, k, 13, inner), 4, k, 12, outer);
            let b2 = put(put(put(b1, 4, k, 15, c), 4, k, 14, c), 4, k, 11, c);
            put(put(put(b2, 4, k, 10, outer), 4, k, 3, outer), 4, k, 7, inner)
        } else if left {
            let b1 = dab(dab(b, 4, k, 11, c, 192), 4, k, 13, c, 192);
            let b2 = dab(dab(b1, 4, k, 10, c, 64), 4, k, 12, c, 64);
            put(put(b2, 4, k, 14, c), 4, k, 15, c)
        } else if up {
            let b1 = dab(dab(b, 4, k, 14, c, 192), 4, k, 7, c, 192);
            let b2 = dab(dab(b1, 4, k, 10, c, 64), 4, k, 3, c, 64);
            put(put(b2, 4, k, 11, c), 4, k, 15, c)
        } else {
            let b1 = dab(dab(b, 4, k, 11, c, 128), 4, k, 14, c, 128);
            put(b1, 4, k, 15, c)
        },
    }
}

pub open spec fn corner_done(b: Seq<u32>, n: int, k: int, rule: Rule, c: u32) -> Seq<u32> {
    if n == 2 {
        corner2(b, k, rule, c)
    } else if n == 3 {
        corner3(b, k, rule, c)
    } else {
        corner4(b, k, rule, c)
    }
}

/// The output block of a pixel after its first `m` corners.
pub open spec fn block_after(p: Seq<u32>, t: Seq<CornerTests>, n: int, m: nat) -> Seq<u32>
    decreases m,
{
    if m == 0 {
        Seq::new((n * n) as nat, |i: int| p[12])
    } else {
        let k = m - 1;
        corner_done(
            block_after(p, t, n, (m - 1) as nat),
            n,
            k,
            rule_at(p, k, t[k], n),
            color_at(p, k, t[k]),
        )
    }
}

/// The output block of a pixel.
pub open spec fn block(p: Seq<u32>, t: Seq<CornerTests>, n: int) -> Seq<u32> {
    block_after(p, t, n, 4)
}

fn place_of(n: usize, k: usize, i: usize) -> (r: usize)
    requires
        2 <= n <= 4,
        k < 4,
        i < n * n,
    ensures
        r == place(n as int, k as int, i as int),
        r < n * n,
{
    proof {
        crate::grid::lemma_position(i as int, n as int, n as int);
        crate::grid::lemma_cell(
            if to_x(k as int) > 0 {
                i as int % n as int
            } else {
                n - 1 - i as int % n as int
            },
            if to_y(k as int) > 0 {
                i as int / n as int
            } else {
                n - 1 - i as int / n as int
            },
            n as int,
            n as int,
        );
        assert(n * n <= 16) by (nonlinear_arith)
            requires
                2 <= n <= 4,
        ;
    }
    let column: usize = if k % 2 == 0 {
        i % n
    } else {
        n - 1 - i % n
    };
    let row: usize = if k < 2 {
        i / n
    } else {
        n - 1 - i / n
    };
    row * n + column
}

fn dab_block(b: &mut Vec<u32>, n: usize, k: usize, i: usize, color: u32, parts: u32)
    requires
        2 <= n <= 4,
        k < 4,
        i < n * n,
        parts <= 256,
        old(b)@.len() == n * n,
    ensures
        final(b)@ == dab(old(b)@, n as int, k as int, i as int, color, parts as int),
        final(b)@.len() == n * n,
{
    let at: usize = place_of(n, k, i);
    let mixed: u32 = blend_argb(b[at], color, 256 * parts);
    b[at] = mixed;
}

fn put_block(b: &mut Vec<u32>, n: usize, k: usize, i: usize, color: u32)
    requires
        2 <= n <= 4,
        k < 4,
        i < n * n,
        old(b)@.len() == n * n,
    ensures
        final(b)@ == put(old(b)@, n as int, k as int, i as int, color),
        final(b)@.len() == n * n,
{
    let at: usize = place_of(n, k, i);
    b[at] = color;
}

fn mixed_at(b: &Vec<u32>, n: usize, k: usize, i: usize, color: u32, parts: u32) -> (r: u32)
    requires
        2 <= n <= 4,
        k < 4,
        i < n * n,
        parts <= 256,
        b@.len() == n * n,
    ensures
        r == blended(b@[place(n as int, k as int, i as int)], color, 256 * parts),
{
    blend_argb(b[place_of(n, k, i)], color, 256 * parts)
}

fn filt2x(b: &mut Vec<u32>, k: usize, rule: Rule, c: u32)
    requires
        k < 4,
        old(b)@.len() == 4,
    ensures
        final(b)@ == corner2(old(b)@, k as int, rule, c),
        final(b)@.len() == 4,
{
    match rule {
        Rule::Keep => {},
        Rule::Diagonal => {
            dab_block(b, 2, k, 3, c, 128);
        },
        Rule::Lines { left, up } => {
            if left && up {
                let side: u32 = mixed_at(b, 2, k, 2, c, 64);
                dab_block(b, 2, k, 3, c, 224);
                put_block(b, 2, k, 2, side);
                put_block(b, 2, k, 1, side);
            } else if left {
                dab_block(b, 2, k, 3, c, 192);
                dab_block(b, 2, k, 2, c, 64);
            } else if up {
                dab_block(b, 2, k, 3, c, 192);
                dab_block(b, 2, k, 1, c, 64);
            } else {
                dab_block(b, 2, k, 3, c, 128);
            }
        },
    }
}

fn filt3x(b: &mut Vec<u32>, k: usize, rule: Rule, c: u32)
    requires
        k < 4,
        old(b)@.len() == 9,
    ensures
        final(b)@ == corner3(old(b)@, k as int, rule, c),
        final(b)@.len() == 9,
{
    match rule {
        Rule::Keep => {},
        Rule::Diagonal => {
            dab_block(b, 3, k, 8, c, 128);
        },
        Rule::Lines { left, up } => {
            if left && up {
                let inner: u32 = mixed_at(b, 3, k, 7, c, 192);
                let outer: u32 = mixed_at(b, 3, k, 6, c, 64);
                put_block(b, 3, k, 7, inner);
                put_block(b, 3, k, 6, outer);
                put_block(b, 3, k, 5, inner);
                put_block(b, 3, k, 2, outer);
                put_block(b, 3, k, 8, c);
            } else if left {
                dab_block(b, 3, k, 7, c, 192);
                dab_block(b, 3, k, 5, c, 64);
                dab_block(b, 3, k, 6, c, 64);
                put_block(b, 3, k, 8, c);
            } else if up {
                dab_block(b, 3, k, 5, c, 192);
                dab_block(b, 3, k, 7, c, 64);
                dab_block(b, 3, k, 2, c, 64);
                put_block(b, 3, k, 8, c);
            } else {
                dab_block(b, 3, k, 8, c, 224);
                dab_block(b, 3, k, 5, c, 32);
                dab_block(b, 3, k, 7, c, 32);
            }
        },
    }
}

fn filt4x(b: &mut Vec<u32>, k: usize, rule: Rule, c: u32)
    requires
        k < 4,
        old(b)@.len() == 16,
    ensures
        final(b)@ == corner4(old(b)@, k as int, rule, c),
        final(b)@.len() == 16,
{
    match rule {
        Rule::Keep => {},
        Rule::Diagonal => {
            dab_block(b, 4, k, 15, c, 128);
        },
        Rule::Lines { left, up } => {
            if left && up {
                let inner: u32 = mixed_at(b, 4, k, 13, c, 192);
                let outer: u32 = mixed_at(b, 4, k, 12, c, 64);
                put_block(b, 4, k, 13, inner);
                put_block(b, 4, k, 12, outer);
                put_block(b, 4, k, 15, c);
                put_block(b, 4, k, 14, c);
                put_block(b, 4, k, 11, c);
                put_block(b, 4, k, 10, outer);
                put_block(b, 4, k, 3, outer);
                put_block(b, 4, k, 7, inner);
            } else if left {
                dab_block(b, 4, k, 11, c, 192);
                dab_block(b, 4, k, 13, c, 192);
                dab_block(b, 4, k, 10, c, 64);
                dab_block(b, 4, k, 12, c, 64);
                put_block(b, 4, k, 14, c);
                put_block(b, 4, k, 15, c);
            } else if up {
                dab_block(b, 4, k, 14, c, 192);
                dab_block(b, 4, k, 7, c, 192);
                dab_block(b, 4, k, 10, c, 64);
                dab_block(b, 4, k, 3, c, 64);
                put_block(b, 4, k, 11, c);
                put_block(b, 4, k, 15, c);
            } else {
                dab_block(b, 4, k, 11, c, 128);
                dab_block(b, 4, k, 14, c, 128);
                put_block(b, 4, k, 15, c);
            }
        },
    }
}

/// The output block of a pixel.
pub fn scale_block(p: &[u32; 25], t: &[CornerTests; 4], n: usize) -> (b: Vec<u32>)
    requires
        2 <= n <= 4,
    ensures
        b@ == block(p@, t@, n as int),
        b@.len() == n * n,
{
    let mut b: Vec<u32> = Vec::new();
    assert(n * n <= 16) by (nonlinear_arith)
        requires
            2 <= n <= 4,
    ;
    let size: usize = n * n;
    while b.len() < size
        invariant
            b@.len() <= size,
            forall|i: int| 0 <= i < b@.len() ==> #[trigger] b@[i] == p@[12],
        decreases size - b@.len(),
    {
        b.push(p[12]);
    }
    assert(b@ =~= block_after(p@, t@, n as int, 0));
    let mut k: usize = 0;
    while k < 4
        invariant
            k <= 4,
            2 <= n <= 4,
            b@ == block_after(p@, t@, n as int, k as nat),
            b@.len() == n * n,
        decreases 4 - k,
    {
        let (rule, c) = corner_rule(p, k, t[k], n);
        if n == 2 {
            filt2x(&mut b, k, rule, c);
        } else if n == 3 {
            filt3x(&mut b, k, rule, c);
        } else {
            filt4x(&mut b, k, rule, c);
        }
        k += 1;
    }
    b
}

// ── Pictures ──

/// The output block of the pixel at `(x, y)`.
pub open spec fn block_of(
    px: Seq<u32>,
    w: int,
    h: int,
    tests: Seq<[CornerTests; 4]>,
    n: int,
) -> spec_fn(int, int) -> Seq<u32> {
    |x: int, y: int| block(around(px, w, h, x, y), tests[crate::grid::cell(x, y, w)]@, n)
}

/// A picture with the comparisons for each of its pixels, small enough that
/// the scaled picture can be addressed.
pub open spec fn scalable(
    px: Seq<u32>,
    w: int,
    h: int,
    tests: Seq<[CornerTests; 4]>,
    n: int,
) -> bool {
    &&& picture_fits(px, w, h)
    &&& tests.len() == w * h
    &&& (n * n * w) * h <= usize::MAX
}

fn scale_by(src: &[u32], w: usize, h: usize, tests: &[[CornerTests; 4]], n: usize) -> (dst: Vec<u32>)
    requires
        2 <= n <= 4,
        scalable(src@, w as int, h as int, tests@, n as int),
    ensures
        dst@ == tiled(
            block_of(src@, w as int, h as int, tests@, n as int),
            w as int,
            h as int,
            n as int,
        ),
{
    let ghost f = block_of(src@, w as int, h as int, tests@, n as int);
    if w == 0 || h == 0 {
        proof {
            lemma_tiled_empty(f, w as int, h as int, n as int);
        }
        return Vec::new();
    }
    assert(n * n * w <= (n * n * w) * h) by (nonlinear_arith)
        requires
            2 <= n,
            1 <= w,
            1 <= h,
    ;
    let _n: usize = tests.len();
    let mut dst: Vec<u32> = Vec::new();
    let mut y: usize = 0;
    assert(dst@ =~= tiled(f, w as int, 0, n as int));
    while y < h
        invariant
            y <= h,
            1 <= w,
            2 <= n <= 4,
            scalable(src@, w as int, h as int, tests@, n as int),
            n * n * w <= usize::MAX,
            tests@.len() <= usize::MAX,
            f == block_of(src@, w as int, h as int, tests@, n as int),
            dst@ == tiled(f, w as int, y as int, n as int),
        decreases h - y,
    {
        let mut row: Vec<Vec<u32>> = Vec::new();
        let mut x: usize = 0;
        while x < w
            invariant
                x <= w,
                y < h,
                2 <= n <= 4,
                scalable(src@, w as int, h as int, tests@, n as int),
                tests@.len() <= usize::MAX,
                f == block_of(src@, w as int, h as int, tests@, n as int),
                row@.len() == x,
                forall|i: int|
                    0 <= i < x ==> (#[trigger] row@[i])@ == f(i, y as int) && row@[i]@.len() == n
                        * n,
            decreases w - x,
        {
            proof {
                crate::grid::lemma_cell(x as int, y as int, w as int, h as int);
            }
            let p: [u32; 25] = sample(src, w, h, x, y);
            let b: Vec<u32> = scale_block(&p, &tests[y * w + x], n);
            row.push(b);
            x += 1;
        }
        proof {
            lemma_tiled_grows(f, row@, w as int, y as int, n as int);
        }
        emit_row(&mut dst, &row, n);
        y += 1;
    }
    dst
}

/// Scale a picture by 2, given what the comparisons came out as.
pub fn scale2x(src: &[u32], src_w: usize, src_h: usize, tests: &[[CornerTests; 4]]) -> (dst: Vec<u32>)
    requires
        scalable(src@, src_w as int, src_h as int, tests@, 2),
    ensures
        dst@ == tiled(
            block_of(src@, src_w as int, src_h as int, tests@, 2),
            src_w as int,
            src_h as int,
            2,
        ),
{
    scale_by(src, src_w, src_h, tests, 2)
}

/// Scale a picture by 3, given what the comparisons came out as.
pub fn scale3x(src: &[u32], src_w: usize, src_h: usize, tests: &[[CornerTests; 4]]) -> (dst: Vec<u32>)
    requires
        scalable(src@, src_w as int, src_h as int, tests@, 3),
    ensures
        dst@ == tiled(
            block_of(src@, src_w as int, src_h as int, tests@, 3),
            src_w as int,
            src_h as int,
            3,
        ),
{
    scale_by(src, src_w, src_h, tests, 3)
}

/// Scale a picture by 4, given what the comparisons came out as.
pub fn scale4x(src: &[u32], src_w: usize, src_h: usize, tests: &[[CornerTests; 4]]) -> (dst: Vec<u32>)
    requires
        scalable(src@, src_w as int, src_h as int, tests@, 4),
    ensures
        dst@ == tiled(
            block_of(src@, src_w as int, src_h as int, tests@, 4),
            src_w as int,
            src_h as int,
            4,
        ),
{
    scale_by(src, src_w, src_h, tests, 4)
}

/// Scale a picture, given what the comparisons came out as.
pub fn scale(
    src: &[u32],
    src_w: usize,
    src_h: usize,
    mode: XbrScale,
    tests: &[[CornerTests; 4]],
) -> (dst: Vec<u32>)
    requires
        scalable(src@, src_w as int, src_h as int, tests@, mode.times()),
    ensures
        dst@ == tiled(
            block_of(src@, src_w as int, src_h as int, tests@, mode.times()),
            src_w as int,
            src_h as int,
            mode.times(),
        ),
{
    match mode {
        XbrScale::Xbr2x => scale2x(src, src_w, src_h, tests),
        XbrScale::Xbr3x => scale3x(src, src_w, src_h, tests),
        XbrScale::Xbr4x => scale4x(src, src_w, src_h, tests),
    }
}

// ── Laws ──

/// A pixel that has its own color beside each corner is only enlarged.
pub proof fn law_flat_pixels_are_enlarged(p: Seq<u32>, t: Seq<CornerTests>, n: int)
    requires
        2 <= n <= 4,
        p[12] == p[13] || p[12] == p[17],
        p[12] == p[11] || p[12] == p[17],
        p[12] == p[13] || p[12] == p[7],
        p[12] == p[11] || p[12] == p[7],
    ensures
        block(p, t, n) == Seq::new((n * n) as nat, |i: int| p[12]),
{
    reveal(near);
    reveal_with_fuel(block_after, 5);
    assert forall|k: int| 0 <= k < 4 implies #[trigger] rule_at(p, k, t[k], n) == Rule::Keep by {}
}

/// The corners see the output block in mirror images: each position is seen by
/// every corner from exactly one.
pub proof fn law_places_mirror(n: int, k: int, i: int)
    requires
        2 <= n <= 4,
        0 <= k < 4,
        0 <= i < n * n,
    ensures
        0 <= place(n, k, i) < n * n,
        place(n, k, place(n, k, i)) == i,
{
    crate::grid::lemma_position(i, n, n);
    let column = if to_x(k) > 0 {
        i % n
    } else {
        n - 1 - i % n
    };
    let row = if to_y(k) > 0 {
        i / n
    } else {
        n - 1 - i / n
    };
    crate::grid::lemma_cell(column, row, n, n);
}

} // verus!
