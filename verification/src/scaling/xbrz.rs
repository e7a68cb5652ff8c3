//! xBRZ pixel-art scaling by 2 to 6.
//!
//! First the junctions between pixels are analyzed: which of the two diagonals
//! continues an edge, and how strongly. Then each corner of a pixel is blended
//! after the direction of its edge. How far apart two colors look is measured
//! outside; the outcomes of the comparisons come in as [`JunctionTests`] and
//! [`BlendTests`].

use vstd::prelude::*;

use crate::grid::{cell, lemma_cell};
use crate::scaling::picture::{
    emit_row, get, lemma_tiled_empty, lemma_tiled_grows, picture_fits, picture_wf, tiled,
};
use crate::scaling::raster::pixel_clamped;
use crate::scaling::single::{weighted, weighted_mix};
use crate::scaling::xbr::Sums;

verus! {

#[derive(Clone, Copy, Debug, PartialEq, Eq, Structural)]
pub enum XbrzScale {
    Xbrz2x,
    Xbrz3x,
    Xbrz4x,
    Xbrz5x,
    Xbrz6x,
}

impl XbrzScale {
    pub open spec fn times(self) -> int {
        match self {
            XbrzScale::Xbrz2x => 2,
            XbrzScale::Xbrz3x => 3,
            XbrzScale::Xbrz4x => 4,
            XbrzScale::Xbrz5x => 5,
            XbrzScale::Xbrz6x => 6,
        }
    }

    /// How many times wider and higher the output is.
    pub fn factor(self) -> (r: u32)
        ensures
            r == self.times(),
    {
        match self {
            XbrzScale::Xbrz2x => 2,
            XbrzScale::Xbrz3x => 3,
            XbrzScale::Xbrz4x => 4,
            XbrzScale::Xbrz5x => 5,
            XbrzScale::Xbrz6x => 6,
        }
    }
}

// ── Edge strengths ──

pub const EDGE_NONE: u8 = 0;
pub const EDGE_NORMAL: u8 = 1;
pub const EDGE_DOMINANT: u8 = 2;

/// The edge strength of a corner in a byte that holds four: corners count from
/// the top left, clockwise, two bits each.
pub open spec fn edge_of(packed: u8, corner: int) -> u8 {
    if corner == 0 {
        packed % 4
    } else if corner == 1 {
        packed / 4 % 4
    } else if corner == 2 {
        packed / 16 % 4
    } else {
        packed / 64
    }
}

/// Four edge strengths in a byte.
pub open spec fn edges(c0: u8, c1: u8, c2: u8, c3: u8) -> u8 {
    (c0 + 4 * c1 + 16 * c2 + 64 * c3) as u8
}

/// Pack four edge strengths into a byte.
pub fn pack_edge(c0: u8, c1: u8, c2: u8, c3: u8) -> (r: u8)
    requires
        c0 < 4,
        c1 < 4,
        c2 < 4,
        c3 < 4,
    ensures
        r == edges(c0, c1, c2, c3),
{
    c0 + 4 * c1 + 16 * c2 + 64 * c3
}

pub fn read_edge(packed: u8, corner: u8) -> (r: u8)
    requires
        corner < 4,
    ensures
        r == edge_of(packed, corner as int),
        r < 4,
{
    if corner == 0 {
        packed % 4
    } else if corner == 1 {
        packed / 4 % 4
    } else if corner == 2 {
        packed / 16 % 4
    } else {
        packed / 64
    }
}

/// Turn the corners: each gets the strength of the next one clockwise.
pub fn rotate_edges(packed: u8) -> (r: u8)
    ensures
        r == edges(edge_of(packed, 1), edge_of(packed, 2), edge_of(packed, 3), edge_of(packed, 0)),
{
    pack_edge(read_edge(packed, 1), read_edge(packed, 2), read_edge(packed, 3), read_edge(packed, 0))
}

/// Each corner reads back what was packed for it.
pub proof fn law_edges_read_back(c0: u8, c1: u8, c2: u8, c3: u8)
    requires
        c0 < 4,
        c1 < 4,
        c2 < 4,
        c3 < 4,
    ensures
        edge_of(edges(c0, c1, c2, c3), 0) == c0,
        edge_of(edges(c0, c1, c2, c3), 1) == c1,
        edge_of(edges(c0, c1, c2, c3), 2) == c2,
        edge_of(edges(c0, c1, c2, c3), 3) == c3,
{
}

/// What is read from a byte packs to the same byte.
pub proof fn law_edges_pack_back(packed: u8)
    ensures
        edges(edge_of(packed, 0), edge_of(packed, 1), edge_of(packed, 2), edge_of(packed, 3))
            == packed,
{
}

/// Strengths turned `r` times.
pub open spec fn turned(packed: u8, r: nat) -> u8
    decreases r,
{
    if r == 0 {
        packed
    } else {
        let p = turned(packed, (r - 1) as nat);
        edges(edge_of(p, 1), edge_of(p, 2), edge_of(p, 3), edge_of(p, 0))
    }
}

/// Turning moves every corner; four turns change nothing.
pub proof fn law_four_turns(packed: u8)
    ensures
        turned(packed, 4) == packed,
        edge_of(turned(packed, 1), 2) == edge_of(packed, 3),
        edge_of(turned(packed, 2), 2) == edge_of(packed, 0),
        edge_of(turned(packed, 3), 2) == edge_of(packed, 1),
{
    reveal_with_fuel(turned, 5);
    let c0 = edge_of(packed, 0);
    let c1 = edge_of(packed, 1);
    let c2 = edge_of(packed, 2);
    let c3 = edge_of(packed, 3);
    law_edges_pack_back(packed);
    law_edges_read_back(c1, c2, c3, c0);
    law_edges_read_back(c2, c3, c0, c1);
    law_edges_read_back(c3, c0, c1, c2);
}

fn turn_edges(packed: u8, times: u8) -> (r: u8)
    requires
        times < 4,
    ensures
        r == turned(packed, times as nat),
{
    let mut r: u8 = packed;
    let mut i: u8 = 0;
    while i < times
        invariant
            i <= times,
            r == turned(packed, i as nat),
        decreases times - i,
    {
        r = rotate_edges(r);
        i += 1;
    }
    r
}

// ── Junctions ──

/// What the comparisons at a junction came out as: the distances along the
/// diagonal from bottom left to top right against those along the other one,
/// and whether the smaller sum is smaller by far.
#[derive(Clone, Copy, PartialEq, Eq, Structural)]
pub struct JunctionTests {
    pub sums: Sums,
    pub dominant: bool,
}

/// The edge strength at one corner of a junction whose pixels are `f`, `g`
/// above `j`, `k`. The diagonal that is more alike wins, and the edge falls on
/// the two other pixels, where they differ from both.
pub open spec fn junction_edge(f: u32, g: u32, j: u32, k: u32, t: JunctionTests, corner: int) -> u8 {
    let strength = if t.dominant {
        EDGE_DOMINANT
    } else {
        EDGE_NORMAL
    };
    let falls = if (f == g && j == k) || (f == j && g == k) {
        false
    } else if t.sums == Sums::FirstSmaller {
        (corner == 2 && f != g && f != j) || (corner == 0 && k != j && k != g)
    } else if t.sums == Sums::SecondSmaller {
        (corner == 3 && g != f && g != k) || (corner == 1 && j != f && j != k)
    } else {
        false
    };
    if falls {
        strength
    } else {
        EDGE_NONE
    }
}

/// The strengths at the junction right below pixel `(jx, jy)`.
pub open spec fn junction_edge_at(
    px: Seq<u32>,
    w: int,
    h: int,
    jx: int,
    jy: int,
    t: JunctionTests,
    corner: int,
) -> u8 {
    junction_edge(
        pixel_clamped(px, w, h, jx, jy),
        pixel_clamped(px, w, h, jx + 1, jy),
        pixel_clamped(px, w, h, jx, jy + 1),
        pixel_clamped(px, w, h, jx + 1, jy + 1),
        t,
        corner,
    )
}

/// Analyze the junction right below pixel `(jx, jy)`.
pub fn analyze_junction(src: &[u32], w: usize, h: usize, jx: i64, jy: i64, t: JunctionTests) -> (r:
    u8)
    requires
        picture_wf(src@, w as int, h as int),
        -1 <= jx < w,
        -1 <= jy < h,
    ensures
        forall|corner: int|
            0 <= corner < 4 ==> #[trigger] edge_of(r, corner) == junction_edge_at(
                src@,
                w as int,
                h as int,
                jx as int,
                jy as int,
                t,
                corner,
            ),
{
    let f: u32 = get(src, w, h, jx, jy);
    let g: u32 = get(src, w, h, jx + 1, jy);
    let j: u32 = get(src, w, h, jx, jy + 1);
    let k: u32 = get(src, w, h, jx + 1, jy + 1);
    if (f == g && j == k) || (f == j && g == k) {
        return 0;
    }
    let s: u8 = if t.dominant {
        EDGE_DOMINANT
    } else {
        EDGE_NORMAL
    };
    if t.sums == Sums::FirstSmaller {
        let c2: u8 = if f != g && f != j {
            s
        } else {
            EDGE_NONE
        };
        let c0: u8 = if k != j && k != g {
            s
        } else {
            EDGE_NONE
        };
        pack_edge(c0, 0, c2, 0)
    } else if t.sums == Sums::SecondSmaller {
        let c3: u8 = if g != f && g != k {
            s
        } else {
            EDGE_NONE
        };
        let c1: u8 = if j != f && j != k {
            s
        } else {
            EDGE_NONE
        };
        pack_edge(0, c1, 0, c3)
    } else {
        0
    }
}

/// The pairs of colors whose distances are summed at a junction, each sum with
/// its last distance counted four times.
pub fn junction_pairs(src: &[u32], w: usize, h: usize, jx: i64, jy: i64) -> (r: (
    [(u32, u32); 5],
    [(u32, u32); 5],
))
    requires
        picture_wf(src@, w as int, h as int),
        -1 <= jx < w,
        -1 <= jy < h,
    ensures
        ({
            let at = |dx: int, dy: int|
                pixel_clamped(src@, w as int, h as int, jx + dx, jy + dy);
            &&& r.0@ == seq![
                (at(-1, 1), at(0, 0)),
                (at(0, 0), at(1, -1)),
                (at(0, 2), at(1, 1)),
                (at(1, 1), at(2, 0)),
                (at(0, 1), at(1, 0)),
            ]
            &&& r.1@ == seq![
                (at(-1, 0), at(0, 1)),
                (at(0, 1), at(1, 2)),
                (at(0, -1), at(1, 0)),
                (at(1, 0), at(2, 1)),
                (at(0, 0), at(1, 1)),
            ]
        }),
{
    let f: u32 = get(src, w, h, jx, jy);
    let g: u32 = get(src, w, h, jx + 1, jy);
    let j: u32 = get(src, w, h, jx, jy + 1);
    let k: u32 = get(src, w, h, jx + 1, jy + 1);
    let first: [(u32, u32); 5] = [
        (get(src, w, h, jx - 1, jy + 1), f),
        (f, get(src, w, h, jx + 1, jy - 1)),
        (get(src, w, h, jx, jy + 2), k),
        (k, get(src, w, h, jx + 2, jy)),
        (j, g),
    ];
    let second: [(u32, u32); 5] = [
        (get(src, w, h, jx - 1, jy), j),
        (j, get(src, w, h, jx + 1, jy + 2)),
        (get(src, w, h, jx, jy - 1), g),
        (g, get(src, w, h, jx + 2, jy + 1)),
        (f, k),
    ];
    (first, second)
}

/// The tests of the junction right below pixel `(jx, jy)`: they are kept for
/// all junctions of the picture, those on its rim too.
pub open spec fn junction_test(jt: Seq<JunctionTests>, w: int, jx: int, jy: int) -> JunctionTests {
    jt[cell(jx + 1, jy + 1, w + 1)]
}

/// The edge strengths of a pixel: each corner takes its part from the junction
/// there.
pub open spec fn pixel_edges(
    px: Seq<u32>,
    w: int,
    h: int,
    jt: Seq<JunctionTests>,
    x: int,
    y: int,
) -> u8 {
    edges(
        junction_edge_at(px, w, h, x - 1, y - 1, junction_test(jt, w, x - 1, y - 1), 0),
        junction_edge_at(px, w, h, x, y - 1, junction_test(jt, w, x, y - 1), 1),
        junction_edge_at(px, w, h, x, y, junction_test(jt, w, x, y), 2),
        junction_edge_at(px, w, h, x - 1, y, junction_test(jt, w, x - 1, y), 3),
    )
}

pub open spec fn junctions_wf(w: int, h: int, jt: Seq<JunctionTests>) -> bool {
    jt.len() == (w + 1) * (h + 1)
}

fn junction_at(src: &[u32], w: usize, h: usize, jt: &[JunctionTests], jx: i64, jy: i64) -> (r: u8)
    requires
        picture_wf(src@, w as int, h as int),
        junctions_wf(w as int, h as int, jt@),
        -1 <= jx < w,
        -1 <= jy < h,
    ensures
        forall|corner: int|
            0 <= corner < 4 ==> #[trigger] edge_of(r, corner) == junction_edge_at(
                src@,
                w as int,
                h as int,
                jx as int,
                jy as int,
                junction_test(jt@, w as int, jx as int, jy as int),
                corner,
            ),
{
    let _n: usize = jt.len();
    let cx: usize = (jx + 1) as usize;
    let cy: usize = (jy + 1) as usize;
    proof {
        lemma_cell(cx as int, cy as int, w + 1, h + 1);
    }
    analyze_junction(src, w, h, jx, jy, jt[cy * (w + 1) + cx])
}

/// The edge strengths of one pixel.
pub fn analyze_pixel(src: &[u32], w: usize, h: usize, jt: &[JunctionTests], x: usize, y: usize) -> (r:
    u8)
    requires
        picture_wf(src@, w as int, h as int),
        junctions_wf(w as int, h as int, jt@),
        x < w,
        y < h,
    ensures
        r == pixel_edges(src@, w as int, h as int, jt@, x as int, y as int),
{
    let ix: i64 = x as i64;
    let iy: i64 = y as i64;
    let tl: u8 = junction_at(src, w, h, jt, ix - 1, iy - 1);
    let tr: u8 = junction_at(src, w, h, jt, ix, iy - 1);
    let br: u8 = junction_at(src, w, h, jt, ix, iy);
    let bl: u8 = junction_at(src, w, h, jt, ix - 1, iy);
    pack_edge(read_edge(tl, 0), read_edge(tr, 1), read_edge(br, 2), read_edge(bl, 3))
}

/// The edge strengths of all pixels.
pub fn analyze_edges(src: &[u32], w: usize, h: usize, jt: &[JunctionTests]) -> (r: Vec<u8>)
    requires
        picture_wf(src@, w as int, h as int),
        junctions_wf(w as int, h as int, jt@),
    ensures
        r@ == Seq::new(
            (w * h) as nat,
            |i: int| pixel_edges(src@, w as int, h as int, jt@, i % (w as int), i / (w as int)),
        ),
{
    let _n: usize = src.len();
    assert(0 <= w * h) by (nonlinear_arith);
    let n: usize = w * h;
    let mut r: Vec<u8> = Vec::new();
    while r.len() < n
        invariant
            picture_wf(src@, w as int, h as int),
            junctions_wf(w as int, h as int, jt@),
            n == w * h,
            r@.len() <= n,
            forall|i: int|
                0 <= i < r@.len() ==> #[trigger] r@[i] == pixel_edges(
                    src@,
                    w as int,
                    h as int,
                    jt@,
                    i % (w as int),
                    i / (w as int),
                ),
        decreases n - r@.len(),
    {
        let i: usize = r.len();
        proof {
            crate::grid::lemma_position(i as int, w as int, h as int);
        }
        r.push(analyze_pixel(src, w, h, jt, i % w, i / w));
    }
    assert(r@ =~= Seq::new(
        (w * h) as nat,
        |i: int| pixel_edges(src@, w as int, h as int, jt@, i % (w as int), i / (w as int)),
    ));
    r
}

// ── Corners ──

/// The pixels around a corner, as seen from it: `f` and `h` beside it, `i`
/// behind it, `b` and `d` opposite `h` and `f`, `c` and `g` the other diagonals.
#[derive(Clone, Copy)]
pub struct CornerPixels {
    pub b: u32,
    pub c: u32,
    pub d: u32,
    pub f: u32,
    pub g: u32,
    pub h: u32,
    pub i: u32,
}

/// Rotations stand for the corners: bottom right, bottom left, top left, top
/// right.
pub open spec fn turn_x(rotation: int) -> int {
    if rotation == 0 || rotation == 3 {
        1
    } else {
        -1
    }
}

pub open spec fn turn_y(rotation: int) -> int {
    if rotation < 2 {
        1
    } else {
        -1
    }
}

/// The pixels around a corner.
pub fn corner_pixels(src: &[u32], w: usize, h: usize, x: usize, y: usize, rotation: u8) -> (r:
    CornerPixels)
    requires
        picture_wf(src@, w as int, h as int),
        x < w,
        y < h,
        rotation < 4,
    ensures
        ({
            let dx = turn_x(rotation as int);
            let dy = turn_y(rotation as int);
            let at = |ax: int, ay: int| pixel_clamped(src@, w as int, h as int, x + ax, y + ay);
            &&& r.f == at(dx, 0)
            &&& r.h == at(0, dy)
            &&& r.g == at(-dx, dy)
            &&& r.i == at(dx, dy)
            &&& r.c == at(dx, -dy)
            &&& r.b == at(0, -dy)
            &&& r.d == at(-dx, 0)
        }),
{
    let ix: i64 = x as i64;
    let iy: i64 = y as i64;
    let dx: i64 = if rotation == 0 || rotation == 3 {
        1
    } else {
        -1
    };
    let dy: i64 = if rotation < 2 {
        1
    } else {
        -1
    };
    CornerPixels {
        b: get(src, w, h, ix, iy - dy),
        c: get(src, w, h, ix + dx, iy - dy),
        d: get(src, w, h, ix - dx, iy),
        f: get(src, w, h, ix + dx, iy),
        g: get(src, w, h, ix - dx, iy + dy),
        h: get(src, w, h, ix, iy + dy),
        i: get(src, w, h, ix + dx, iy + dy),
    }
}

/// What the comparisons at a corner came out as. `e` is the pixel itself; two
/// letters stand for two colors that look alike.
#[derive(Clone, Copy, PartialEq, Eq, Structural)]
pub struct BlendTests {
    /// The pixel is as near to `f` as to `h`, or nearer.
    pub f_nearer: bool,
    pub e_g: bool,
    pub e_c: bool,
    pub e_i: bool,
    pub g_h: bool,
    pub h_i: bool,
    pub i_f: bool,
    pub f_c: bool,
    pub d_g: bool,
    pub b_c: bool,
    /// The distance of `f` and `g` is small against that of `h` and `c`.
    pub f_g_small: bool,
    /// The distance of `h` and `c` is small against that of `f` and `g`.
    pub h_c_small: bool,
}

/// A corner's edge is drawn as a line: always if it is dominant; otherwise
/// unless a neighboring corner has an edge of its own, or the corner is the end
/// of a band of one color.
pub open spec fn blends(info: u8, t: BlendTests) -> bool {
    edge_of(info, 2) >= EDGE_DOMINANT || !((edge_of(info, 1) != EDGE_NONE && !t.e_g) || (edge_of(
        info,
        3,
    ) != EDGE_NONE && !t.e_c) || (!t.e_i && t.g_h && t.h_i && t.i_f && t.f_c))
}

/// Whether a corner's edge is drawn as a line.
pub fn should_blend(info: u8, t: &BlendTests) -> (r: bool)
    ensures
        r == blends(info, *t),
{
    if read_edge(info, 2) >= EDGE_DOMINANT {
        return true;
    }
    if read_edge(info, 1) != EDGE_NONE && !t.e_g {
        return false;
    }
    if read_edge(info, 3) != EDGE_NONE && !t.e_c {
        return false;
    }
    !(!t.e_i && t.g_h && t.h_i && t.i_f && t.f_c)
}

/// What is drawn at a corner.
#[derive(Clone, Copy, PartialEq, Eq, Structural)]
pub enum Pattern {
    Steep,
    Shallow,
    SteepAndShallow,
    Diagonal,
    /// No line, only a rounded corner.
    Corner,
}

/// The direction of an edge.
pub open spec fn direction(t: BlendTests) -> Pattern {
    let shallow = t.f_g_small && !t.e_g && !t.d_g;
    let steep = t.h_c_small && !t.e_c && !t.b_c;
    if steep && shallow {
        Pattern::SteepAndShallow
    } else if steep {
        Pattern::Steep
    } else if shallow {
        Pattern::Shallow
    } else {
        Pattern::Diagonal
    }
}

/// Classify the direction of an edge.
pub fn classify_edge(t: &BlendTests) -> (r: Pattern)
    ensures
        r == direction(*t),
{
    let shallow: bool = t.f_g_small && !t.e_g && !t.d_g;
    let steep: bool = t.h_c_small && !t.e_c && !t.b_c;
    match (steep, shallow) {
        (true, true) => Pattern::SteepAndShallow,
        (true, false) => Pattern::Steep,
        (false, true) => Pattern::Shallow,
        (false, false) => Pattern::Diagonal,
    }
}

pub open spec fn pattern_of(info: u8, t: BlendTests) -> Pattern {
    if blends(info, t) {
        direction(t)
    } else {
        Pattern::Corner
    }
}

// ── Patterns ──

/// Weights, in multiples of 2^-28.
pub const W06: u32 = 16106127;

pub const W09: u32 = 24159192;

pub const EIGHTH: u32 = 33554432;

pub const W21: u32 = 56371444;

pub const W23: u32 = 61740156;

pub const QUARTER: u32 = 67108864;

pub const THIRD: u32 = 89478488;

pub const W42: u32 = 112742888;

pub const W45: u32 = 120795952;

pub const HALF: u32 = 134217728;

pub const TWO_THIRDS: u32 = 178956976;

pub const W68: u32 = 182536112;

pub const THREE_QUARTERS: u32 = 201326592;

pub const FIVE_SIXTHS: u32 = 223696208;

pub const W86: u32 = 230854496;

pub const SEVEN_EIGHTHS: u32 = 234881024;

pub const W97: u32 = 260382400;

pub const WHOLE: u32 = 268435456;

/// One output pixel of a pattern, and the weight of the neighbor's color there.
#[derive(Clone, Copy, PartialEq, Eq, Structural)]
pub struct BlendOp {
    pub row: u8,
    pub col: u8,
    pub weight: u32,
}

pub open spec fn blend_op(row: u8, col: u8, weight: u32) -> BlendOp {
    BlendOp { row, col, weight }
}

fn make_op(row: u8, col: u8, weight: u32) -> (r: BlendOp)
    ensures
        r == blend_op(row, col, weight),
{
    BlendOp { row, col, weight }
}

/// Rows and columns exchanged.
pub open spec fn transposed(ops: Seq<BlendOp>) -> Seq<BlendOp> {
    ops.map_values(|o: BlendOp| BlendOp { row: o.col, col: o.row, weight: o.weight })
}

/// An edge that runs more sideways than down, in the block of the scaler by
/// `n`, seen from the bottom right corner.
pub open spec fn shallow_pattern(n: int) -> Seq<BlendOp> {
    if n == 2 {
        seq![
            blend_op(1, 0, QUARTER),
            blend_op(1, 1, THREE_QUARTERS),
        ]
    } else if n == 3 {
        seq![
            blend_op(2, 0, QUARTER),
            blend_op(1, 2, QUARTER),
            blend_op(2, 1, THREE_QUARTERS),
            blend_op(2, 2, WHOLE),
        ]
    } else if n == 4 {
        seq![
            blend_op(3, 0, QUARTER),
            blend_op(2, 2, QUARTER),
            blend_op(3, 1, THREE_QUARTERS),
            blend_op(2, 3, THREE_QUARTERS),
            blend_op(3, 2, WHOLE),
            blend_op(3, 3, WHOLE),
        ]
    } else if n == 5 {
        seq![
            blend_op(4, 0, QUARTER),
            blend_op(3, 2, QUARTER),
            blend_op(2, 4, QUARTER),
            blend_op(4, 1, THREE_QUARTERS),
            blend_op(3, 3, THREE_QUARTERS),
            blend_op(4, 2, WHOLE),
            blend_op(4, 3, WHOLE),
            blend_op(4, 4, WHOLE),
            blend_op(3, 4, WHOLE),
        ]
    } else {
        seq![
            blend_op(5, 0, QUARTER),
            blend_op(4, 2, QUARTER),
            blend_op(3, 4, QUARTER),
            blend_op(5, 1, THREE_QUARTERS),
            blend_op(4, 3, THREE_QUARTERS),
            blend_op(3, 5, THREE_QUARTERS),
            blend_op(5, 2, WHOLE),
            blend_op(5, 3, WHOLE),
            blend_op(5, 4, WHOLE),
            blend_op(5, 5, WHOLE),
            blend_op(4, 4, WHOLE),
            blend_op(4, 5, WHOLE),
        ]
    }
}

fn shallow_ops(n: usize) -> (r: Vec<BlendOp>)
    requires
        2 <= n <= 6,
    ensures
        r@ == shallow_pattern(n as int),
{
    if n == 2 {
        vec![
            make_op(1, 0, QUARTER),
            make_op(1, 1, THREE_QUARTERS),
        ]
    } else if n == 3 {
        vec![
            make_op(2, 0, QUARTER),
            make_op(1, 2, QUARTER),
            make_op(2, 1, THREE_QUARTERS),
            make_op(2, 2, WHOLE),
        ]
    } else if n == 4 {
        vec![
            make_op(3, 0, QUARTER),
            make_op(2, 2, QUARTER),
            make_op(3, 1, THREE_QUARTERS),
            make_op(2, 3, THREE_QUARTERS),
            make_op(3, 2, WHOLE),
            make_op(3, 3, WHOLE),
        ]
    } else if n == 5 {
        vec![
            make_op(4, 0, QUARTER),
            make_op(3, 2, QUARTER),
            make_op(2, 4, QUARTER),
            make_op(4, 1, THREE_QUARTERS),
            make_op(3, 3, THREE_QUARTERS),
            make_op(4, 2, WHOLE),
            make_op(4, 3, WHOLE),
            make_op(4, 4, WHOLE),
            make_op(3, 4, WHOLE),
        ]
    } else {
        vec![
            make_op(5, 0, QUARTER),
            make_op(4, 2, QUARTER),
            make_op(3, 4, QUARTER),
            make_op(5, 1, THREE_QUARTERS),
            make_op(4, 3, THREE_QUARTERS),
            make_op(3, 5, THREE_QUARTERS),
            make_op(5, 2, WHOLE),
            make_op(5, 3, WHOLE),
            make_op(5, 4, WHOLE),
            make_op(5, 5, WHOLE),
            make_op(4, 4, WHOLE),
            make_op(4, 5, WHOLE),
        ]
    }
}

/// Two edges that meet in the corner.
pub open spec fn steep_and_shallow_pattern(n: int) -> Seq<BlendOp> {
    if n == 2 {
        seq![
            blend_op(0, 1, QUARTER),
            blend_op(1, 0, QUARTER),
            blend_op(1, 1, FIVE_SIXTHS),
        ]
    } else if n == 3 {
        seq![
            blend_op(0, 2, QUARTER),
            blend_op(2, 0, QUARTER),
            blend_op(2, 1, THREE_QUARTERS),
            blend_op(1, 2, THREE_QUARTERS),
            blend_op(2, 2, WHOLE),
        ]
    } else if n == 4 {
        seq![
            blend_op(0, 3, QUARTER),
            blend_op(3, 0, QUARTER),
            blend_op(3, 1, THREE_QUARTERS),
            blend_op(1, 3, THREE_QUARTERS),
            blend_op(2, 2, THIRD),
            blend_op(3, 2, WHOLE),
            blend_op(2, 3, WHOLE),
            blend_op(3, 3, WHOLE),
        ]
    } else if n == 5 {
        seq![
            blend_op(0, 4, QUARTER),
            blend_op(2, 3, QUARTER),
            blend_op(1, 4, THREE_QUARTERS),
            blend_op(4, 0, QUARTER),
            blend_op(3, 2, QUARTER),
            blend_op(4, 1, THREE_QUARTERS),
            blend_op(3, 3, TWO_THIRDS),
            blend_op(2, 4, WHOLE),
            blend_op(3, 4, WHOLE),
            blend_op(4, 4, WHOLE),
            blend_op(4, 2, WHOLE),
            blend_op(4, 3, WHOLE),
        ]
    } else {
        seq![
            blend_op(0, 5, QUARTER),
            blend_op(2, 4, QUARTER),
            blend_op(1, 5, THREE_QUARTERS),
            blend_op(3, 4, THREE_QUARTERS),
            blend_op(5, 0, QUARTER),
            blend_op(4, 2, QUARTER),
            blend_op(5, 1, THREE_QUARTERS),
            blend_op(4, 3, THREE_QUARTERS),
            blend_op(2, 5, WHOLE),
            blend_op(3, 5, WHOLE),
            blend_op(4, 5, WHOLE),
            blend_op(5, 5, WHOLE),
            blend_op(4, 4, WHOLE),
            blend_op(5, 4, WHOLE),
            blend_op(5, 2, WHOLE),
            blend_op(5, 3, WHOLE),
        ]
    }
}

fn steep_and_shallow_ops(n: usize) -> (r: Vec<BlendOp>)
    requires
        2 <= n <= 6,
    ensures
        r@ == steep_and_shallow_pattern(n as int),
{
    if n == 2 {
        vec![
            make_op(0, 1, QUARTER),
            make_op(1, 0, QUARTER),
            make_op(1, 1, FIVE_SIXTHS),
        ]
    } else if n == 3 {
        vec![
            make_op(0, 2, QUARTER),
            make_op(2, 0, QUARTER),
            make_op(2, 1, THREE_QUARTERS),
            make_op(1, 2, THREE_QUARTERS),
            make_op(2, 2, WHOLE),
        ]
    } else if n == 4 {
        vec![
            make_op(0, 3, QUARTER),
            make_op(3, 0, QUARTER),
            make_op(3, 1, THREE_QUARTERS),
            make_op(1, 3, THREE_QUARTERS),
            make_op(2, 2, THIRD),
            make_op(3, 2, WHOLE),
            make_op(2, 3, WHOLE),
            make_op(3, 3, WHOLE),
        ]
    } else if n == 5 {
        vec![
            make_op(0, 4, QUARTER),
            make_op(2, 3, QUARTER),
            make_op(1, 4, THREE_QUARTERS),
            make_op(4, 0, QUARTER),
            make_op(3, 2, QUARTER),
            make_op(4, 1, THREE_QUARTERS),
            make_op(3, 3, TWO_THIRDS),
            make_op(2, 4, WHOLE),
            make_op(3, 4, WHOLE),
            make_op(4, 4, WHOLE),
            make_op(4, 2, WHOLE),
            make_op(4, 3, WHOLE),
        ]
    } else {
        vec![
            make_op(0, 5, QUARTER),
            make_op(2, 4, QUARTER),
            make_op(1, 5, THREE_QUARTERS),
            make_op(3, 4, THREE_QUARTERS),
            make_op(5, 0, QUARTER),
            make_op(4, 2, QUARTER),
            make_op(5, 1, THREE_QUARTERS),
            make_op(4, 3, THREE_QUARTERS),
            make_op(2, 5, WHOLE),
            make_op(3, 5, WHOLE),
            make_op(4, 5, WHOLE),
            make_op(5, 5, WHOLE),
            make_op(4, 4, WHOLE),
            make_op(5, 4, WHOLE),
            make_op(5, 2, WHOLE),
            make_op(5, 3, WHOLE),
        ]
    }
}

/// A diagonal edge.
pub open spec fn diagonal_pattern(n: int) -> Seq<BlendOp> {
    if n == 2 {
        seq![
            blend_op(1, 1, HALF),
        ]
    } else if n == 3 {
        seq![
            blend_op(1, 2, EIGHTH),
            blend_op(2, 1, EIGHTH),
            blend_op(2, 2, SEVEN_EIGHTHS),
        ]
    } else if n == 4 {
        seq![
            blend_op(3, 2, HALF),
            blend_op(2, 3, HALF),
            blend_op(3, 3, WHOLE),
        ]
    } else if n == 5 {
        seq![
            blend_op(4, 2, EIGHTH),
            blend_op(3, 3, EIGHTH),
            blend_op(2, 4, EIGHTH),
            blend_op(4, 3, SEVEN_EIGHTHS),
            blend_op(3, 4, SEVEN_EIGHTHS),
            blend_op(4, 4, WHOLE),
        ]
    } else {
        seq![
            blend_op(5, 3, HALF),
            blend_op(4, 4, HALF),
            blend_op(3, 5, HALF),
            blend_op(4, 5, WHOLE),
            blend_op(5, 4, WHOLE),
            blend_op(5, 5, WHOLE),
        ]
    }
}

fn diagonal_ops(n: usize) -> (r: Vec<BlendOp>)
    requires
        2 <= n <= 6,
    ensures
        r@ == diagonal_pattern(n as int),
{
    if n == 2 {
        vec![
            make_op(1, 1, HALF),
        ]
    } else if n == 3 {
        vec![
            make_op(1, 2, EIGHTH),
            make_op(2, 1, EIGHTH),
            make_op(2, 2, SEVEN_EIGHTHS),
        ]
    } else if n == 4 {
        vec![
            make_op(3, 2, HALF),
            make_op(2, 3, HALF),
            make_op(3, 3, WHOLE),
        ]
    } else if n == 5 {
        vec![
            make_op(4, 2, EIGHTH),
            make_op(3, 3, EIGHTH),
            make_op(2, 4, EIGHTH),
            make_op(4, 3, SEVEN_EIGHTHS),
            make_op(3, 4, SEVEN_EIGHTHS),
            make_op(4, 4, WHOLE),
        ]
    } else {
        vec![
            make_op(5, 3, HALF),
            make_op(4, 4, HALF),
            make_op(3, 5, HALF),
            make_op(4, 5, WHOLE),
            make_op(5, 4, WHOLE),
            make_op(5, 5, WHOLE),
        ]
    }
}

/// A rounded corner.
pub open spec fn corner_pattern(n: int) -> Seq<BlendOp> {
    if n == 2 {
        seq![
            blend_op(1, 1, W21),
        ]
    } else if n == 3 {
        seq![
            blend_op(2, 2, W45),
        ]
    } else if n == 4 {
        seq![
            blend_op(3, 3, W68),
            blend_op(3, 2, W09),
            blend_op(2, 3, W09),
        ]
    } else if n == 5 {
        seq![
            blend_op(4, 4, W86),
            blend_op(4, 3, W23),
            blend_op(3, 4, W23),
        ]
    } else {
        seq![
            blend_op(5, 5, W97),
            blend_op(5, 4, W42),
            blend_op(4, 5, W42),
            blend_op(5, 3, W06),
            blend_op(3, 5, W06),
        ]
    }
}

fn corner_ops(n: usize) -> (r: Vec<BlendOp>)
    requires
        2 <= n <= 6,
    ensures
        r@ == corner_pattern(n as int),
{
    if n == 2 {
        vec![
            make_op(1, 1, W21),
        ]
    } else if n == 3 {
        vec![
            make_op(2, 2, W45),
        ]
    } else if n == 4 {
        vec![
            make_op(3, 3, W68),
            make_op(3, 2, W09),
            make_op(2, 3, W09),
        ]
    } else if n == 5 {
        vec![
            make_op(4, 4, W86),
            make_op(4, 3, W23),
            make_op(3, 4, W23),
        ]
    } else {
        vec![
            make_op(5, 5, W97),
            make_op(5, 4, W42),
            make_op(4, 5, W42),
            make_op(5, 3, W06),
            make_op(3, 5, W06),
        ]
    }
}

/// The output pixels of a pattern. A steep edge is a shallow one with rows and
/// columns exchanged.
pub open spec fn pattern_ops(p: Pattern, n: int) -> Seq<BlendOp> {
    match p {
        Pattern::Shallow => shallow_pattern(n),
        Pattern::Steep => transposed(shallow_pattern(n)),
        Pattern::SteepAndShallow => steep_and_shallow_pattern(n),
        Pattern::Diagonal => diagonal_pattern(n),
        Pattern::Corner => corner_pattern(n),
    }
}

fn steep_ops(n: usize) -> (r: Vec<BlendOp>)
    requires
        2 <= n <= 6,
    ensures
        r@ == transposed(shallow_pattern(n as int)),
{
    let ops: Vec<BlendOp> = shallow_ops(n);
    let mut r: Vec<BlendOp> = Vec::new();
    let mut i: usize = 0;
    while i < ops.len()
        invariant
            i <= ops@.len(),
            r@ == transposed(ops@.take(i as int)),
        decreases ops@.len() - i,
    {
        let o: BlendOp = ops[i];
        r.push(BlendOp { row: o.col, col: o.row, weight: o.weight });
        i += 1;
        assert(r@ =~= transposed(ops@.take(i as int)));
    }
    assert(ops@.take(ops@.len() as int) =~= ops@);
    r
}

/// The output pixels of a pattern.
pub fn ops_of(p: Pattern, n: usize) -> (r: Vec<BlendOp>)
    requires
        2 <= n <= 6,
    ensures
        r@ == pattern_ops(p, n as int),
{
    match p {
        Pattern::Shallow => shallow_ops(n),
        Pattern::Steep => steep_ops(n),
        Pattern::SteepAndShallow => steep_and_shallow_ops(n),
        Pattern::Diagonal => diagonal_ops(n),
        Pattern::Corner => corner_ops(n),
    }
}

/// The operation stays inside the block.
pub open spec fn op_wf(o: BlendOp, n: int) -> bool {
    o.row < n && o.col < n && o.weight <= WHOLE
}

/// Every pattern stays inside its block.
pub proof fn law_patterns_fit(p: Pattern, n: int, i: int)
    requires
        2 <= n <= 6,
        0 <= i < pattern_ops(p, n).len(),
    ensures
        op_wf(pattern_ops(p, n)[i], n),
{
}

// ── Blocks ──

/// Position in the block that a rotation sees where rotation 0 sees a row and
/// a column.
pub open spec fn rotated_place(row: int, col: int, n: int, rotation: int) -> int {
    let r = if turn_y(rotation) > 0 {
        row
    } else {
        n - 1 - row
    };
    let c = if turn_x(rotation) > 0 {
        col
    } else {
        n - 1 - col
    };
    cell(c, r, n)
}

/// A block after the first `m` operations of a pattern.
pub open spec fn painted(
    b: Seq<u32>,
    n: int,
    rotation: int,
    center: u32,
    color: u32,
    ops: Seq<BlendOp>,
    m: nat,
) -> Seq<u32>
    decreases m,
{
    if m == 0 {
        b
    } else {
        let o = ops[m - 1];
        painted(b, n, rotation, center, color, ops, (m - 1) as nat).update(
            rotated_place(o.row as int, o.col as int, n, rotation),
            if o.weight >= WHOLE {
                color
            } else {
                weighted(center, color, o.weight as int)
            },
        )
    }
}

/// Map a row and a column of a pattern to the block for a rotation.
pub fn rotate_coord(row: usize, col: usize, n: usize, rotation: u8) -> (r: (usize, usize))
    requires
        row < n,
        col < n,
        rotation < 4,
    ensures
        r.0 < n,
        r.1 < n,
        cell(r.1 as int, r.0 as int, n as int) == rotated_place(
            row as int,
            col as int,
            n as int,
            rotation as int,
        ),
{
    let m: usize = n - 1;
    match rotation {
        0 => (row, col),
        1 => (row, m - col),
        2 => (m - row, m - col),
        _ => (m - row, col),
    }
}

fn apply_blend(
    b: &mut Vec<u32>,
    n: usize,
    rotation: u8,
    center: u32,
    color: u32,
    ops: &Vec<BlendOp>,
)
    requires
        2 <= n <= 6,
        rotation < 4,
        old(b)@.len() == n * n,
        forall|i: int| 0 <= i < ops@.len() ==> op_wf(#[trigger] ops@[i], n as int),
    ensures
        final(b)@ == painted(
            old(b)@,
            n as int,
            rotation as int,
            center,
            color,
            ops@,
            ops@.len(),
        ),
        final(b)@.len() == n * n,
{
    let ghost before = b@;
    assert(n * n <= 36) by (nonlinear_arith)
        requires
            2 <= n <= 6,
    ;
    let mut i: usize = 0;
    while i < ops.len()
        invariant
            i <= ops@.len(),
            2 <= n <= 6,
            n * n <= 36,
            rotation < 4,
            b@.len() == n * n,
            forall|i: int| 0 <= i < ops@.len() ==> op_wf(#[trigger] ops@[i], n as int),
            b@ == painted(before, n as int, rotation as int, center, color, ops@, i as nat),
        decreases ops@.len() - i,
    {
        let o: BlendOp = ops[i];
        assert(op_wf(ops@[i as int], n as int));
        let (r, c) = rotate_coord(o.row as usize, o.col as usize, n, rotation);
        proof {
            lemma_cell(c as int, r as int, n as int, n as int);
        }
        let at: usize = r * n + c;
        if o.weight >= WHOLE {
            b[at] = color;
        } else {
            b[at] = weighted_mix(center, color, o.weight as u64);
        }
        i += 1;
    }
}

/// The color that a corner is blended with: that of the nearer neighbor.
pub open spec fn target(
    px: Seq<u32>,
    w: int,
    h: int,
    x: int,
    y: int,
    rotation: int,
    t: BlendTests,
) -> u32 {
    if t.f_nearer {
        pixel_clamped(px, w, h, x + turn_x(rotation), y)
    } else {
        pixel_clamped(px, w, h, x, y + turn_y(rotation))
    }
}

/// The output block of a pixel after the first `m` rotations.
pub open spec fn block_after(
    px: Seq<u32>,
    w: int,
    h: int,
    x: int,
    y: int,
    info: u8,
    t: Seq<BlendTests>,
    n: int,
    m: nat,
) -> Seq<u32>
    decreases m,
{
    let center = pixel_clamped(px, w, h, x, y);
    if m == 0 {
        Seq::new((n * n) as nat, |i: int| center)
    } else {
        let k = m - 1;
        let b = block_after(px, w, h, x, y, info, t, n, (m - 1) as nat);
        let turn = turned(info, k as nat);
        if edge_of(turn, 2) == EDGE_NONE {
            b
        } else {
            let ops = pattern_ops(pattern_of(turn, t[k]), n);
            painted(b, n, k, center, target(px, w, h, x, y, k, t[k]), ops, ops.len())
        }
    }
}

/// What the comparisons for a picture came out as: for its junctions and for
/// the corners of its pixels, in the order of the rotations.
pub struct Tests<'a> {
    pub junctions: &'a [JunctionTests],
    pub corners: &'a [[BlendTests; 4]],
}

/// The output block of the pixel at `(x, y)`.
pub open spec fn block_of(
    px: Seq<u32>,
    w: int,
    h: int,
    jt: Seq<JunctionTests>,
    ct: Seq<[BlendTests; 4]>,
    n: int,
) -> spec_fn(int, int) -> Seq<u32> {
    |x: int, y: int|
        block_after(
            px,
            w,
            h,
            x,
            y,
            pixel_edges(px, w, h, jt, x, y),
            ct[cell(x, y, w)]@,
            n,
            4,
        )
}

pub open spec fn scalable(
    px: Seq<u32>,
    w: int,
    h: int,
    jt: Seq<JunctionTests>,
    ct: Seq<[BlendTests; 4]>,
    n: int,
) -> bool {
    &&& picture_fits(px, w, h)
    &&& junctions_wf(w, h, jt)
    &&& ct.len() == w * h
    &&& (n * n * w) * h <= usize::MAX
}

fn scale_block(
    src: &[u32],
    w: usize,
    h: usize,
    x: usize,
    y: usize,
    info: u8,
    t: &[BlendTests; 4],
    n: usize,
) -> (b: Vec<u32>)
    requires
        picture_wf(src@, w as int, h as int),
        x < w,
        y < h,
        2 <= n <= 6,
    ensures
        b@ == block_after(src@, w as int, h as int, x as int, y as int, info, t@, n as int, 4),
        b@.len() == n * n,
{
    let center: u32 = get(src, w, h, x as i64, y as i64);
    assert(n * n <= 36) by (nonlinear_arith)
        requires
            2 <= n <= 6,
    ;
    let size: usize = n * n;
    let mut b: Vec<u32> = Vec::new();
    while b.len() < size
        invariant
            b@.len() <= size,
            forall|i: int| 0 <= i < b@.len() ==> #[trigger] b@[i] == center,
        decreases size - b@.len(),
    {
        b.push(center);
    }
    assert(b@ =~= block_after(
        src@,
        w as int,
        h as int,
        x as int,
        y as int,
        info,
        t@,
        n as int,
        0,
    ));
    let mut k: u8 = 0;
    while k < 4
        invariant
            k <= 4,
            2 <= n <= 6,
            picture_wf(src@, w as int, h as int),
            x < w,
            y < h,
            center == pixel_clamped(src@, w as int, h as int, x as int, y as int),
            b@ == block_after(
                src@,
                w as int,
                h as int,
                x as int,
                y as int,
                info,
                t@,
                n as int,
                k as nat,
            ),
            b@.len() == n * n,
        decreases 4 - k,
    {
        let turn: u8 = turn_edges(info, k);
        if read_edge(turn, 2) != EDGE_NONE {
            let tests: BlendTests = t[k as usize];
            let cp: CornerPixels = corner_pixels(src, w, h, x, y, k);
            let color: u32 = if tests.f_nearer {
                cp.f
            } else {
                cp.h
            };
            let pattern: Pattern = if should_blend(turn, &tests) {
                classify_edge(&tests)
            } else {
                Pattern::Corner
            };
            let ops: Vec<BlendOp> = ops_of(pattern, n);
            assert forall|i: int| 0 <= i < ops@.len() implies op_wf(#[trigger] ops@[i], n as int) by {
                law_patterns_fit(pattern, n as int, i);
            }
            apply_blend(&mut b, n, k, center, color, &ops);
        }
        k += 1;
    }
    b
}

/// Scale a picture, given what the comparisons came out as.
pub fn scale(src: &[u32], w: usize, h: usize, mode: XbrzScale, tests: &Tests) -> (dst: Vec<u32>)
    requires
        scalable(src@, w as int, h as int, tests.junctions@, tests.corners@, mode.times()),
    ensures
        dst@ == tiled(
            block_of(
                src@,
                w as int,
                h as int,
                tests.junctions@,
                tests.corners@,
                mode.times(),
            ),
            w as int,
            h as int,
            mode.times(),
        ),
{
    let n: usize = mode.factor() as usize;
    let jt = tests.junctions;
    let ct = tests.corners;
    let ghost f = block_of(src@, w as int, h as int, jt@, ct@, n as int);
    if w == 0 || h == 0 {
        proof {
            lemma_tiled_empty(f, w as int, h as int, n as int);
        }
        return Vec::new();
    }
    assert(n * n * w <= (n * n * w) * h) by (nonlinear_arith)
        requires
            2 <= n,
            1 <= w,
            1 <= h,
    ;
    let _n: usize = ct.len();
    let info: Vec<u8> = analyze_edges(src, w, h, jt);
    let mut dst: Vec<u32> = Vec::new();
    let mut y: usize = 0;
    assert(dst@ =~= tiled(f, w as int, 0, n as int));
    while y < h
        invariant
            y <= h,
            1 <= w,
            2 <= n <= 6,
            scalable(src@, w as int, h as int, jt@, ct@, n as int),
            n * n * w <= usize::MAX,
            ct@.len() <= usize::MAX,
            info@ == Seq::new(
                (w * h) as nat,
                |i: int| pixel_edges(src@, w as int, h as int, jt@, i % (w as int), i / (w as int)),
            ),
            f == block_of(src@, w as int, h as int, jt@, ct@, n as int),
            dst@ == tiled(f, w as int, y as int, n as int),
        decreases h - y,
    {
        let mut row: Vec<Vec<u32>> = Vec::new();
        let mut x: usize = 0;
        while x < w
            invariant
                x <= w,
                y < h,
                2 <= n <= 6,
                scalable(src@, w as int, h as int, jt@, ct@, n as int),
                ct@.len() <= usize::MAX,
                info@ == Seq::new(
                    (w * h) as nat,
                    |i: int|
                        pixel_edges(src@, w as int, h as int, jt@, i % (w as int), i / (w as int)),
                ),
                f == block_of(src@, w as int, h as int, jt@, ct@, n as int),
                row@.len() == x,
                forall|i: int|
                    0 <= i < x ==> (#[trigger] row@[i])@ == f(i, y as int) && row@[i]@.len() == n
                        * n,
            decreases w - x,
        {
            proof {
                lemma_cell(x as int, y as int, w as int, h as int);
            }
            let at: usize = y * w + x;
            let b: Vec<u32> = scale_block(src, w, h, x, y, info[at], &ct[at], n);
            row.push(b);
            x += 1;
        }
        proof {
            lemma_tiled_grows(f, row@, w as int, y as int, n as int);
        }
        emit_row(&mut dst, &row, n);
        y += 1;
    }
    dst
}

/// A pixel without edges is only enlarged.
pub proof fn law_pixels_without_edges_are_enlarged(
    px: Seq<u32>,
    w: int,
    h: int,
    x: int,
    y: int,
    t: Seq<BlendTests>,
    n: int,
)
    ensures
        block_after(px, w, h, x, y, 0, t, n, 4) == Seq::new(
            (n * n) as nat,
            |i: int| pixel_clamped(px, w, h, x, y),
        ),
{
    reveal_with_fuel(block_after, 5);
    reveal_with_fuel(turned, 4);
}

/// A junction whose colors run straight, sideways or down, has no edges.
pub proof fn law_straight_junctions_have_no_edges(
    f: u32,
    g: u32,
    j: u32,
    k: u32,
    t: JunctionTests,
    corner: int,
)
    requires
        (f == g && j == k) || (f == j && g == k),
    ensures
        junction_edge(f, g, j, k, t, corner) == EDGE_NONE,
{
}

} // verus!
