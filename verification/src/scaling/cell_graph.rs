//! Control points of the cell boundaries of a resolved similarity graph.
//!
//! Every corner of the pixel grid has two slots for control points. Where two
//! boundaries run past a corner (beside a diagonal, at a crossing, or at a
//! T-junction with its stem) each has its own slot. Directions are numbered
//! 0 north, 1 east, 2 south, 3 west; positions are in eighths of a pixel.

use vstd::prelude::*;

use crate::grid::{cell, lemma_cell, lemma_position};
use crate::scaling::vectorize::{entry, lemma_strides_fit, stride};

verus! {

/// Flag bits. The two lowest bits tell junctions (1) from interior points (2).
pub const IS_CORNER: u32 = 16;
pub const IS_TJUNCTION: u32 = 32;
pub const IS_CROSSING: u32 = 64;
/// The chain ends here.
pub const IS_ENDPOINT: u32 = 128;

/// A control point: its position, its neighbors along the chain (-1 for none)
/// and the directions towards them. A flag of 0 marks an unused slot.
#[derive(Clone, Copy)]
pub struct ControlPoint {
    pub x8: i64,
    pub y8: i64,
    pub prev: i32,
    pub next: i32,
    pub prev_dir: i32,
    pub next_dir: i32,
    pub flag: u32,
}

/// A graph with the extent of its picture.
pub struct CellView {
    pub g: Seq<u32>,
    pub w: int,
    pub h: int,
}

impl CellView {
    pub open spec fn wf(self) -> bool {
        &&& 0 <= self.w
        &&& 0 <= self.h
        &&& self.g.len() == stride(self.w) * stride(self.h)
        &&& 2 * ((self.w + 1) * (self.h + 1)) <= i32::MAX
    }
}

pub open spec fn clamped(v: int, lo: int, hi: int) -> int {
    if v < lo {
        lo
    } else if v > hi {
        hi
    } else {
        v
    }
}

/// Graph entry, with coordinates clamped into the graph.
pub open spec fn at(v: CellView, gx: int, gy: int) -> u32 {
    entry(v.g, v.w, clamped(gx, 0, 2 * v.w), clamped(gy, 0, 2 * v.h))
}

pub open spec fn dir_x(d: int) -> int {
    if d == 1 {
        1
    } else if d == 3 {
        -1
    } else {
        0
    }
}

pub open spec fn dir_y(d: int) -> int {
    if d == 0 {
        -1
    } else if d == 2 {
        1
    } else {
        0
    }
}

pub open spec fn opposite(d: int) -> int {
    (d + 2) % 4
}

/// A boundary leaves the corner in direction `d`.
pub open spec fn boundary(v: CellView, cx: int, cy: int, d: int) -> bool {
    at(v, 2 * cx + dir_x(d), 2 * cy + dir_y(d)) == 0
}

pub open spec fn interior(v: CellView, cx: int, cy: int) -> bool {
    0 < cx < v.w && 0 < cy < v.h
}

pub open spec fn on_grid(v: CellView, cx: int, cy: int) -> bool {
    0 <= cx <= v.w && 0 <= cy <= v.h
}

/// Number of boundaries at a corner.
#[verifier::opaque]
pub open spec fn boundary_count(v: CellView, cx: int, cy: int) -> int {
    let b = |d: int|
        if boundary(v, cx, cy, d) {
            1int
        } else {
            0int
        };
    b(0) + b(1) + b(2) + b(3)
}

/// The single diagonal at a corner: 1 from top left to bottom right, 2 from
/// top right to bottom left, 0 for none or both.
#[verifier::opaque]
pub open spec fn diagonal(v: CellView, cx: int, cy: int) -> int {
    let e = at(v, 2 * cx, 2 * cy);
    let main = e % 2 == 1;
    let anti = e / 2 % 2 == 1;
    if main && !anti {
        1
    } else if anti && !main {
        2
    } else {
        0
    }
}

// ── T-junctions ──

/// Color of a pixel, with coordinates clamped into the picture.
pub open spec fn color(v: CellView, x: int, y: int) -> u32 {
    at(v, 2 * clamped(x, 0, v.w - 1) + 1, 2 * clamped(y, 0, v.h - 1) + 1)
}

/// Colors of the two pixels that a boundary separates.
pub open spec fn boundary_colors(v: CellView, cx: int, cy: int, d: int) -> (u32, u32) {
    if d == 0 {
        (color(v, cx - 1, cy - 1), color(v, cx, cy - 1))
    } else if d == 1 {
        (color(v, cx, cy - 1), color(v, cx, cy))
    } else if d == 2 {
        (color(v, cx, cy), color(v, cx - 1, cy))
    } else {
        (color(v, cx - 1, cy), color(v, cx - 1, cy - 1))
    }
}

pub open spec fn red(c: u32) -> int {
    c as int / 0x1_0000 % 0x100
}

pub open spec fn green(c: u32) -> int {
    c as int / 0x100 % 0x100
}

pub open spec fn blue(c: u32) -> int {
    c as int % 0x100
}

/// Two colors are so similar that their boundary is mere shading: their YUV
/// distance is at most 100/255. The components are scaled by 1000 (luma) and
/// by a million (chroma), so that all numbers are whole.
pub open spec fn is_shading(a: u32, b: u32) -> bool {
    let dr = red(a) - red(b);
    let dg = green(a) - green(b);
    let db = blue(a) - blue(b);
    let y = 299 * dr + 587 * dg + 114 * db;
    let u = 493 * (1000 * db - y);
    let v = 877 * (1000 * dr - y);
    a == b || 1_000_000 * (y * y) + u * u + v * v <= 10_000_000_000_000_000
}

pub open spec fn shading_boundary(v: CellView, cx: int, cy: int, d: int) -> bool {
    let (a, b) = boundary_colors(v, cx, cy, d);
    is_shading(a, b)
}

/// The direction without a boundary at a corner with three.
pub open spec fn missing_direction(v: CellView, cx: int, cy: int) -> int {
    if !boundary(v, cx, cy, 0) {
        0
    } else if !boundary(v, cx, cy, 1) {
        1
    } else if !boundary(v, cx, cy, 2) {
        2
    } else {
        3
    }
}

/// The `i`-th of the three directions other than `m`.
pub open spec fn other_direction(m: int, i: int) -> int {
    if i < m {
        i
    } else {
        i + 1
    }
}

/// The two boundaries that continue into each other at a T-junction: the two
/// contours if the third is shading, else the two that face each other.
#[verifier::opaque]
pub open spec fn through_pair(v: CellView, cx: int, cy: int) -> (int, int) {
    let m = missing_direction(v, cx, cy);
    let d0 = other_direction(m, 0);
    let d1 = other_direction(m, 1);
    let d2 = other_direction(m, 2);
    let s0 = shading_boundary(v, cx, cy, d0);
    let s1 = shading_boundary(v, cx, cy, d1);
    let s2 = shading_boundary(v, cx, cy, d2);
    if s0 && !s1 && !s2 {
        (d1, d2)
    } else if !s0 && s1 && !s2 {
        (d0, d2)
    } else if !s0 && !s1 && s2 {
        (d0, d1)
    } else if m % 2 == 0 {
        (1, 3)
    } else {
        (0, 2)
    }
}

/// The boundary of a T-junction that ends there.
pub open spec fn stem_direction(v: CellView, cx: int, cy: int) -> int {
    let m = missing_direction(v, cx, cy);
    let (a, b) = through_pair(v, cx, cy);
    6 - m - a - b
}

// ── Slots ──

/// Slot of the control point at a corner to which the boundary in direction
/// `d` belongs.
#[verifier::opaque]
pub open spec fn owner(v: CellView, cx: int, cy: int, d: int) -> int {
    let diag = diagonal(v, cx, cy);
    let n = boundary_count(v, cx, cy);
    if !interior(v, cx, cy) {
        0
    } else if diag == 1 {
        if d == 2 || d == 3 {
            0
        } else {
            1
        }
    } else if diag == 2 {
        if d == 0 || d == 3 {
            0
        } else {
            1
        }
    } else if n == 4 {
        d % 2
    } else if n == 3 {
        let (a, b) = through_pair(v, cx, cy);
        if d == a || d == b {
            0
        } else {
            1
        }
    } else {
        0
    }
}

/// Index of a slot of a corner.
pub open spec fn slot_index(v: CellView, cx: int, cy: int, slot: int) -> int {
    2 * cell(cx, cy, v.w + 1) + slot
}

/// Index of the control point at the far end of the boundary in direction
/// `d`, or -1 beyond the grid.
#[verifier::opaque]
pub open spec fn far_index(v: CellView, cx: int, cy: int, d: int) -> int {
    let nx = cx + dir_x(d);
    let ny = cy + dir_y(d);
    if on_grid(v, nx, ny) {
        slot_index(v, nx, ny, owner(v, nx, ny, opposite(d)))
    } else {
        -1
    }
}

/// Position of a slot beside a diagonal, or of the corner itself.
pub open spec fn slot_position(diag: int, cx: int, cy: int, slot: int) -> (int, int) {
    if diag == 1 {
        if slot == 0 {
            (8 * cx - 2, 8 * cy + 2)
        } else {
            (8 * cx + 2, 8 * cy - 2)
        }
    } else if diag == 2 {
        if slot == 0 {
            (8 * cx - 2, 8 * cy - 2)
        } else {
            (8 * cx + 2, 8 * cy + 2)
        }
    } else {
        (8 * cx, 8 * cy)
    }
}

/// Position at the far end of the boundary in direction `d`, before any
/// correction.
pub open spec fn far_position(v: CellView, cx: int, cy: int, d: int) -> (int, int) {
    let nx = cx + dir_x(d);
    let ny = cy + dir_y(d);
    if interior(v, nx, ny) {
        slot_position(diagonal(v, nx, ny), nx, ny, owner(v, nx, ny, opposite(d)))
    } else {
        (8 * nx, 8 * ny)
    }
}

/// Two legs meet at one of the angles that make a sharp corner: the cosine is
/// within 0.01 of 0, or between -0.72 and -0.69, or between -0.33 and -0.30.
pub open spec fn is_sharp(ax: int, ay: int, bx: int, by: int) -> bool {
    let dot = ax * bx + ay * by;
    let len2 = (ax * ax + ay * ay) * (bx * bx + by * by);
    let s = 10_000 * (dot * dot);
    len2 != 0 && (s < len2 || (dot < 0 && 4761 * len2 < s < 5184 * len2) || (dot < 0 && 900 * len2
        < s < 1089 * len2))
}

/// The boundaries in directions `a` and `b` meet sharply at position `p`.
#[verifier::opaque]
pub open spec fn meets_sharply(
    v: CellView,
    cx: int,
    cy: int,
    p: (int, int),
    a: int,
    b: int,
) -> bool {
    let pa = far_position(v, cx, cy, a);
    let pb = far_position(v, cx, cy, b);
    is_sharp(pa.0 - p.0, pa.1 - p.1, pb.0 - p.0, pb.1 - p.1)
}

// ── Control points ──

pub open spec fn unused() -> ControlPoint {
    ControlPoint {
        x8: 0,
        y8: 0,
        prev: -1i32,
        next: -1i32,
        prev_dir: -1i32,
        next_dir: -1i32,
        flag: 0,
    }
}

/// A control point between the boundaries in directions `a` and `b` (-1 for
/// none). With an end missing it is an endpoint.
pub open spec fn point(
    v: CellView,
    cx: int,
    cy: int,
    p: (int, int),
    a: int,
    b: int,
    flag: u32,
) -> ControlPoint {
    let prev = if a >= 0 {
        far_index(v, cx, cy, a)
    } else {
        -1
    };
    let next = if b >= 0 {
        far_index(v, cx, cy, b)
    } else {
        -1
    };
    ControlPoint {
        x8: p.0 as i64,
        y8: p.1 as i64,
        prev: prev as i32,
        next: next as i32,
        prev_dir: a as i32,
        next_dir: b as i32,
        flag: if prev < 0 || next < 0 {
            flag | IS_ENDPOINT
        } else {
            flag
        },
    }
}

/// A slot beside a diagonal, between directions `a` and `b`.
pub open spec fn diagonal_point(
    v: CellView,
    cx: int,
    cy: int,
    slot: int,
    a: int,
    b: int,
) -> ControlPoint {
    let has_a = boundary(v, cx, cy, a);
    let has_b = boundary(v, cx, cy, b);
    let p = slot_position(diagonal(v, cx, cy), cx, cy, slot);
    if has_a && has_b {
        point(
            v,
            cx,
            cy,
            p,
            a,
            b,
            if meets_sharply(v, cx, cy, p, a, b) {
                2 | IS_CORNER
            } else {
                2
            },
        )
    } else if has_a {
        point(v, cx, cy, p, a, -1, 1)
    } else if has_b {
        point(v, cx, cy, p, -1, b, 1)
    } else {
        unused()
    }
}

pub open spec fn first_boundary(v: CellView, cx: int, cy: int) -> int {
    if boundary(v, cx, cy, 0) {
        0
    } else if boundary(v, cx, cy, 1) {
        1
    } else if boundary(v, cx, cy, 2) {
        2
    } else {
        3
    }
}

pub open spec fn last_boundary(v: CellView, cx: int, cy: int) -> int {
    if boundary(v, cx, cy, 3) {
        3
    } else if boundary(v, cx, cy, 2) {
        2
    } else if boundary(v, cx, cy, 1) {
        1
    } else {
        0
    }
}

/// Position of a T-junction: pulled an eighth towards each end of the chain
/// that passes through.
pub open spec fn tjunction_position(v: CellView, cx: int, cy: int) -> (int, int) {
    let (a, b) = through_pair(v, cx, cy);
    (8 * cx + dir_x(a) + dir_x(b), 8 * cy + dir_y(a) + dir_y(b))
}

/// A control point of a corner inside the grid.
pub open spec fn interior_point(v: CellView, cx: int, cy: int, slot: int) -> ControlPoint {
    let diag = diagonal(v, cx, cy);
    let n = boundary_count(v, cx, cy);
    let p = (8 * cx, 8 * cy);
    if diag == 1 {
        if slot == 0 {
            diagonal_point(v, cx, cy, 0, 2, 3)
        } else {
            diagonal_point(v, cx, cy, 1, 0, 1)
        }
    } else if diag == 2 {
        if slot == 0 {
            diagonal_point(v, cx, cy, 0, 0, 3)
        } else {
            diagonal_point(v, cx, cy, 1, 2, 1)
        }
    } else if n == 4 {
        if slot == 0 {
            point(v, cx, cy, p, 0, 2, 2 | IS_CROSSING)
        } else {
            point(v, cx, cy, p, 1, 3, 2 | IS_CROSSING)
        }
    } else if n == 3 {
        let (a, b) = through_pair(v, cx, cy);
        let tp = tjunction_position(v, cx, cy);
        if slot == 0 {
            point(v, cx, cy, tp, a, b, 2 | IS_TJUNCTION)
        } else {
            point(v, cx, cy, tp, stem_direction(v, cx, cy), -1, 1)
        }
    } else if n == 2 && slot == 0 {
        let a = first_boundary(v, cx, cy);
        let b = last_boundary(v, cx, cy);
        point(
            v,
            cx,
            cy,
            p,
            a,
            b,
            if meets_sharply(v, cx, cy, p, a, b) {
                2 | IS_CORNER
            } else {
                2
            },
        )
    } else if n == 1 && slot == 0 {
        point(v, cx, cy, p, first_boundary(v, cx, cy), -1, 1)
    } else {
        unused()
    }
}

/// Direction from a corner on the rim towards the inside.
pub open spec fn inward(v: CellView, cx: int, cy: int) -> int {
    if cy == v.h {
        0
    } else if cy == 0 {
        2
    } else if cx == v.w {
        3
    } else {
        1
    }
}

/// A boundary reaches the rim at this corner.
pub open spec fn rim_boundary(v: CellView, cx: int, cy: int) -> bool {
    ||| 0 < cx < v.w && cy == 0 && boundary(v, cx, cy, 2)
    ||| 0 < cx < v.w && cy == v.h && boundary(v, cx, cy, 0)
    ||| 0 < cy < v.h && cx == 0 && boundary(v, cx, cy, 1)
    ||| 0 < cy < v.h && cx == v.w && boundary(v, cx, cy, 3)
}

/// The control point of a corner on the rim.
pub open spec fn rim_point(v: CellView, cx: int, cy: int) -> ControlPoint {
    let d = inward(v, cx, cy);
    if !rim_boundary(v, cx, cy) {
        unused()
    } else if far_index(v, cx, cy, d) >= 0 {
        point(v, cx, cy, (8 * cx, 8 * cy), -1, d, 1)
    } else {
        point(v, cx, cy, (8 * cx, 8 * cy), -1, -1, 1)
    }
}

/// The control point in a slot of a corner.
#[verifier::opaque]
pub open spec fn corner_point(v: CellView, cx: int, cy: int, slot: int) -> ControlPoint {
    if interior(v, cx, cy) {
        interior_point(v, cx, cy, slot)
    } else if slot == 0 {
        rim_point(v, cx, cy)
    } else {
        unused()
    }
}

/// Number of slots.
pub open spec fn slot_count(v: CellView) -> int {
    2 * ((v.w + 1) * (v.h + 1))
}

/// All control points, two per corner, row by row.
pub open spec fn corner_points(v: CellView) -> Seq<ControlPoint> {
    Seq::new(
        slot_count(v) as nat,
        |k: int| corner_point(v, k / 2 % (v.w + 1), k / 2 / (v.w + 1), k % 2),
    )
}

// ── Linking of isolated points ──

/// A junction without neighbors.
pub open spec fn is_isolated(c: ControlPoint) -> bool {
    (c.flag == 1 || c.flag == 1 | IS_ENDPOINT) && c.prev < 0 && c.next < 0
}

/// Let the isolated predecessor of point `i` point back.
pub open spec fn prev_linked(s: Seq<ControlPoint>, i: int) -> Seq<ControlPoint> {
    let c = s[i];
    let j = c.prev as int;
    if c.flag != 0 && j >= 0 && is_isolated(s[j]) {
        s.update(
            j,
            ControlPoint {
                next: i as i32,
                next_dir: if c.prev_dir >= 0 {
                    opposite(c.prev_dir as int) as i32
                } else {
                    s[j].next_dir
                },
                ..s[j]
            },
        )
    } else {
        s
    }
}

/// Let the isolated successor `j` of point `i` point back.
pub open spec fn next_linked(s: Seq<ControlPoint>, i: int, j: int) -> Seq<ControlPoint> {
    let c = s[i];
    if c.flag != 0 && j >= 0 && is_isolated(s[j]) {
        s.update(
            j,
            ControlPoint {
                prev: i as i32,
                prev_dir: if c.next_dir >= 0 {
                    opposite(c.next_dir as int) as i32
                } else {
                    s[j].prev_dir
                },
                ..s[j]
            },
        )
    } else {
        s
    }
}

/// The points after the first `n` of them had their neighbors linked back.
pub open spec fn linked_back(s: Seq<ControlPoint>, n: nat) -> Seq<ControlPoint>
    decreases n,
{
    if n == 0 {
        s
    } else {
        let before = linked_back(s, (n - 1) as nat);
        next_linked(prev_linked(before, n - 1), n - 1, before[n - 1].next as int)
    }
}

// ── Executable counterparts ──

/// A graph with the extent of its picture.
pub struct CellSource<'a> {
    pub graph: &'a [u32],
    pub w: usize,
    pub h: usize,
}

impl<'a> View for CellSource<'a> {
    type V = CellView;

    open spec fn view(&self) -> CellView {
        CellView { g: self.graph@, w: self.w as int, h: self.h as int }
    }
}

fn exec_dir_x(d: i32) -> (r: i64)
    ensures
        r == dir_x(d as int),
        -1 <= r <= 1,
{
    if d == 1 {
        1
    } else if d == 3 {
        -1
    } else {
        0
    }
}

fn exec_dir_y(d: i32) -> (r: i64)
    ensures
        r == dir_y(d as int),
        -1 <= r <= 1,
{
    if d == 0 {
        -1
    } else if d == 2 {
        1
    } else {
        0
    }
}

fn exec_opposite(d: i32) -> (r: i32)
    requires
        0 <= d < 4,
    ensures
        r == opposite(d as int),
        0 <= r < 4,
{
    (d + 2) % 4
}

fn clamp(v: i64, hi: i64) -> (r: i64)
    requires
        0 <= hi,
    ensures
        r == clamped(v as int, 0, hi as int),
        0 <= r <= hi,
{
    if v < 0 {
        0
    } else if v > hi {
        hi
    } else {
        v
    }
}

/// The extents of a graph of admissible size are small.
proof fn lemma_extents(v: CellView)
    requires
        v.wf(),
    ensures
        v.w <= 0x3FFF_FFFF,
        v.h <= 0x3FFF_FFFF,
{
    let a = v.w + 1;
    let b = v.h + 1;
    assert(a <= a * b && b <= a * b) by (nonlinear_arith)
        requires
            1 <= a,
            1 <= b,
    ;
}

/// A sum of squares of bounded numbers is bounded.
proof fn lemma_square(x: int, b: int)
    requires
        -b <= x <= b,
    ensures
        0 <= x * x <= b * b,
{
    assert(0 <= x * x <= b * b) by (nonlinear_arith)
        requires
            -b <= x <= b,
    ;
}

proof fn lemma_product(x: int, y: int, a: int, b: int)
    requires
        -a <= x <= a,
        -b <= y <= b,
    ensures
        -(a * b) <= x * y <= a * b,
{
    assert(-(a * b) <= x * y <= a * b) by (nonlinear_arith)
        requires
            -a <= x <= a,
            -b <= y <= b,
    ;
}

/// True when the boundary between two colors is mere shading.
fn shading(a: u32, b: u32) -> (r: bool)
    ensures
        r == is_shading(a, b),
{
    if a == b {
        return true;
    }
    let dr: i64 = (a / 0x1_0000 % 0x100) as i64 - (b / 0x1_0000 % 0x100) as i64;
    let dg: i64 = (a / 0x100 % 0x100) as i64 - (b / 0x100 % 0x100) as i64;
    let db: i64 = (a % 0x100) as i64 - (b % 0x100) as i64;
    let y: i64 = 299 * dr + 587 * dg + 114 * db;
    let u: i64 = 493 * (1000 * db - y);
    let v: i64 = 877 * (1000 * dr - y);
    proof {
        lemma_square(y as int, 255_000);
        lemma_square(u as int, 251_430_000);
        lemma_square(v as int, 447_270_000);
    }
    1_000_000 * (y * y) + u * u + v * v <= 10_000_000_000_000_000
}

/// True when two short legs meet at one of the sharp angles.
fn sharp(ax: i64, ay: i64, bx: i64, by: i64) -> (r: bool)
    requires
        -100 <= ax <= 100,
        -100 <= ay <= 100,
        -100 <= bx <= 100,
        -100 <= by <= 100,
    ensures
        r == is_sharp(ax as int, ay as int, bx as int, by as int),
{
    proof {
        lemma_product(ax as int, bx as int, 100, 100);
        lemma_product(ay as int, by as int, 100, 100);
        lemma_square(ax as int, 100);
        lemma_square(ay as int, 100);
        lemma_square(bx as int, 100);
        lemma_square(by as int, 100);
    }
    let dot: i64 = ax * bx + ay * by;
    let a2: i64 = ax * ax + ay * ay;
    let b2: i64 = bx * bx + by * by;
    proof {
        lemma_square(dot as int, 20_000);
        lemma_product(a2 as int, b2 as int, 20_000, 20_000);
    }
    let len2: i64 = a2 * b2;
    let s: i64 = 10_000 * (dot * dot);
    len2 != 0 && (s < len2 || (dot < 0 && 4761 * len2 < s && s < 5184 * len2) || (dot < 0 && 900
        * len2 < s && s < 1089 * len2))
}

impl<'a> CellSource<'a> {
    fn entry(&self, gx: i64, gy: i64) -> (e: u32)
        requires
            self@.wf(),
        ensures
            e == at(self@, gx as int, gy as int),
    {
        let _n: usize = self.graph.len();
        proof {
            lemma_extents(self@);
            lemma_strides_fit(self@.w, self@.h, usize::MAX as int);
        }
        let x: usize = clamp(gx, 2 * (self.w as i64)) as usize;
        let y: usize = clamp(gy, 2 * (self.h as i64)) as usize;
        proof {
            lemma_cell(x as int, y as int, stride(self@.w), stride(self@.h));
        }
        let s: usize = 2 * self.w + 1;
        self.graph[y * s + x]
    }

    fn has_boundary(&self, cx: i64, cy: i64, d: i32) -> (r: bool)
        requires
            self@.wf(),
            -1 <= cx <= 0x4000_0000,
            -1 <= cy <= 0x4000_0000,
        ensures
            r == boundary(self@, cx as int, cy as int, d as int),
    {
        self.entry(2 * cx + exec_dir_x(d), 2 * cy + exec_dir_y(d)) == 0
    }

    fn is_interior(&self, cx: i64, cy: i64) -> (r: bool)
        requires
            self@.wf(),
        ensures
            r == interior(self@, cx as int, cy as int),
    {
        proof {
            lemma_extents(self@);
            lemma_slot_count(self@);
        }
        0 < cx && cx < self.w as i64 && 0 < cy && cy < self.h as i64
    }

    fn count(&self, cx: i64, cy: i64) -> (n: i32)
        requires
            self@.wf(),
            -1 <= cx <= 0x4000_0000,
            -1 <= cy <= 0x4000_0000,
        ensures
            n == boundary_count(self@, cx as int, cy as int),
    {
        reveal(boundary_count);
        let b0: i32 = if self.has_boundary(cx, cy, 0) {
            1
        } else {
            0
        };
        let b1: i32 = if self.has_boundary(cx, cy, 1) {
            1
        } else {
            0
        };
        let b2: i32 = if self.has_boundary(cx, cy, 2) {
            1
        } else {
            0
        };
        let b3: i32 = if self.has_boundary(cx, cy, 3) {
            1
        } else {
            0
        };
        b0 + b1 + b2 + b3
    }

    fn diag(&self, cx: i64, cy: i64) -> (r: i32)
        requires
            self@.wf(),
            -1 <= cx <= 0x4000_0000,
            -1 <= cy <= 0x4000_0000,
        ensures
            r == diagonal(self@, cx as int, cy as int),
            0 <= r <= 2,
    {
        reveal(diagonal);
        let e: u32 = self.entry(2 * cx, 2 * cy);
        let main: bool = e % 2 == 1;
        let anti: bool = e / 2 % 2 == 1;
        if main && !anti {
            1
        } else if anti && !main {
            2
        } else {
            0
        }
    }

    fn px_color(&self, x: i64, y: i64) -> (c: u32)
        requires
            self@.wf(),
            1 <= self.w,
            1 <= self.h,
        ensures
            c == color(self@, x as int, y as int),
    {
        proof {
            lemma_extents(self@);
            lemma_slot_count(self@);
        }
        let px: i64 = clamp(x, self.w as i64 - 1);
        let py: i64 = clamp(y, self.h as i64 - 1);
        self.entry(2 * px + 1, 2 * py + 1)
    }

    fn is_shading_boundary(&self, cx: i64, cy: i64, d: i32) -> (r: bool)
        requires
            self@.wf(),
            1 <= self.w,
            1 <= self.h,
            0 <= cx <= 0x4000_0000,
            0 <= cy <= 0x4000_0000,
            0 <= d < 4,
        ensures
            r == shading_boundary(self@, cx as int, cy as int, d as int),
    {
        match d {
            0 => shading(self.px_color(cx - 1, cy - 1), self.px_color(cx, cy - 1)),
            1 => shading(self.px_color(cx, cy - 1), self.px_color(cx, cy)),
            2 => shading(self.px_color(cx, cy), self.px_color(cx - 1, cy)),
            _ => shading(self.px_color(cx - 1, cy), self.px_color(cx - 1, cy - 1)),
        }
    }

    fn missing(&self, cx: i64, cy: i64) -> (m: i32)
        requires
            self@.wf(),
            0 <= cx <= 0x4000_0000,
            0 <= cy <= 0x4000_0000,
        ensures
            m == missing_direction(self@, cx as int, cy as int),
            0 <= m < 4,
    {
        if !self.has_boundary(cx, cy, 0) {
            0
        } else if !self.has_boundary(cx, cy, 1) {
            1
        } else if !self.has_boundary(cx, cy, 2) {
            2
        } else {
            3
        }
    }

    /// The two boundaries that continue into each other at a T-junction.
    fn select_tjunction_pair(&self, cx: i64, cy: i64) -> (r: (i32, i32))
        requires
            self@.wf(),
            1 <= self.w,
            1 <= self.h,
            0 <= cx <= 0x4000_0000,
            0 <= cy <= 0x4000_0000,
        ensures
            r.0 == through_pair(self@, cx as int, cy as int).0,
            r.1 == through_pair(self@, cx as int, cy as int).1,
            0 <= r.0 < r.1 < 4,
    {
        reveal(through_pair);
        let m: i32 = self.missing(cx, cy);
        let d0: i32 = if 0 < m {
            0
        } else {
            1
        };
        let d1: i32 = if 1 < m {
            1
        } else {
            2
        };
        let d2: i32 = if 2 < m {
            2
        } else {
            3
        };
        let s0: bool = self.is_shading_boundary(cx, cy, d0);
        let s1: bool = self.is_shading_boundary(cx, cy, d1);
        let s2: bool = self.is_shading_boundary(cx, cy, d2);
        if s0 && !s1 && !s2 {
            (d1, d2)
        } else if !s0 && s1 && !s2 {
            (d0, d2)
        } else if !s0 && !s1 && s2 {
            (d0, d1)
        } else if m % 2 == 0 {
            (1, 3)
        } else {
            (0, 2)
        }
    }

    fn owner_slot(&self, cx: i64, cy: i64, d: i32) -> (r: i32)
        requires
            self@.wf(),
            on_grid(self@, cx as int, cy as int),
            0 <= d < 4,
        ensures
            r == owner(self@, cx as int, cy as int, d as int),
            0 <= r <= 1,
    {
        reveal(owner);
        proof {
            lemma_extents(self@);
            lemma_slot_count(self@);
        }
        if !self.is_interior(cx, cy) {
            return 0;
        }
        let diag: i32 = self.diag(cx, cy);
        if diag == 1 {
            if d == 2 || d == 3 {
                0
            } else {
                1
            }
        } else if diag == 2 {
            if d == 0 || d == 3 {
                0
            } else {
                1
            }
        } else {
            let n: i32 = self.count(cx, cy);
            if n == 4 {
                d % 2
            } else if n == 3 {
                let (a, b) = self.select_tjunction_pair(cx, cy);
                if d == a || d == b {
                    0
                } else {
                    1
                }
            } else {
                0
            }
        }
    }

    /// Index of the control point at the far end of a boundary.
    fn nbr_cp_idx(&self, cx: i64, cy: i64, d: i32) -> (r: i32)
        requires
            self@.wf(),
            on_grid(self@, cx as int, cy as int),
            0 <= d < 4,
        ensures
            r == far_index(self@, cx as int, cy as int, d as int),
            -1 <= r < slot_count(self@),
    {
        reveal(far_index);
        proof {
            lemma_extents(self@);
            lemma_slot_count(self@);
        }
        let nx: i64 = cx + exec_dir_x(d);
        let ny: i64 = cy + exec_dir_y(d);
        if nx < 0 || ny < 0 || nx > self.w as i64 || ny > self.h as i64 {
            return -1;
        }
        let slot: i32 = self.owner_slot(nx, ny, exec_opposite(d));
        proof {
            lemma_cell(nx as int, ny as int, self@.w + 1, self@.h + 1);
        }
        let i: i64 = ny * (self.w as i64 + 1) + nx;
        (2 * i) as i32 + slot
    }

    /// Position at the far end of a boundary.
    fn neighbor_cp_pos(&self, cx: i64, cy: i64, d: i32) -> (r: (i64, i64))
        requires
            self@.wf(),
            interior(self@, cx as int, cy as int),
            0 <= d < 4,
        ensures
            (r.0 as int, r.1 as int) == far_position(self@, cx as int, cy as int, d as int),
            -10 <= r.0 - 8 * cx <= 10,
            -10 <= r.1 - 8 * cy <= 10,
    {
        proof {
            lemma_extents(self@);
            lemma_slot_count(self@);
        }
        let nx: i64 = cx + exec_dir_x(d);
        let ny: i64 = cy + exec_dir_y(d);
        if self.is_interior(nx, ny) {
            let slot: i32 = self.owner_slot(nx, ny, exec_opposite(d));
            Self::slot_pos(self.diag(nx, ny), nx, ny, slot)
        } else {
            (8 * nx, 8 * ny)
        }
    }

    fn slot_pos(diag: i32, cx: i64, cy: i64, slot: i32) -> (r: (i64, i64))
        requires
            0 <= cx <= 0x4000_0000,
            0 <= cy <= 0x4000_0000,
        ensures
            (r.0 as int, r.1 as int) == slot_position(
                diag as int,
                cx as int,
                cy as int,
                slot as int,
            ),
            -2 <= r.0 - 8 * cx <= 2,
            -2 <= r.1 - 8 * cy <= 2,
    {
        if diag == 1 {
            if slot == 0 {
                (8 * cx - 2, 8 * cy + 2)
            } else {
                (8 * cx + 2, 8 * cy - 2)
            }
        } else if diag == 2 {
            if slot == 0 {
                (8 * cx - 2, 8 * cy - 2)
            } else {
                (8 * cx + 2, 8 * cy + 2)
            }
        } else {
            (8 * cx, 8 * cy)
        }
    }

    /// True when two boundaries meet sharply at a position near the corner.
    fn check_for_corner(&self, cx: i64, cy: i64, p: (i64, i64), a: i32, b: i32) -> (r: bool)
        requires
            self@.wf(),
            interior(self@, cx as int, cy as int),
            -2 <= p.0 - 8 * cx <= 2,
            -2 <= p.1 - 8 * cy <= 2,
            0 <= a < 4,
            0 <= b < 4,
        ensures
            r == meets_sharply(
                self@,
                cx as int,
                cy as int,
                (p.0 as int, p.1 as int),
                a as int,
                b as int,
            ),
    {
        reveal(meets_sharply);
        proof {
            lemma_extents(self@);
            lemma_slot_count(self@);
        }
        let pa: (i64, i64) = self.neighbor_cp_pos(cx, cy, a);
        let pb: (i64, i64) = self.neighbor_cp_pos(cx, cy, b);
        sharp(pa.0 - p.0, pa.1 - p.1, pb.0 - p.0, pb.1 - p.1)
    }

    /// A control point between two boundaries (-1 for none).
    fn make_point(&self, cx: i64, cy: i64, p: (i64, i64), a: i32, b: i32, flag: u32) -> (r:
        ControlPoint)
        requires
            self@.wf(),
            on_grid(self@, cx as int, cy as int),
            -1 <= a < 4,
            -1 <= b < 4,
        ensures
            r == point(
                self@,
                cx as int,
                cy as int,
                (p.0 as int, p.1 as int),
                a as int,
                b as int,
                flag,
            ),
            in_range(r, slot_count(self@)),
    {
        proof {
            lemma_slot_count(self@);
        }
        let prev: i32 = if a >= 0 {
            self.nbr_cp_idx(cx, cy, a)
        } else {
            -1
        };
        let next: i32 = if b >= 0 {
            self.nbr_cp_idx(cx, cy, b)
        } else {
            -1
        };
        let full: u32 = if prev < 0 || next < 0 {
            flag | IS_ENDPOINT
        } else {
            flag
        };
        ControlPoint {
            x8: p.0,
            y8: p.1,
            prev,
            next,
            prev_dir: a,
            next_dir: b,
            flag: full,
        }
    }

    fn no_point() -> (r: ControlPoint)
        ensures
            r == unused(),
    {
        ControlPoint { x8: 0, y8: 0, prev: -1, next: -1, prev_dir: -1, next_dir: -1, flag: 0 }
    }

    /// A slot beside a diagonal.
    fn make_diagonal_point(&self, cx: i64, cy: i64, slot: i32, a: i32, b: i32) -> (r: ControlPoint)
        requires
            self@.wf(),
            interior(self@, cx as int, cy as int),
            0 <= a < 4,
            0 <= b < 4,
        ensures
            r == diagonal_point(
                self@,
                cx as int,
                cy as int,
                slot as int,
                a as int,
                b as int,
            ),
            in_range(r, slot_count(self@)),
    {
        proof {
            lemma_extents(self@);
            lemma_slot_count(self@);
        }
        let has_a: bool = self.has_boundary(cx, cy, a);
        let has_b: bool = self.has_boundary(cx, cy, b);
        let p: (i64, i64) = Self::slot_pos(self.diag(cx, cy), cx, cy, slot);
        if has_a && has_b {
            let flag: u32 = if self.check_for_corner(cx, cy, p, a, b) {
                2 | IS_CORNER
            } else {
                2
            };
            self.make_point(cx, cy, p, a, b, flag)
        } else if has_a {
            self.make_point(cx, cy, p, a, -1, 1)
        } else if has_b {
            self.make_point(cx, cy, p, -1, b, 1)
        } else {
            Self::no_point()
        }
    }

    /// A control point of a corner without a single diagonal.
    fn make_plain_point(&self, cx: i64, cy: i64, slot: i32) -> (r: ControlPoint)
        requires
            self@.wf(),
            interior(self@, cx as int, cy as int),
            diagonal(self@, cx as int, cy as int) == 0,
            0 <= slot <= 1,
        ensures
            r == interior_point(self@, cx as int, cy as int, slot as int),
            in_range(r, slot_count(self@)),
    {
        proof {
            lemma_extents(self@);
            lemma_slot_count(self@);
        }
        let n: i32 = self.count(cx, cy);
        let p: (i64, i64) = (8 * cx, 8 * cy);
        if n == 4 {
            if slot == 0 {
                self.make_point(cx, cy, p, 0, 2, 2 | IS_CROSSING)
            } else {
                self.make_point(cx, cy, p, 1, 3, 2 | IS_CROSSING)
            }
        } else if n == 3 {
            let (a, b) = self.select_tjunction_pair(cx, cy);
            let tp: (i64, i64) = (
                8 * cx + exec_dir_x(a) + exec_dir_x(b),
                8 * cy + exec_dir_y(a) + exec_dir_y(b),
            );
            if slot == 0 {
                self.make_point(cx, cy, tp, a, b, 2 | IS_TJUNCTION)
            } else {
                proof {
                    lemma_through_pair(self@, cx as int, cy as int);
                }
                let stem: i32 = 6 - self.missing(cx, cy) - a - b;
                self.make_point(cx, cy, tp, stem, -1, 1)
            }
        } else if n == 2 && slot == 0 {
            let a: i32 = self.first(cx, cy);
            let b: i32 = self.last(cx, cy);
            let flag: u32 = if self.check_for_corner(cx, cy, p, a, b) {
                2 | IS_CORNER
            } else {
                2
            };
            self.make_point(cx, cy, p, a, b, flag)
        } else if n == 1 && slot == 0 {
            let a: i32 = self.first(cx, cy);
            self.make_point(cx, cy, p, a, -1, 1)
        } else {
            Self::no_point()
        }
    }

    fn first(&self, cx: i64, cy: i64) -> (d: i32)
        requires
            self@.wf(),
            0 <= cx <= 0x4000_0000,
            0 <= cy <= 0x4000_0000,
        ensures
            d == first_boundary(self@, cx as int, cy as int),
            0 <= d < 4,
    {
        if self.has_boundary(cx, cy, 0) {
            0
        } else if self.has_boundary(cx, cy, 1) {
            1
        } else if self.has_boundary(cx, cy, 2) {
            2
        } else {
            3
        }
    }

    fn last(&self, cx: i64, cy: i64) -> (d: i32)
        requires
            self@.wf(),
            0 <= cx <= 0x4000_0000,
            0 <= cy <= 0x4000_0000,
        ensures
            d == last_boundary(self@, cx as int, cy as int),
            0 <= d < 4,
    {
        if self.has_boundary(cx, cy, 3) {
            3
        } else if self.has_boundary(cx, cy, 2) {
            2
        } else if self.has_boundary(cx, cy, 1) {
            1
        } else {
            0
        }
    }

    /// The control point of a corner on the rim.
    fn make_rim_point(&self, cx: i64, cy: i64) -> (r: ControlPoint)
        requires
            self@.wf(),
            on_grid(self@, cx as int, cy as int),
        ensures
            r == rim_point(self@, cx as int, cy as int),
            in_range(r, slot_count(self@)),
    {
        proof {
            lemma_extents(self@);
            lemma_slot_count(self@);
        }
        let w: i64 = self.w as i64;
        let h: i64 = self.h as i64;
        let reaches: bool = (0 < cx && cx < w && cy == 0 && self.has_boundary(cx, cy, 2)) || (0 < cx
            && cx < w && cy == h && self.has_boundary(cx, cy, 0)) || (0 < cy && cy < h && cx == 0
            && self.has_boundary(cx, cy, 1)) || (0 < cy && cy < h && cx == w && self.has_boundary(
            cx,
            cy,
            3,
        ));
        let d: i32 = if cy == h {
            0
        } else if cy == 0 {
            2
        } else if cx == w {
            3
        } else {
            1
        };
        if !reaches {
            Self::no_point()
        } else if self.nbr_cp_idx(cx, cy, d) >= 0 {
            self.make_point(cx, cy, (8 * cx, 8 * cy), -1, d, 1)
        } else {
            self.make_point(cx, cy, (8 * cx, 8 * cy), -1, -1, 1)
        }
    }

    fn make_corner_point(&self, cx: i64, cy: i64, slot: i32) -> (r: ControlPoint)
        requires
            self@.wf(),
            on_grid(self@, cx as int, cy as int),
            0 <= slot <= 1,
        ensures
            r == corner_point(self@, cx as int, cy as int, slot as int),
            in_range(r, slot_count(self@)),
    {
        reveal(corner_point);
        proof {
            lemma_extents(self@);
            lemma_slot_count(self@);
        }
        if self.is_interior(cx, cy) {
            let diag: i32 = self.diag(cx, cy);
            if diag == 1 {
                if slot == 0 {
                    self.make_diagonal_point(cx, cy, 0, 2, 3)
                } else {
                    self.make_diagonal_point(cx, cy, 1, 0, 1)
                }
            } else if diag == 2 {
                if slot == 0 {
                    self.make_diagonal_point(cx, cy, 0, 0, 3)
                } else {
                    self.make_diagonal_point(cx, cy, 1, 2, 1)
                }
            } else {
                self.make_plain_point(cx, cy, slot)
            }
        } else if slot == 0 {
            self.make_rim_point(cx, cy)
        } else {
            Self::no_point()
        }
    }
}

/// Neighbors are slots or -1.
pub open spec fn neighbors_in_range(s: Seq<ControlPoint>) -> bool {
    forall|i: int| 0 <= i < s.len() ==> in_range(#[trigger] s[i], s.len() as int)
}

pub open spec fn in_range(c: ControlPoint, n: int) -> bool {
    -1 <= c.prev < n && -1 <= c.next < n && -1 <= c.prev_dir < 4 && -1 <= c.next_dir < 4
}

/// Let the isolated neighbors of point `i` point back.
fn link_back(cps: &mut Vec<ControlPoint>, i: usize)
    requires
        i < old(cps)@.len() <= i32::MAX,
        neighbors_in_range(old(cps)@),
    ensures
        final(cps)@ == next_linked(
            prev_linked(old(cps)@, i as int),
            i as int,
            old(cps)@[i as int].next as int,
        ),
        final(cps)@.len() == old(cps)@.len(),
        neighbors_in_range(final(cps)@),
{
    let ghost s0 = cps@;
    let c: ControlPoint = cps[i];
    if c.flag == 0 {
        return;
    }
    if c.prev >= 0 {
        let j: usize = c.prev as usize;
        let mut t: ControlPoint = cps[j];
        if (t.flag == 1 || t.flag == 1 | IS_ENDPOINT) && t.prev < 0 && t.next < 0 {
            t.next = i as i32;
            if c.prev_dir >= 0 {
                t.next_dir = exec_opposite(c.prev_dir);
            }
            cps[j] = t;
        }
    }
    assert(cps@ == prev_linked(s0, i as int));
    assert(neighbors_in_range(cps@));
    if c.next >= 0 {
        let j: usize = c.next as usize;
        let mut t: ControlPoint = cps[j];
        if (t.flag == 1 || t.flag == 1 | IS_ENDPOINT) && t.prev < 0 && t.next < 0 {
            t.prev = i as i32;
            let d: i32 = cps[i].next_dir;
            if d >= 0 {
                t.prev_dir = exec_opposite(d);
            }
            cps[j] = t;
        }
    }
}

/// Build the control points of a resolved graph.
pub fn build_cell_graph(graph: &[u32], img_w: usize, img_h: usize) -> (cps: Vec<ControlPoint>)
    requires
        (CellView { g: graph@, w: img_w as int, h: img_h as int }).wf(),
    ensures
        ({
            let v = CellView { g: graph@, w: img_w as int, h: img_h as int };
            &&& cps@ == linked_back(corner_points(v), slot_count(v) as nat)
            &&& cps@.len() == slot_count(v)
            &&& neighbors_in_range(cps@)
        }),
{
    let src = CellSource { graph, w: img_w, h: img_h };
    let ghost v = src@;
    proof {
        lemma_extents(v);
        lemma_slot_count(v);
    }
    let cw: usize = img_w + 1;
    let ch: usize = img_h + 1;
    let corners: usize = cw * ch;
    let mut cps: Vec<ControlPoint> = Vec::new();
    let mut k: usize = 0;
    while k < corners
        invariant
            k <= corners,
            v == src@,
            v.wf(),
            cw == v.w + 1,
            corners == (v.w + 1) * (v.h + 1),
            2 * corners <= i32::MAX,
            v.w <= 0x3FFF_FFFF,
            v.h <= 0x3FFF_FFFF,
            cps@.len() == 2 * k,
            forall|i: int| 0 <= i < cps@.len() ==> #[trigger] cps@[i] == corner_points(v)[i],
            forall|i: int| 0 <= i < cps@.len() ==> in_range(#[trigger] cps@[i], slot_count(v)),
        decreases corners - k,
    {
        proof {
            lemma_position(k as int, v.w + 1, v.h + 1);
            assert((2 * k) as int / 2 == k);
            assert((2 * k + 1) as int / 2 == k);
        }
        let cx: i64 = (k % cw) as i64;
        let cy: i64 = (k / cw) as i64;
        cps.push(src.make_corner_point(cx, cy, 0));
        cps.push(src.make_corner_point(cx, cy, 1));
        k = k + 1;
    }
    assert(cps@ =~= corner_points(v));
    let n: usize = 2 * corners;
    let mut i: usize = 0;
    while i < n
        invariant
            i <= n <= i32::MAX,
            cps@.len() == n,
            neighbors_in_range(cps@),
            cps@ == linked_back(corner_points(v), i as nat),
        decreases n - i,
    {
        link_back(&mut cps, i);
        i = i + 1;
    }
    cps
}

proof fn lemma_slot_count(v: CellView)
    requires
        v.wf(),
    ensures
        0 < (v.w + 1) * (v.h + 1),
        v.w + 1 <= (v.w + 1) * (v.h + 1),
        v.h + 1 <= (v.w + 1) * (v.h + 1),
{
    let a = v.w + 1;
    let b = v.h + 1;
    assert(0 < a * b && a <= a * b && b <= a * b) by (nonlinear_arith)
        requires
            1 <= a,
            1 <= b,
    ;
}

// ── Laws ──

/// A boundary between two pixels leaves the corner in direction `d`; edges of
/// the picture itself do not count.
pub open spec fn inner_boundary(v: CellView, cx: int, cy: int, d: int) -> bool {
    &&& 0 < 2 * cx + dir_x(d) < 2 * v.w
    &&& 0 < 2 * cy + dir_y(d) < 2 * v.h
    &&& boundary(v, cx, cy, d)
}

/// Some end of the control point goes in direction `d` to point `i`.
pub open spec fn has_end(c: ControlPoint, d: int, i: int) -> bool {
    (c.prev_dir == d && c.prev == i) || (c.next_dir == d && c.next == i)
}

proof fn lemma_through_pair(v: CellView, cx: int, cy: int)
    ensures
        ({
            let m = missing_direction(v, cx, cy);
            let (a, b) = through_pair(v, cx, cy);
            &&& 0 <= m < 4
            &&& 0 <= a < b < 4
            &&& a != m
            &&& b != m
            &&& 0 <= stem_direction(v, cx, cy) < 4
            &&& stem_direction(v, cx, cy) != a
            &&& stem_direction(v, cx, cy) != b
            &&& stem_direction(v, cx, cy) != m
        }),
{
    reveal(through_pair);
}

/// The far end of an inner boundary is a slot, and its index fits.
pub proof fn lemma_far_end(v: CellView, cx: int, cy: int, d: int)
    requires
        v.wf(),
        on_grid(v, cx, cy),
        0 <= d < 4,
        0 < 2 * cx + dir_x(d) < 2 * v.w,
        0 < 2 * cy + dir_y(d) < 2 * v.h,
    ensures
        on_grid(v, cx + dir_x(d), cy + dir_y(d)),
        0 <= far_index(v, cx, cy, d) < slot_count(v),
        slot_count(v) <= i32::MAX,
{
    reveal(far_index);
    let nx = cx + dir_x(d);
    let ny = cy + dir_y(d);
    lemma_owner_range(v, nx, ny, opposite(d));
    lemma_cell(nx, ny, v.w + 1, v.h + 1);
}

/// Directions of the two ends of a slot, -1 for none.
#[verifier::opaque]
pub open spec fn ends(v: CellView, cx: int, cy: int, slot: int) -> (int, int) {
    let diag = diagonal(v, cx, cy);
    let n = boundary_count(v, cx, cy);
    let has = |d: int|
        if boundary(v, cx, cy, d) {
            d
        } else {
            -1
        };
    if !interior(v, cx, cy) {
        if slot == 0 && rim_boundary(v, cx, cy) {
            (-1, inward(v, cx, cy))
        } else {
            (-1, -1)
        }
    } else if diag == 1 {
        if slot == 0 {
            (has(2), has(3))
        } else {
            (has(0), has(1))
        }
    } else if diag == 2 {
        if slot == 0 {
            (has(0), has(3))
        } else {
            (has(2), has(1))
        }
    } else if n == 4 {
        if slot == 0 {
            (0, 2)
        } else {
            (1, 3)
        }
    } else if n == 3 {
        if slot == 0 {
            through_pair(v, cx, cy)
        } else {
            (stem_direction(v, cx, cy), -1)
        }
    } else if n == 2 && slot == 0 {
        (first_boundary(v, cx, cy), last_boundary(v, cx, cy))
    } else if n == 1 && slot == 0 {
        (first_boundary(v, cx, cy), -1)
    } else {
        (-1, -1)
    }
}

/// Every inner boundary is an end of the slot that owns it.
proof fn lemma_boundary_is_end(v: CellView, cx: int, cy: int, d: int)
    requires
        v.wf(),
        on_grid(v, cx, cy),
        0 <= d < 4,
        inner_boundary(v, cx, cy, d),
    ensures
        ({
            let e = ends(v, cx, cy, owner(v, cx, cy, d));
            e.0 == d || e.1 == d
        }),
{
    reveal(owner);
    reveal(ends);
    reveal(boundary_count);
    lemma_through_pair(v, cx, cy);
}

/// Every end of a slot is an inner boundary that the slot owns.
proof fn lemma_end_is_boundary(v: CellView, cx: int, cy: int, slot: int, d: int)
    requires
        v.wf(),
        1 <= v.w,
        1 <= v.h,
        on_grid(v, cx, cy),
        0 <= slot <= 1,
        0 <= d < 4,
        ends(v, cx, cy, slot).0 == d || ends(v, cx, cy, slot).1 == d,
    ensures
        inner_boundary(v, cx, cy, d),
        owner(v, cx, cy, d) == slot,
{
    reveal(owner);
    reveal(ends);
    reveal(boundary_count);
    lemma_through_pair(v, cx, cy);
}

/// A control point has the ends that `point` was given.
proof fn lemma_point_ends(
    v: CellView,
    cx: int,
    cy: int,
    p: (int, int),
    a: int,
    b: int,
    flag: u32,
)
    requires
        v.wf(),
        on_grid(v, cx, cy),
        -1 <= a < 4,
        -1 <= b < 4,
        a >= 0 ==> inner_boundary(v, cx, cy, a),
        b >= 0 ==> inner_boundary(v, cx, cy, b),
        flag != 0,
    ensures
        has_ends(point(v, cx, cy, p, a, b, flag), v, cx, cy, (a, b)),
        point(v, cx, cy, p, a, b, flag).flag != 0,
{
    if a >= 0 {
        lemma_far_end(v, cx, cy, a);
    }
    if b >= 0 {
        lemma_far_end(v, cx, cy, b);
    }
    lemma_flag_bits();
}

/// The control point has the given ends, and goes to their far ends.
pub open spec fn has_ends(c: ControlPoint, v: CellView, cx: int, cy: int, e: (int, int)) -> bool {
    &&& c.prev_dir == e.0
    &&& c.next_dir == e.1
    &&& c.prev == (if e.0 >= 0 {
        far_index(v, cx, cy, e.0)
    } else {
        -1
    })
    &&& c.next == (if e.1 >= 0 {
        far_index(v, cx, cy, e.1)
    } else {
        -1
    })
}

/// The control point of a slot has the ends of the slot, and is in use exactly
/// when there are any.
proof fn lemma_corner_point_ends(v: CellView, cx: int, cy: int, slot: int)
    requires
        v.wf(),
        1 <= v.w,
        1 <= v.h,
        on_grid(v, cx, cy),
        0 <= slot <= 1,
    ensures
        has_ends(corner_point(v, cx, cy, slot), v, cx, cy, ends(v, cx, cy, slot)),
        (corner_point(v, cx, cy, slot).flag != 0) == (ends(v, cx, cy, slot).0 >= 0 || ends(
            v,
            cx,
            cy,
            slot,
        ).1 >= 0),
{
    let e = ends(v, cx, cy, slot);
    let diag = diagonal(v, cx, cy);
    let n = boundary_count(v, cx, cy);
    lemma_through_pair(v, cx, cy);
    lemma_flag_bits();
    lemma_ends_range(v, cx, cy, slot);
    if e.0 >= 0 {
        lemma_end_is_boundary(v, cx, cy, slot, e.0);
        lemma_far_end(v, cx, cy, e.0);
    }
    if e.1 >= 0 {
        lemma_end_is_boundary(v, cx, cy, slot, e.1);
        lemma_far_end(v, cx, cy, e.1);
    }
    let c = corner_point(v, cx, cy, slot);
    if e.0 < 0 && e.1 < 0 {
        assert(c == unused()) by {
            lemma_no_ends_unused(v, cx, cy, slot);
        }
    } else {
        let p = point_position(v, cx, cy, slot);
        let f = point_flag(v, cx, cy, slot);
        lemma_corner_point_shape(v, cx, cy, slot);
        lemma_point_ends(v, cx, cy, p, e.0, e.1, f);
    }
}

/// Position and flag of the control point of a slot that is in use.
spec fn point_position(v: CellView, cx: int, cy: int, slot: int) -> (int, int) {
    let diag = diagonal(v, cx, cy);
    if interior(v, cx, cy) && diag != 0 {
        slot_position(diag, cx, cy, slot)
    } else if interior(v, cx, cy) && boundary_count(v, cx, cy) == 3 {
        tjunction_position(v, cx, cy)
    } else {
        (8 * cx, 8 * cy)
    }
}

spec fn point_flag(v: CellView, cx: int, cy: int, slot: int) -> u32 {
    let e = ends(v, cx, cy, slot);
    let n = boundary_count(v, cx, cy);
    let p = point_position(v, cx, cy, slot);
    if e.0 < 0 || e.1 < 0 {
        1
    } else if diagonal(v, cx, cy) == 0 && n == 4 {
        2 | IS_CROSSING
    } else if diagonal(v, cx, cy) == 0 && n == 3 {
        2 | IS_TJUNCTION
    } else if meets_sharply(v, cx, cy, p, e.0, e.1) {
        2 | IS_CORNER
    } else {
        2
    }
}

proof fn lemma_no_ends_unused(v: CellView, cx: int, cy: int, slot: int)
    requires
        v.wf(),
        1 <= v.w,
        1 <= v.h,
        on_grid(v, cx, cy),
        0 <= slot <= 1,
        ends(v, cx, cy, slot).0 < 0,
        ends(v, cx, cy, slot).1 < 0,
    ensures
        corner_point(v, cx, cy, slot) == unused(),
{
    reveal(corner_point);
    reveal(ends);
    lemma_through_pair(v, cx, cy);
}

proof fn lemma_corner_point_shape(v: CellView, cx: int, cy: int, slot: int)
    requires
        v.wf(),
        1 <= v.w,
        1 <= v.h,
        on_grid(v, cx, cy),
        0 <= slot <= 1,
        ends(v, cx, cy, slot).0 >= 0 || ends(v, cx, cy, slot).1 >= 0,
    ensures
        corner_point(v, cx, cy, slot) == point(
            v,
            cx,
            cy,
            point_position(v, cx, cy, slot),
            ends(v, cx, cy, slot).0,
            ends(v, cx, cy, slot).1,
            point_flag(v, cx, cy, slot),
        ),
{
    reveal(corner_point);
    reveal(ends);
    reveal(diagonal);
    reveal(boundary_count);
    lemma_through_pair(v, cx, cy);
    if !interior(v, cx, cy) {
        let d = inward(v, cx, cy);
        lemma_end_is_boundary(v, cx, cy, slot, d);
        lemma_far_end(v, cx, cy, d);
    }
}

/// The flags in use are not zero.
proof fn lemma_flag_bits()
    ensures
        2 | IS_CORNER != 0,
        2 | IS_CROSSING != 0,
        2 | IS_TJUNCTION != 0,
        1 | IS_ENDPOINT != 0,
        2 | IS_ENDPOINT != 0,
        forall|f: u32| f != 0 ==> #[trigger] (f | IS_ENDPOINT) != 0,
{
    assert(2u32 | 16u32 != 0) by (bit_vector);
    assert(2u32 | 64u32 != 0 && 2u32 | 32u32 != 0) by (bit_vector);
    assert(forall|f: u32| #[trigger] (f | 128u32) != 0) by (bit_vector);
}

/// Corner and slot of an index.
pub open spec fn corner_x(v: CellView, k: int) -> int {
    k / 2 % (v.w + 1)
}

pub open spec fn corner_y(v: CellView, k: int) -> int {
    k / 2 / (v.w + 1)
}

proof fn lemma_index(v: CellView, k: int)
    requires
        v.wf(),
        0 <= k < slot_count(v),
    ensures
        on_grid(v, corner_x(v, k), corner_y(v, k)),
        slot_index(v, corner_x(v, k), corner_y(v, k), k % 2) == k,
        corner_points(v)[k] == corner_point(v, corner_x(v, k), corner_y(v, k), k % 2),
{
    lemma_position(k / 2, v.w + 1, v.h + 1);
}

proof fn lemma_slot(v: CellView, cx: int, cy: int, slot: int)
    requires
        v.wf(),
        on_grid(v, cx, cy),
        0 <= slot <= 1,
    ensures
        0 <= slot_index(v, cx, cy, slot) < slot_count(v),
        corner_points(v)[slot_index(v, cx, cy, slot)] == corner_point(v, cx, cy, slot),
{
    lemma_cell(cx, cy, v.w + 1, v.h + 1);
    let k = slot_index(v, cx, cy, slot);
    assert(k / 2 == cell(cx, cy, v.w + 1));
    assert(k % 2 == slot);
}

/// An end of point `k` in direction `d` leads to a point with an end in the
/// opposite direction that leads back to `k`.
proof fn lemma_end_is_reciprocal(v: CellView, k: int, d: int)
    requires
        v.wf(),
        1 <= v.w,
        1 <= v.h,
        0 <= k < slot_count(v),
        0 <= d < 4,
        ends(v, corner_x(v, k), corner_y(v, k), k % 2).0 == d || ends(
            v,
            corner_x(v, k),
            corner_y(v, k),
            k % 2,
        ).1 == d,
    ensures
        ({
            let j = far_index(v, corner_x(v, k), corner_y(v, k), d);
            &&& 0 <= j < slot_count(v)
            &&& has_end(corner_points(v)[j], opposite(d), k)
            &&& corner_points(v)[j].flag != 0
        }),
{
    let cx = corner_x(v, k);
    let cy = corner_y(v, k);
    lemma_index(v, k);
    lemma_end_is_boundary(v, cx, cy, k % 2, d);
    lemma_far_end(v, cx, cy, d);
    let nx = cx + dir_x(d);
    let ny = cy + dir_y(d);
    let o = opposite(d);
    assert(inner_boundary(v, nx, ny, o));
    let slot = owner(v, nx, ny, o);
    lemma_boundary_is_end(v, nx, ny, o);
    lemma_owner_range(v, nx, ny, o);
    lemma_corner_point_ends(v, nx, ny, slot);
    lemma_slot(v, nx, ny, slot);
    lemma_far_index(v, cx, cy, d);
    lemma_far_index(v, nx, ny, o);
}

proof fn lemma_far_index(v: CellView, cx: int, cy: int, d: int)
    requires
        on_grid(v, cx + dir_x(d), cy + dir_y(d)),
    ensures
        far_index(v, cx, cy, d) == slot_index(
            v,
            cx + dir_x(d),
            cy + dir_y(d),
            owner(v, cx + dir_x(d), cy + dir_y(d), opposite(d)),
        ),
{
    reveal(far_index);
}

proof fn lemma_owner_range(v: CellView, cx: int, cy: int, d: int)
    requires
        0 <= d < 4,
    ensures
        0 <= owner(v, cx, cy, d) <= 1,
{
    reveal(owner);
}

/// Neighbors along a chain know each other: if a control point has a neighbor
/// in some direction, the neighbor is in use and has that control point as its
/// neighbor in the opposite direction.
pub proof fn law_chains_are_reciprocal(v: CellView, k: int)
    requires
        v.wf(),
        1 <= v.w,
        1 <= v.h,
        0 <= k < slot_count(v),
    ensures
        ({
            let s = corner_points(v);
            &&& s[k].prev >= 0 ==> 0 <= s[k].prev_dir < 4 && s[s[k].prev as int].flag != 0
                && has_end(s[s[k].prev as int], opposite(s[k].prev_dir as int), k)
            &&& s[k].next >= 0 ==> 0 <= s[k].next_dir < 4 && s[s[k].next as int].flag != 0
                && has_end(s[s[k].next as int], opposite(s[k].next_dir as int), k)
        }),
{
    let cx = corner_x(v, k);
    let cy = corner_y(v, k);
    lemma_index(v, k);
    lemma_corner_point_ends(v, cx, cy, k % 2);
    let e = ends(v, cx, cy, k % 2);
    lemma_ends_range(v, cx, cy, k % 2);
    if e.0 >= 0 {
        lemma_end_is_reciprocal(v, k, e.0);
    }
    if e.1 >= 0 {
        lemma_end_is_reciprocal(v, k, e.1);
    }
}

proof fn lemma_ends_range(v: CellView, cx: int, cy: int, slot: int)
    ensures
        -1 <= ends(v, cx, cy, slot).0 < 4,
        -1 <= ends(v, cx, cy, slot).1 < 4,
{
    reveal(ends);
    lemma_through_pair(v, cx, cy);
}

proof fn lemma_endpoint_bit()
    ensures
        2u32 | IS_CORNER == 18,
        2u32 | IS_TJUNCTION == 34,
        2u32 | IS_CROSSING == 66,
        forall|f: u32| #[trigger] (f | IS_ENDPOINT) / 128 % 2 == 1,
{
    assert(2u32 | 16u32 == 18 && 2u32 | 32u32 == 34 && 2u32 | 64u32 == 66) by (bit_vector);
    assert(forall|f: u32| #[trigger] (f | 128u32) / 128 % 2 == 1) by (bit_vector);
}

/// The points at which chains end are marked, and no others: a point in use
/// carries the flag exactly when it lacks a neighbor, and an unused slot has
/// none.
pub proof fn law_endpoints_are_marked(v: CellView, k: int)
    requires
        v.wf(),
        1 <= v.w,
        1 <= v.h,
        0 <= k < slot_count(v),
    ensures
        ({
            let c = corner_points(v)[k];
            &&& c.flag != 0 ==> (c.flag as int / 128 % 2 == 1 <==> c.prev < 0 || c.next < 0)
            &&& c.flag == 0 ==> c.prev < 0 && c.next < 0
        }),
{
    let cx = corner_x(v, k);
    let cy = corner_y(v, k);
    let e = ends(v, cx, cy, k % 2);
    lemma_index(v, k);
    lemma_ends_range(v, cx, cy, k % 2);
    if e.0 < 0 && e.1 < 0 {
        lemma_no_ends_unused(v, cx, cy, k % 2);
    } else {
        lemma_corner_point_shape(v, cx, cy, k % 2);
        lemma_endpoint_bit();
        if e.0 >= 0 {
            lemma_end_is_boundary(v, cx, cy, k % 2, e.0);
            lemma_far_end(v, cx, cy, e.0);
        }
        if e.1 >= 0 {
            lemma_end_is_boundary(v, cx, cy, k % 2, e.1);
            lemma_far_end(v, cx, cy, e.1);
        }
        assert(point_flag(v, cx, cy, k % 2) as int / 128 % 2 == 0);
    }
}

/// No control point of a picture with pixels is isolated, so that linking
/// back changes nothing: the chains were reciprocal before.
pub proof fn law_linking_back_changes_nothing(v: CellView, n: nat)
    requires
        v.wf(),
        1 <= v.w,
        1 <= v.h,
        n <= slot_count(v),
    ensures
        linked_back(corner_points(v), n) == corner_points(v),
    decreases n,
{
    lemma_slot_count(v);
    if n > 0 {
        law_linking_back_changes_nothing(v, (n - 1) as nat);
        let s = corner_points(v);
        let k = n - 1;
        assert forall|j: int| 0 <= j < s.len() implies !is_isolated(#[trigger] s[j]) by {
            lemma_not_isolated(v, j);
        }
        let cx = corner_x(v, k);
        let cy = corner_y(v, k);
        lemma_index(v, k);
        lemma_corner_point_ends(v, cx, cy, k % 2);
        lemma_ends_range(v, cx, cy, k % 2);
        let e = ends(v, cx, cy, k % 2);
        if e.0 >= 0 {
            lemma_end_is_reciprocal(v, k, e.0);
        }
        if e.1 >= 0 {
            lemma_end_is_reciprocal(v, k, e.1);
        }
    }
}

proof fn lemma_not_isolated(v: CellView, k: int)
    requires
        v.wf(),
        1 <= v.w,
        1 <= v.h,
        0 <= k < slot_count(v),
    ensures
        !is_isolated(corner_points(v)[k]),
{
    let cx = corner_x(v, k);
    let cy = corner_y(v, k);
    lemma_index(v, k);
    lemma_corner_point_ends(v, cx, cy, k % 2);
    lemma_ends_range(v, cx, cy, k % 2);
    lemma_flag_bits();
    let e = ends(v, cx, cy, k % 2);
    if e.0 >= 0 {
        lemma_end_is_reciprocal(v, k, e.0);
    }
    if e.1 >= 0 {
        lemma_end_is_reciprocal(v, k, e.1);
    }
}

} // verus!
