//! Laws of the cell graph: which control points stand at a corner, where, and
//! which boundaries they join.
//!
//! A corner lies between the pixels to its upper left, upper right, lower left and
//! lower right. Boundaries leave it upwards (0), to the right (1), down (2) and to
//! the left (3). Positions are given in eighths of a pixel.

use vstd::prelude::*;

use crate::grid::{cell, lemma_cell};
use crate::scaling::cell_graph::{
    at, blue, boundary, boundary_count, color, corner_point, corner_points, diagonal, far_index,
    green, is_shading, is_sharp, on_grid, red, shading_boundary, through_pair, CellView,
    ControlPoint, IS_CORNER, IS_CROSSING, IS_ENDPOINT, IS_TJUNCTION,
};

verus! {

// ── Vocabulary ──

/// An entry of the graph, by its column and row.
pub open spec fn raw(v: CellView, column: int, row: int) -> int {
    v.g[row * (2 * v.w + 1) + column] as int
}

/// Whether a boundary leaves an inner corner: the two pixels at it are not joined.
pub open spec fn wall(v: CellView, cx: int, cy: int, d: int) -> bool {
    if d == 0 {
        raw(v, 2 * cx, 2 * cy - 1) == 0
    } else if d == 1 {
        raw(v, 2 * cx + 1, 2 * cy) == 0
    } else if d == 2 {
        raw(v, 2 * cx, 2 * cy + 1) == 0
    } else {
        raw(v, 2 * cx - 1, 2 * cy) == 0
    }
}

/// The number of boundaries at an inner corner.
pub open spec fn walls(v: CellView, cx: int, cy: int) -> int {
    let one = |d: int|
        if wall(v, cx, cy, d) {
            1int
        } else {
            0int
        };
    one(0) + one(1) + one(2) + one(3)
}

/// One of the two control points at a corner.
pub open spec fn control(v: CellView, cx: int, cy: int, slot: int) -> ControlPoint {
    corner_points(v)[2 * (cy * (v.w + 1) + cx) + slot]
}

/// Whether a control point stands somewhere and joins two boundaries, in this order.
pub open spec fn joins(c: ControlPoint, x8: int, y8: int, a: int, b: int) -> bool {
    &&& c.x8 == x8
    &&& c.y8 == y8
    &&& c.prev_dir == a
    &&& c.next_dir == b
    &&& c.flag as int % 16 == 2
}

/// Whether a control point stands somewhere and one boundary ends in it.
pub open spec fn stops(c: ControlPoint, x8: int, y8: int, a: int) -> bool {
    &&& c.x8 == x8
    &&& c.y8 == y8
    &&& c.prev_dir == a && c.next_dir == -1 || c.prev_dir == -1 && c.next_dir == a
    &&& c.flag as int % 16 == 1
    &&& c.flag as int / 128 % 2 == 1
}

/// Whether a control point is not in use.
pub open spec fn idle(c: ControlPoint) -> bool {
    c.flag == 0 && c.prev == -1 && c.next == -1
}

proof fn lemma_flags()
    ensures
        2u32 | IS_CORNER == 18,
        2u32 | IS_TJUNCTION == 34,
        2u32 | IS_CROSSING == 66,
        1u32 | IS_ENDPOINT == 129,
        2u32 | IS_ENDPOINT == 130,
        18u32 | IS_ENDPOINT == 146,
        34u32 | IS_ENDPOINT == 162,
        66u32 | IS_ENDPOINT == 194,
{
    assert(2u32 | 16u32 == 18 && 2u32 | 32u32 == 34 && 2u32 | 64u32 == 66) by (bit_vector);
    assert(1u32 | 128u32 == 129 && 2u32 | 128u32 == 130 && 18u32 | 128u32 == 146 && 34u32 | 128u32
        == 162 && 66u32 | 128u32 == 194) by (bit_vector);
}

proof fn lemma_control(v: CellView, cx: int, cy: int, slot: int)
    requires
        v.wf(),
        on_grid(v, cx, cy),
        slot == 0 || slot == 1,
    ensures
        control(v, cx, cy, slot) == corner_point(v, cx, cy, slot),
{
    lemma_cell(cx, cy, v.w + 1, v.h + 1);
    let i = cell(cx, cy, v.w + 1);
    let k = 2 * i + slot;
    assert(k / 2 == i && k % 2 == slot);
    assert(0 <= k < 2 * ((v.w + 1) * (v.h + 1)));
}

proof fn lemma_walls(v: CellView, cx: int, cy: int)
    requires
        v.wf(),
        0 < cx < v.w,
        0 < cy < v.h,
    ensures
        forall|d: int| 0 <= d < 4 ==> #[trigger] boundary(v, cx, cy, d) == wall(v, cx, cy, d),
        boundary_count(v, cx, cy) == walls(v, cx, cy),
        at(v, 2 * cx, 2 * cy) == raw(v, 2 * cx, 2 * cy),
        diagonal(v, cx, cy) == (if raw(v, 2 * cx, 2 * cy) % 4 == 1 {
            1
        } else if raw(v, 2 * cx, 2 * cy) % 4 == 2 {
            2
        } else {
            0int
        }),
{
    reveal(boundary_count);
    reveal(diagonal);
}

proof fn lemma_fits(v: CellView)
    requires
        v.wf(),
    ensures
        v.w < i32::MAX,
        v.h < i32::MAX,
{
    let a = v.w + 1;
    let b = v.h + 1;
    assert(a <= a * b && b <= a * b) by (nonlinear_arith)
        requires
            a >= 1,
            b >= 1,
    ;
}

proof fn lemma_far(v: CellView, cx: int, cy: int, d: int)
    requires
        v.wf(),
        0 < cx < v.w,
        0 < cy < v.h,
        0 <= d < 4,
    ensures
        0 <= far_index(v, cx, cy, d) <= i32::MAX,
{
    reveal(far_index);
    crate::scaling::cell_graph::lemma_far_end(v, cx, cy, d);
}

// ── Corners in the picture ──

/// A corner with a diagonal from upper left to lower right is passed on both sides:
/// one point a quarter down and to the left of it joins the boundaries below and to
/// the left, the other, up and to the right, those above and to the right.
pub proof fn law_falling_diagonal(v: CellView, cx: int, cy: int)
    requires
        v.wf(),
        0 < cx < v.w,
        0 < cy < v.h,
        raw(v, 2 * cx, 2 * cy) % 4 == 1,
    ensures
        wall(v, cx, cy, 2) && wall(v, cx, cy, 3) ==> joins(
            control(v, cx, cy, 0),
            8 * cx - 2,
            8 * cy + 2,
            2,
            3,
        ),
        wall(v, cx, cy, 0) && wall(v, cx, cy, 1) ==> joins(
            control(v, cx, cy, 1),
            8 * cx + 2,
            8 * cy - 2,
            0,
            1,
        ),
        wall(v, cx, cy, 2) && !wall(v, cx, cy, 3) ==> stops(
            control(v, cx, cy, 0),
            8 * cx - 2,
            8 * cy + 2,
            2,
        ),
        !wall(v, cx, cy, 2) && !wall(v, cx, cy, 3) ==> idle(control(v, cx, cy, 0)),
        !wall(v, cx, cy, 0) && !wall(v, cx, cy, 1) ==> idle(control(v, cx, cy, 1)),
{
    lemma_control(v, cx, cy, 0);
    lemma_control(v, cx, cy, 1);
    lemma_walls(v, cx, cy);
    lemma_flags();
    lemma_fits(v);
    lemma_far(v, cx, cy, 0);
    lemma_far(v, cx, cy, 1);
    lemma_far(v, cx, cy, 2);
    lemma_far(v, cx, cy, 3);
    reveal(corner_point);
}

/// The same of a diagonal from upper right to lower left, passed up and to the left
/// and down and to the right.
pub proof fn law_rising_diagonal(v: CellView, cx: int, cy: int)
    requires
        v.wf(),
        0 < cx < v.w,
        0 < cy < v.h,
        raw(v, 2 * cx, 2 * cy) % 4 == 2,
    ensures
        wall(v, cx, cy, 0) && wall(v, cx, cy, 3) ==> joins(
            control(v, cx, cy, 0),
            8 * cx - 2,
            8 * cy - 2,
            0,
            3,
        ),
        wall(v, cx, cy, 2) && wall(v, cx, cy, 1) ==> joins(
            control(v, cx, cy, 1),
            8 * cx + 2,
            8 * cy + 2,
            2,
            1,
        ),
        wall(v, cx, cy, 0) && !wall(v, cx, cy, 3) ==> stops(
            control(v, cx, cy, 0),
            8 * cx - 2,
            8 * cy - 2,
            0,
        ),
        !wall(v, cx, cy, 0) && !wall(v, cx, cy, 3) ==> idle(control(v, cx, cy, 0)),
        !wall(v, cx, cy, 1) && !wall(v, cx, cy, 2) ==> idle(control(v, cx, cy, 1)),
{
    lemma_control(v, cx, cy, 0);
    lemma_control(v, cx, cy, 1);
    lemma_walls(v, cx, cy);
    lemma_flags();
    lemma_fits(v);
    lemma_far(v, cx, cy, 0);
    lemma_far(v, cx, cy, 1);
    lemma_far(v, cx, cy, 2);
    lemma_far(v, cx, cy, 3);
    reveal(corner_point);
}

/// A corner without a single diagonal: with four boundaries two lines cross in it,
/// the upright and the level one; with two a line passes through; one ends in it;
/// with none nothing stands there.
pub proof fn law_plain_corners(v: CellView, cx: int, cy: int, a: int, b: int)
    requires
        v.wf(),
        0 < cx < v.w,
        0 < cy < v.h,
        raw(v, 2 * cx, 2 * cy) % 4 == 0 || raw(v, 2 * cx, 2 * cy) % 4 == 3,
        0 <= a < b < 4,
    ensures
        walls(v, cx, cy) == 4 ==> {
            &&& joins(control(v, cx, cy, 0), 8 * cx, 8 * cy, 0, 2)
            &&& joins(control(v, cx, cy, 1), 8 * cx, 8 * cy, 1, 3)
            &&& control(v, cx, cy, 0).flag as int / 64 % 2 == 1
            &&& control(v, cx, cy, 1).flag as int / 64 % 2 == 1
        },
        walls(v, cx, cy) == 2 && wall(v, cx, cy, a) && wall(v, cx, cy, b) ==> joins(
            control(v, cx, cy, 0),
            8 * cx,
            8 * cy,
            a,
            b,
        ) && idle(control(v, cx, cy, 1)),
        walls(v, cx, cy) == 1 && wall(v, cx, cy, a) ==> stops(
            control(v, cx, cy, 0),
            8 * cx,
            8 * cy,
            a,
        ) && idle(control(v, cx, cy, 1)),
        walls(v, cx, cy) == 0 ==> idle(control(v, cx, cy, 0)) && idle(control(v, cx, cy, 1)),
{
    lemma_control(v, cx, cy, 0);
    lemma_control(v, cx, cy, 1);
    lemma_walls(v, cx, cy);
    lemma_flags();
    lemma_fits(v);
    lemma_far(v, cx, cy, 0);
    lemma_far(v, cx, cy, 1);
    lemma_far(v, cx, cy, 2);
    lemma_far(v, cx, cy, 3);
    reveal(corner_point);
}

/// Whether the two colors at a boundary of an inner corner are so similar that it is
/// mere shading.
pub open spec fn shaded(v: CellView, cx: int, cy: int, d: int) -> bool {
    let ul = raw(v, 2 * cx - 1, 2 * cy - 1) as u32;
    let ur = raw(v, 2 * cx + 1, 2 * cy - 1) as u32;
    let ll = raw(v, 2 * cx - 1, 2 * cy + 1) as u32;
    let lr = raw(v, 2 * cx + 1, 2 * cy + 1) as u32;
    if d == 0 {
        is_shading(ul, ur)
    } else if d == 1 {
        is_shading(ur, lr)
    } else if d == 2 {
        is_shading(lr, ll)
    } else {
        is_shading(ll, ul)
    }
}

/// A corner with three boundaries `a`, `b` and `c` and no diagonal. If just one of
/// them is shading, it ends there and the other two go through; if not, the one
/// between the other two ends. The corner moves an eighth along each of those that
/// go through, so that opposite ones leave it in place.
pub proof fn law_junctions_of_three(v: CellView, cx: int, cy: int, a: int, b: int, stem: int)
    requires
        v.wf(),
        0 < cx < v.w,
        0 < cy < v.h,
        raw(v, 2 * cx, 2 * cy) % 4 == 0 || raw(v, 2 * cx, 2 * cy) % 4 == 3,
        walls(v, cx, cy) == 3,
        0 <= a < b < 4,
        0 <= stem < 4,
        stem != a,
        stem != b,
        wall(v, cx, cy, a),
        wall(v, cx, cy, b),
        wall(v, cx, cy, stem),
        (shaded(v, cx, cy, stem) && !shaded(v, cx, cy, a) && !shaded(v, cx, cy, b)) || (b - a == 2
            && !(shaded(v, cx, cy, a) && !shaded(v, cx, cy, b) && !shaded(v, cx, cy, stem)) && !(
        shaded(v, cx, cy, b) && !shaded(v, cx, cy, a) && !shaded(v, cx, cy, stem))),
    ensures
        ({
            let right = (if a == 1 || b == 1 {
                1int
            } else {
                0int
            }) - (if a == 3 || b == 3 {
                1int
            } else {
                0int
            });
            let down = (if a == 2 || b == 2 {
                1int
            } else {
                0int
            }) - (if a == 0 || b == 0 {
                1int
            } else {
                0int
            });
            &&& joins(control(v, cx, cy, 0), 8 * cx + right, 8 * cy + down, a, b)
            &&& control(v, cx, cy, 0).flag as int / 32 % 2 == 1
            &&& stops(control(v, cx, cy, 1), 8 * cx + right, 8 * cy + down, stem)
        }),
{
    lemma_control(v, cx, cy, 0);
    lemma_control(v, cx, cy, 1);
    lemma_walls(v, cx, cy);
    lemma_flags();
    lemma_fits(v);
    lemma_far(v, cx, cy, 0);
    lemma_far(v, cx, cy, 1);
    lemma_far(v, cx, cy, 2);
    lemma_far(v, cx, cy, 3);
    lemma_shaded(v, cx, cy);
    reveal(corner_point);
    assert(through_pair(v, cx, cy) == (a, b)) by {
        reveal(through_pair);
    }
}

proof fn lemma_shaded(v: CellView, cx: int, cy: int)
    requires
        v.wf(),
        0 < cx < v.w,
        0 < cy < v.h,
    ensures
        forall|d: int|
            0 <= d < 4 ==> #[trigger] shading_boundary(v, cx, cy, d) == shaded(v, cx, cy, d),
{
    assert(color(v, cx - 1, cy - 1) == raw(v, 2 * cx - 1, 2 * cy - 1));
    assert(color(v, cx, cy - 1) == raw(v, 2 * cx + 1, 2 * cy - 1));
    assert(color(v, cx - 1, cy) == raw(v, 2 * cx - 1, 2 * cy + 1));
    assert(color(v, cx, cy) == raw(v, 2 * cx + 1, 2 * cy + 1));
}

// ── Shading and corners ──

/// Grays shade into each other up to a difference of 100. Of colors that differ in
/// one channel only, red may differ by 142, green by 120, blue by 216.
pub proof fn law_shading_limits(a: int, b: int)
    requires
        0 <= a <= 255,
        0 <= b <= 255,
    ensures
        ({
            let d = if a < b {
                b - a
            } else {
                a - b
            };
            &&& is_shading((0x1_0101 * a) as u32, (0x1_0101 * b) as u32) == (d <= 100)
            &&& is_shading((0x1_0000 * a) as u32, (0x1_0000 * b) as u32) == (d <= 142)
            &&& is_shading((0x100 * a) as u32, (0x100 * b) as u32) == (d <= 120)
            &&& is_shading(a as u32, b as u32) == (d <= 216)
        }),
{
    let d = if a < b {
        b - a
    } else {
        a - b
    };
    lemma_square_limit(d, 100, 10000, 10201);
    lemma_square_limit(d, 142, 20164, 20449);
    lemma_square_limit(d, 120, 14400, 14641);
    lemma_square_limit(d, 216, 46656, 47089);
    lemma_channels(a);
    lemma_channels(b);
    let e = a - b;
    lemma_distance((0x1_0101 * a) as u32, (0x1_0101 * b) as u32, e, d, 1000, 0, 0);
    lemma_distance((0x1_0000 * a) as u32, (0x1_0000 * b) as u32, e, d, 299, -147407, 614777);
    lemma_distance((0x100 * a) as u32, (0x100 * b) as u32, e, d, 587, -289391, -514799);
    lemma_distance(a as u32, b as u32, e, d, 114, 436798, -99978);
    let s = d * d;
    assert(d <= 100 <==> 1_000_000_000_000 * s <= 10_000_000_000_000_000);
    assert(d <= 142 <==> 489_080_583_378 * s <= 10_000_000_000_000_000);
    assert(d <= 120 <==> 693_334_161_282 * s <= 10_000_000_000_000_000);
    assert(d <= 216 <==> 213_784_093_288 * s <= 10_000_000_000_000_000);
}

proof fn lemma_distance(a: u32, b: u32, e: int, d: int, ky: int, ku: int, kv: int)
    requires
        d == e || d == -e,
        ({
            let dr = red(a) - red(b);
            let dg = green(a) - green(b);
            let db = blue(a) - blue(b);
            let y = 299 * dr + 587 * dg + 114 * db;
            &&& y == ky * e
            &&& 493 * (1000 * db - y) == ku * e
            &&& 877 * (1000 * dr - y) == kv * e
        }),
    ensures
        is_shading(a, b) == (a == b || (1_000_000 * (ky * ky) + ku * ku + kv * kv) * (d * d)
            <= 10_000_000_000_000_000),
{
    lemma_measure(e, d, ky, ku, kv);
}

proof fn lemma_channels(a: int)
    requires
        0 <= a <= 255,
    ensures
        ({
            let gray = (0x1_0101 * a) as u32;
            let r = (0x1_0000 * a) as u32;
            let g = (0x100 * a) as u32;
            &&& red(gray) == a && green(gray) == a && blue(gray) == a
            &&& red(r) == a && green(r) == 0 && blue(r) == 0
            &&& red(g) == 0 && green(g) == a && blue(g) == 0
            &&& red(a as u32) == 0 && green(a as u32) == 0 && blue(a as u32) == a
        }),
{
}

proof fn lemma_measure(e: int, d: int, ky: int, ku: int, kv: int)
    requires
        d == e || d == -e,
    ensures
        1_000_000 * ((ky * e) * (ky * e)) + (ku * e) * (ku * e) + (kv * e) * (kv * e) == (1_000_000
            * (ky * ky) + ku * ku + kv * kv) * (d * d),
{
    assert(e * e == d * d) by (nonlinear_arith)
        requires
            d == e || d == -e,
    ;
    let s = d * d;
    assert((ky * e) * (ky * e) == (ky * ky) * (e * e)) by (nonlinear_arith);
    assert((ku * e) * (ku * e) == (ku * ku) * (e * e)) by (nonlinear_arith);
    assert((kv * e) * (kv * e) == (kv * kv) * (e * e)) by (nonlinear_arith);
    assert((1_000_000 * (ky * ky) + ku * ku + kv * kv) * s == 1_000_000 * ((ky * ky) * s) + (ku
        * ku) * s + (kv * kv) * s) by (nonlinear_arith);
}

proof fn lemma_square_limit(d: int, limit: int, square: int, next: int)
    requires
        0 <= d,
        0 <= limit,
        square == limit * limit,
        next == (limit + 1) * (limit + 1),
    ensures
        d <= limit ==> d * d <= square,
        d > limit ==> d * d >= next,
{
    assert(d <= limit ==> d * d <= limit * limit) by (nonlinear_arith)
        requires
            0 <= d,
            0 <= limit,
    ;
    assert(d > limit ==> d * d >= (limit + 1) * (limit + 1)) by (nonlinear_arith)
        requires
            0 <= d,
            0 <= limit,
    ;
}

/// Legs at a right angle meet sharply, as do legs at 135 degrees; legs in one
/// direction, in opposite directions or at 45 degrees do not.
pub proof fn law_sharp_angles(x: int, y: int)
    requires
        x != 0 || y != 0,
    ensures
        is_sharp(x, y, -y, x),
        is_sharp(x, y, y, -x),
        is_sharp(x, y, -x - y, x - y),
        is_sharp(x, y, y - x, -x - y),
        !is_sharp(x, y, x, y),
        !is_sharp(x, y, -x, -y),
        !is_sharp(x, y, x - y, x + y),
        !is_sharp(x, y, 0, 0),
{
    let q = x * x + y * y;
    assert(q > 0) by (nonlinear_arith)
        requires
            q == x * x + y * y,
            x != 0 || y != 0,
    ;
    assert(q * q > 0) by (nonlinear_arith)
        requires
            q > 0,
    ;
    assert(x * -y + y * x == 0) by (nonlinear_arith);
    assert(x * y + y * -x == 0) by (nonlinear_arith);
    assert((-y) * (-y) + x * x == q && y * y + (-x) * (-x) == q) by (nonlinear_arith)
        requires
            q == x * x + y * y,
    ;
    assert(x * (-x - y) + y * (x - y) == -q && x * (y - x) + y * (-x - y) == -q && x * (x - y) + y
        * (x + y) == q && x * -x + y * -y == -q) by (nonlinear_arith)
        requires
            q == x * x + y * y,
    ;
    assert((-x - y) * (-x - y) + (x - y) * (x - y) == 2 * q && (y - x) * (y - x) + (-x - y) * (-x
        - y) == 2 * q && (x - y) * (x - y) + (x + y) * (x + y) == 2 * q && (-x) * (-x) + (-y) * (-y)
        == q) by (nonlinear_arith)
        requires
            q == x * x + y * y,
    ;
    assert(q * (2 * q) == 2 * (q * q) && (-q) * (-q) == q * q) by (nonlinear_arith);
    assert(q * 0 == 0);
    assert(x * 0 + y * 0 == 0);
}

} // verus!
