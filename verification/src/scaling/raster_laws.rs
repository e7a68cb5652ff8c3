//! Laws of the colors beside a curve and of what is looked at for a pixel.

use vstd::prelude::*;

use crate::grid::cell;
use crate::scaling::cell_graph::ControlPoint;
use crate::scaling::raster::{
    cell_candidates, corner_candidates, edge_colors, hit_inserted, hits_wf, segment_colors,
    Hit,
};

verus! {

/// The step of a direction: up, to the right, down, to the left.
pub open spec fn step_of(dir: int) -> (int, int) {
    if dir == 0 {
        (0, -1)
    } else if dir == 1 {
        (1, 0)
    } else if dir == 2 {
        (0, 1)
    } else {
        (-1, 0)
    }
}

/// The pixel to the left of the way that leaves a corner in a direction. It touches
/// the corner, lies ahead, and to the left: against the clock from ahead.
pub open spec fn left_pixel(px: Seq<u32>, w: int, cx: int, cy: int, dir: int) -> u32 {
    let (dx, dy) = step_of(dir);
    px[(cy + (dy - dx - 1) / 2) * w + (cx + (dx + dy - 1) / 2)]
}

/// The pixel to the right of that way.
pub open spec fn right_pixel(px: Seq<u32>, w: int, cx: int, cy: int, dir: int) -> u32 {
    let (dx, dy) = step_of(dir);
    px[(cy + (dy + dx - 1) / 2) * w + (cx + (dx - dy - 1) / 2)]
}

/// A boundary that leaves an inner corner separates the pixel on its left from the
/// one on its right.
pub proof fn law_boundary_sides(px: Seq<u32>, w: int, h: int, cx: int, cy: int, dir: int)
    requires
        0 < cx < w,
        0 < cy < h,
        0 <= dir < 4,
    ensures
        edge_colors(px, w, h, cx, cy, dir) == (
            left_pixel(px, w, cx, cy, dir),
            right_pixel(px, w, cx, cy, dir),
        ),
{
}

/// The colors beside the curve of a control point are those left and right of its way
/// back: seen along the boundary it came by or, turned round, along the one it leaves
/// by. The nearer one is asked first, and the other one where both sides of the
/// first have one color.
pub proof fn law_curve_sides(
    px: Seq<u32>,
    w: int,
    h: int,
    c: ControlPoint,
    cx: int,
    cy: int,
    late: bool,
)
    requires
        0 < cx < w,
        0 < cy < h,
        c.prev >= 0,
        c.next >= 0,
        0 <= c.prev_dir < 4,
        0 <= c.next_dir < 4,
    ensures
        ({
            let back = (
                left_pixel(px, w, cx, cy, c.prev_dir as int),
                right_pixel(px, w, cx, cy, c.prev_dir as int),
            );
            let on = (
                right_pixel(px, w, cx, cy, c.next_dir as int),
                left_pixel(px, w, cx, cy, c.next_dir as int),
            );
            let r = segment_colors(px, w, h, c, cx, cy, late);
            let by_end = on.0 != on.1 && (late || back.0 == back.1);
            &&& back.0 == back.1 && on.0 == on.1 ==> r is None
            &&& by_end ==> r is Some && r->0.left == on.0 && r->0.right == on.1 && r->0.at_end
            &&& !by_end && back.0 != back.1 ==> r is Some && r->0.left == back.0 && r->0.right
                == back.1 && !r->0.at_end
        }),
{
    law_boundary_sides(px, w, h, cx, cy, c.prev_dir as int);
    law_boundary_sides(px, w, h, cx, cy, c.next_dir as int);
}

/// For a pixel, both control points at each of its four corners are looked at.
pub proof fn law_corners_are_looked_at(
    s: Seq<ControlPoint>,
    w: int,
    x: int,
    y: int,
    right: int,
    down: int,
    slot: int,
)
    requires
        0 <= x < w,
        0 <= y,
        right == 0 || right == 1,
        down == 0 || down == 1,
        slot == 0 || slot == 1,
        2 * ((y + 1) * (w + 1) + (x + 1)) + 1 <= usize::MAX,
    ensures
        cell_candidates(s, w, x, y).contains(
            (2 * ((y + down) * (w + 1) + (x + right)) + slot) as usize,
        ),
{
    let a = corner_candidates(s, w, x, y, x, y);
    let b = corner_candidates(s, w, x, y, x + 1, y);
    let c = corner_candidates(s, w, x, y, x, y + 1);
    let all = cell_candidates(s, w, x, y);
    let base: int = if down == 0 {
        if right == 0 {
            0
        } else {
            a.len() as int
        }
    } else if right == 0 {
        (a.len() + b.len()) as int
    } else {
        (a.len() + b.len() + c.len()) as int
    };
    assert(all[base + slot] == (2 * cell(x + right, y + down, w + 1) + slot) as usize);
}

/// Of the hits, the three nearest stay, nearest first: a new one takes its place
/// behind those at most as far, and the farthest falls out.
pub proof fn law_hits_stay_sorted(hits: Seq<Hit>, hit: Hit)
    requires
        hits_wf(hits),
    ensures
        ({
            let r = hit_inserted(hits, hit);
            &&& r.len() == if hits.len() < 3 {
                hits.len() + 1
            } else {
                3
            }
            &&& forall|i: int, j: int| 0 <= i <= j < r.len() ==> r[i].rank <= r[j].rank
            &&& hits.len() < 3 || hit.rank < hits[2].rank ==> r.contains(hit)
            &&& hits.len() == 3 && hit.rank >= hits[2].rank ==> r == hits
        }),
{
    let r = hit_inserted(hits, hit);
    if hits.len() < 3 || hit.rank < hits[2].rank {
        let at: int = if hits.len() >= 1 && hit.rank < hits[0].rank {
            0
        } else if hits.len() >= 2 && hit.rank < hits[1].rank {
            1
        } else if hits.len() >= 3 && hit.rank < hits[2].rank {
            2
        } else {
            hits.len() as int
        };
        assert(r[at] == hit);
    } else {
        assert(r =~= hits);
    }
}

} // verus!
