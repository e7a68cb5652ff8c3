//! Nodes of faces and the control points that lie on them.

use std::collections::BTreeMap;
use vstd::prelude::*;

use crate::scaling::cell_graph::ControlPoint;
use crate::scaling::raster::{is_crossing, is_tjunction};
use crate::scaling::vectorize_faces::{node_id, pack_node};

verus! {

/// Half of a number, rounded to the nearest integer, away from zero in between.
pub open spec fn half_rounded(v: int) -> int {
    if v >= 0 {
        (v + 1) / 2
    } else {
        -((1 - v) / 2)
    }
}

fn round_half(v: i64) -> (r: i32)
    requires
        -0xFFFF_FFFF <= v < 0xFFFF_FFFF,
    ensures
        r == half_rounded(v as int),
{
    if v >= 0 {
        ((v + 1) / 2) as i32
    } else {
        (-((1 - v) / 2)) as i32
    }
}

/// The node at quarter pixels that a control point lies on.
pub open spec fn node_of(c: ControlPoint) -> u64 {
    node_id(half_rounded(c.x8 as int), half_rounded(c.y8 as int))
}

/// The control point lies on the grid of nodes.
pub open spec fn has_node(c: ControlPoint) -> bool {
    &&& -0xFFFF_FFFF <= c.x8 < 0xFFFF_FFFF
    &&& -0xFFFF_FFFF <= c.y8 < 0xFFFF_FFFF
}

/// The curve has a corner at the node of this control point: several chains
/// meet, or it lies on the rim of the picture.
pub open spec fn is_sharp_node(c: ControlPoint, w: int, h: int) -> bool {
    let x4 = half_rounded(c.x8 as int);
    let y4 = half_rounded(c.y8 as int);
    x4 <= 0 || y4 <= 0 || x4 >= 4 * w || y4 >= 4 * h || is_tjunction(c) || is_crossing(c)
}

/// Control point `ci` is used and lies on the node.
pub open spec fn lies_on(s: Seq<ControlPoint>, ci: int, nid: u64) -> bool {
    s[ci].flag != 0 && node_of(s[ci]) == nid
}

/// For each node that one of the first `n` control points lies on, the first
/// of them.
pub open spec fn first_points(s: Seq<ControlPoint>, n: nat) -> Map<u64, usize>
    decreases n,
{
    if n == 0 {
        Map::empty()
    } else {
        let before = first_points(s, (n - 1) as nat);
        let c = s[n - 1];
        if c.flag == 0 || before.contains_key(node_of(c)) {
            before
        } else {
            before.insert(node_of(c), (n - 1) as usize)
        }
    }
}

/// The nodes among those of the first `n` control points where the curve has a
/// corner.
pub open spec fn sharp_nodes(s: Seq<ControlPoint>, w: int, h: int, n: nat) -> Map<u64, bool>
    decreases n,
{
    if n == 0 {
        Map::empty()
    } else {
        let before = sharp_nodes(s, w, h, (n - 1) as nat);
        let c = s[n - 1];
        if c.flag != 0 && is_sharp_node(c, w, h) {
            before.insert(node_of(c), true)
        } else {
            before
        }
    }
}

/// For each node the first control point on it, and the nodes where the curve
/// has a corner.
pub fn build_node_map(cps: &[ControlPoint], img_w: usize, img_h: usize) -> (r: (
    BTreeMap<u64, usize>,
    BTreeMap<u64, bool>,
))
    requires
        4 * img_w <= i32::MAX,
        4 * img_h <= i32::MAX,
        forall|i: int| 0 <= i < cps@.len() ==> has_node(#[trigger] cps@[i]),
    ensures
        r.0@ == first_points(cps@, cps@.len()),
        r.1@ == sharp_nodes(cps@, img_w as int, img_h as int, cps@.len()),
{
    let mut points: BTreeMap<u64, usize> = BTreeMap::new();
    let mut sharp: BTreeMap<u64, bool> = BTreeMap::new();
    let mut i: usize = 0;
    while i < cps.len()
        invariant
            i <= cps@.len(),
            4 * img_w <= i32::MAX,
            4 * img_h <= i32::MAX,
            forall|i: int| 0 <= i < cps@.len() ==> has_node(#[trigger] cps@[i]),
            points@ == first_points(cps@, i as nat),
            sharp@ == sharp_nodes(cps@, img_w as int, img_h as int, i as nat),
        decreases cps@.len() - i,
    {
        let c: ControlPoint = cps[i];
        assert(has_node(cps@[i as int]));
        if c.flag != 0 {
            let x4: i32 = round_half(c.x8);
            let y4: i32 = round_half(c.y8);
            let nid: u64 = pack_node(x4, y4);
            if points.get(&nid).is_none() {
                points.insert(nid, i);
            }
            let on_border: bool = x4 <= 0 || y4 <= 0 || x4 >= (4 * img_w) as i32 || y4 >= (4
                * img_h) as i32;
            if on_border || c.flag / 32 % 2 == 1 || c.flag / 64 % 2 == 1 {
                sharp.insert(nid, true);
            }
        }
        i += 1;
    }
    (points, sharp)
}

/// The map holds for each node the first control point that lies on it, and no
/// other nodes.
pub proof fn law_node_map_holds_the_first(s: Seq<ControlPoint>, n: nat, nid: u64)
    requires
        n <= s.len() <= usize::MAX,
    ensures
        first_points(s, n).contains_key(nid) <==> exists|ci: int|
            0 <= ci < n && #[trigger] lies_on(s, ci, nid),
        first_points(s, n).contains_key(nid) ==> {
            let first = first_points(s, n)[nid];
            &&& first < n
            &&& lies_on(s, first as int, nid)
            &&& forall|ci: int| 0 <= ci < first ==> !#[trigger] lies_on(s, ci, nid)
        },
    decreases n,
{
    if n > 0 {
        let m = (n - 1) as nat;
        law_node_map_holds_the_first(s, m, nid);
        if lies_on(s, m as int, nid) {
            assert(exists|ci: int| 0 <= ci < n && lies_on(s, ci, nid));
        } else {
            assert(first_points(s, n).contains_key(nid) == first_points(s, m).contains_key(nid));
            if exists|ci: int| 0 <= ci < n && lies_on(s, ci, nid) {
                let ci = choose|ci: int| 0 <= ci < n && lies_on(s, ci, nid);
                assert(ci < m);
            }
        }
    }
}

} // verus!
