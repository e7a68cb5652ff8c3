//! Faces of the cell graph.
//!
//! Every pixel has a cell whose corners lie on a grid of quarter pixels. Where
//! the colors on the two sides of a cell edge differ, the edge is part of a
//! boundary; walking along the boundaries gives closed faces of one color.

use std::cmp::Ordering;
use std::collections::BTreeMap;
use vstd::prelude::*;
use vstd::std_specs::cmp::OrdSpec;
use vstd::std_specs::iter::IteratorSpec;

use crate::grid::{cell, lemma_cell, lemma_position};
use crate::scaling::vectorize::{entry, lemma_strides_fit, stride};

verus! {

/// Color of the void outside the picture.
pub const VOID_COLOR: u32 = 0x0100_0000;

/// A closed face: its nodes in order, and its color.
pub struct Face {
    pub nodes: Vec<u64>,
    pub color: u32,
}

/// A directed half-edge between two nodes; the color is that of the face on
/// its right.
#[derive(Clone, Copy, PartialEq, Eq, Structural)]
pub struct DirEdge {
    pub from: u64,
    pub to: u64,
    pub color: u32,
}

// ── Nodes ──

/// A 32-bit number modulo 2^32.
pub open spec fn unsigned32(v: int) -> int {
    if v < 0 {
        v + 0x1_0000_0000
    } else {
        v
    }
}

pub open spec fn signed32(v: int) -> int {
    if v >= 0x8000_0000 {
        v - 0x1_0000_0000
    } else {
        v
    }
}

/// Identifier of the node at quarter-pixel coordinates: both as 32-bit words,
/// `x4` in the upper half.
#[verifier::opaque]
pub open spec fn node_id(x4: int, y4: int) -> u64 {
    (unsigned32(x4) * 0x1_0000_0000 + unsigned32(y4)) as u64
}

pub open spec fn node_x(nid: u64) -> int {
    signed32(nid as int / 0x1_0000_0000)
}

pub open spec fn node_y(nid: u64) -> int {
    signed32(nid as int % 0x1_0000_0000)
}

fn to_unsigned(v: i32) -> (r: u64)
    ensures
        r == unsigned32(v as int),
        r <= 0xFFFF_FFFF,
{
    if v < 0 {
        (v as i64 + 0x1_0000_0000) as u64
    } else {
        v as u64
    }
}

fn to_signed(v: u64) -> (r: i32)
    requires
        v <= 0xFFFF_FFFF,
    ensures
        r == signed32(v as int),
{
    if v >= 0x8000_0000 {
        (v as i64 - 0x1_0000_0000) as i32
    } else {
        v as i32
    }
}

/// Pack coordinates into a node identifier.
pub fn pack_node(x4: i32, y4: i32) -> (nid: u64)
    ensures
        nid == node_id(x4 as int, y4 as int),
{
    reveal(node_id);
    to_unsigned(x4) * 0x1_0000_0000 + to_unsigned(y4)
}

/// Coordinates of a node.
pub fn unpack_node(nid: u64) -> (r: (i32, i32))
    ensures
        r.0 == node_x(nid),
        r.1 == node_y(nid),
{
    (to_signed(nid / 0x1_0000_0000), to_signed(nid % 0x1_0000_0000))
}

/// Unpacking gives back what was packed.
pub proof fn law_nodes_unpack(x4: i32, y4: i32)
    ensures
        node_x(node_id(x4 as int, y4 as int)) == x4,
        node_y(node_id(x4 as int, y4 as int)) == y4,
{
    reveal(node_id);
    let a = unsigned32(x4 as int);
    let b = unsigned32(y4 as int);
    assert((a * 0x1_0000_0000 + b) / 0x1_0000_0000 == a);
    assert((a * 0x1_0000_0000 + b) % 0x1_0000_0000 == b);
}

/// Packing gives back what was unpacked.
pub proof fn law_nodes_pack(nid: u64)
    ensures
        node_id(node_x(nid), node_y(nid)) == nid,
{
    reveal(node_id);
}

// ── Angles ──

/// The vector points into the upper half plane, the positive x-axis included.
pub open spec fn upper(x: int, y: int) -> bool {
    y > 0 || (y == 0 && x > 0)
}

pub open spec fn cross(ax: int, ay: int, bx: int, by: int) -> int {
    ax * by - ay * bx
}

/// The angle of the first vector from the positive x-axis is the smaller one.
pub open spec fn angle_less(ax: int, ay: int, bx: int, by: int) -> bool {
    if upper(ax, ay) != upper(bx, by) {
        upper(ax, ay)
    } else {
        cross(ax, ay, bx, by) > 0
    }
}

/// The two vectors have the same angle.
pub open spec fn angle_equal(ax: int, ay: int, bx: int, by: int) -> bool {
    upper(ax, ay) == upper(bx, by) && cross(ax, ay, bx, by) == 0
}

/// [`angle_less`] and [`angle_equal`] of machine integers.
pub open spec fn vector_less(ax: i64, ay: i64, bx: i64, by: i64) -> bool {
    angle_less(ax as int, ay as int, bx as int, by as int)
}

pub open spec fn vector_equal(ax: i64, ay: i64, bx: i64, by: i64) -> bool {
    angle_equal(ax as int, ay as int, bx as int, by as int)
}

/// Compare two vectors by their angle, exactly.
pub fn angle_cmp(adx: i64, ady: i64, bdx: i64, bdy: i64) -> (r: Ordering)
    requires
        i64::MIN <= adx * bdy <= i64::MAX,
        i64::MIN <= ady * bdx <= i64::MAX,
        i64::MIN <= adx * bdy - ady * bdx <= i64::MAX,
    ensures
        r == Ordering::Less <==> vector_less(adx, ady, bdx, bdy),
        r == Ordering::Equal <==> vector_equal(adx, ady, bdx, bdy),
{
    let ha: bool = ady > 0 || (ady == 0 && adx > 0);
    let hb: bool = bdy > 0 || (bdy == 0 && bdx > 0);
    if ha != hb {
        return if ha {
            Ordering::Less
        } else {
            Ordering::Greater
        };
    }
    let c: i64 = adx * bdy - ady * bdx;
    if c > 0 {
        Ordering::Less
    } else if c == 0 {
        Ordering::Equal
    } else {
        Ordering::Greater
    }
}

/// The order by angle is antisymmetric: of two vectors exactly one of three
/// holds, that the first or the second comes first, or that they are equal.
pub proof fn law_angle_order_is_antisymmetric(ax: int, ay: int, bx: int, by: int)
    ensures
        angle_less(ax, ay, bx, by) ==> !angle_less(bx, by, ax, ay) && !angle_equal(ax, ay, bx, by),
        angle_less(ax, ay, bx, by) || angle_less(bx, by, ax, ay) || angle_equal(ax, ay, bx, by),
        angle_equal(ax, ay, bx, by) == angle_equal(bx, by, ax, ay),
{
    assert(cross(ax, ay, bx, by) == -cross(bx, by, ax, ay)) by (nonlinear_arith);
}

/// The order by angle is transitive.
pub proof fn law_angle_order_is_transitive(
    ax: int,
    ay: int,
    bx: int,
    by: int,
    cx: int,
    cy: int,
)
    requires
        angle_less(ax, ay, bx, by),
        angle_less(bx, by, cx, cy),
        (cx, cy) != (0int, 0int),
    ensures
        angle_less(ax, ay, cx, cy),
{
    if upper(ax, ay) == upper(bx, by) && upper(bx, by) == upper(cx, cy) {
        if upper(bx, by) {
            lemma_upper_transitive(ax, ay, bx, by, cx, cy);
        } else {
            assert(cross(-ax, -ay, -bx, -by) == cross(ax, ay, bx, by)) by (nonlinear_arith);
            assert(cross(-bx, -by, -cx, -cy) == cross(bx, by, cx, cy)) by (nonlinear_arith);
            assert(cross(-ax, -ay, -cx, -cy) == cross(ax, ay, cx, cy)) by (nonlinear_arith);
            assert((ax, ay) != (0int, 0int)) by {
                assert(cross(0, 0, bx, by) == 0) by (nonlinear_arith);
            }
            assert((bx, by) != (0int, 0int)) by {
                assert(cross(ax, ay, 0, 0) == 0) by (nonlinear_arith);
            }
            lemma_upper_transitive(-ax, -ay, -bx, -by, -cx, -cy);
        }
    }
}

proof fn lemma_upper_transitive(ax: int, ay: int, bx: int, by: int, cx: int, cy: int)
    requires
        upper(ax, ay),
        upper(bx, by),
        upper(cx, cy),
        cross(ax, ay, bx, by) > 0,
        cross(bx, by, cx, cy) > 0,
    ensures
        cross(ax, ay, cx, cy) > 0,
{
    let ab = cross(ax, ay, bx, by);
    let bc = cross(bx, by, cx, cy);
    let ac = cross(ax, ay, cx, cy);
    assert(by * ac == cy * ab + ay * bc) by (nonlinear_arith)
        requires
            ab == ax * by - ay * bx,
            bc == bx * cy - by * cx,
            ac == ax * cy - ay * cx,
    ;
    assert(by > 0) by (nonlinear_arith)
        requires
            ab == ax * by - ay * bx,
            ab > 0,
            ay >= 0,
            by > 0 || (by == 0 && bx > 0),
    ;
    assert(cy > 0) by (nonlinear_arith)
        requires
            bc == bx * cy - by * cx,
            bc > 0,
            by > 0,
            cy > 0 || (cy == 0 && cx > 0),
    ;
    assert(ac > 0) by (nonlinear_arith)
        requires
            by * ac == cy * ab + ay * bc,
            by > 0,
            cy > 0,
            ab > 0,
            ay >= 0,
            bc > 0,
    ;
}

// ── Cells ──

/// The single diagonal at a corner: 1 from top left, 2 from top right, 0 for
/// none, both, or a corner on the rim.
#[verifier::opaque]
pub open spec fn diagonal_at(g: Seq<u32>, w: int, h: int, cx: int, cy: int) -> u8 {
    let e = entry(g, w, 2 * cx, 2 * cy);
    if cx <= 0 || cy <= 0 || cx >= w || cy >= h {
        0
    } else if e % 2 == 1 && e / 2 % 2 == 0 {
        1
    } else if e / 2 % 2 == 1 && e % 2 == 0 {
        2
    } else {
        0
    }
}

/// Corners of the cell of pixel `(px, py)`, clockwise from the top left. A
/// diagonal cuts the corner off or pulls it out.
pub open spec fn cell_nodes(g: Seq<u32>, w: int, h: int, px: int, py: int) -> Seq<u64> {
    let x = 4 * px;
    let y = 4 * py;
    let tl = diagonal_at(g, w, h, px, py);
    let tr = diagonal_at(g, w, h, px + 1, py);
    let br = diagonal_at(g, w, h, px + 1, py + 1);
    let bl = diagonal_at(g, w, h, px, py + 1);
    top_left(x, y, tl) + top_right(x, y, tr) + bottom_right(x, y, br) + bottom_left(x, y, bl)
}

/// What the four corners contribute, for the diagonal `d` there.
pub open spec fn top_left(x: int, y: int, d: u8) -> Seq<u64> {
    if d == 1 {
        seq![node_id(x - 1, y + 1), node_id(x + 1, y - 1)]
    } else if d == 2 {
        seq![node_id(x + 1, y + 1)]
    } else {
        seq![node_id(x, y)]
    }
}

pub open spec fn top_right(x: int, y: int, d: u8) -> Seq<u64> {
    if d == 1 {
        seq![node_id(x + 3, y + 1)]
    } else if d == 2 {
        seq![node_id(x + 3, y - 1), node_id(x + 5, y + 1)]
    } else {
        seq![node_id(x + 4, y)]
    }
}

pub open spec fn bottom_right(x: int, y: int, d: u8) -> Seq<u64> {
    if d == 1 {
        seq![node_id(x + 5, y + 3), node_id(x + 3, y + 5)]
    } else if d == 2 {
        seq![node_id(x + 3, y + 3)]
    } else {
        seq![node_id(x + 4, y + 4)]
    }
}

pub open spec fn bottom_left(x: int, y: int, d: u8) -> Seq<u64> {
    if d == 1 {
        seq![node_id(x + 1, y + 3)]
    } else if d == 2 {
        seq![node_id(x + 1, y + 5), node_id(x - 1, y + 3)]
    } else {
        seq![node_id(x, y + 4)]
    }
}

/// A graph of the right size, for a picture whose nodes fit.
pub open spec fn faces_wf(g: Seq<u32>, w: int, h: int) -> bool {
    &&& 0 <= w
    &&& 0 <= h
    &&& g.len() == stride(w) * stride(h)
    &&& 4 * w + 2 <= i32::MAX
    &&& 4 * h + 2 <= i32::MAX
}

/// The single diagonal at a corner.
pub fn corner_diag(graph: &[u32], w: usize, h: usize, cx: usize, cy: usize) -> (r: u8)
    requires
        graph@.len() == stride(w as int) * stride(h as int),
    ensures
        r == diagonal_at(graph@, w as int, h as int, cx as int, cy as int),
        r <= 2,
{
    reveal(diagonal_at);
    if cx == 0 || cy == 0 || cx >= w || cy >= h {
        return 0;
    }
    let _n: usize = graph.len();
    proof {
        lemma_strides_fit(w as int, h as int, usize::MAX as int);
        lemma_cell(2 * cx as int, 2 * cy as int, stride(w as int), stride(h as int));
    }
    let s: usize = 2 * w + 1;
    let e: u32 = graph[2 * cy * s + 2 * cx];
    let back: bool = e % 2 == 1;
    let slash: bool = e / 2 % 2 == 1;
    if back && !slash {
        1
    } else if slash && !back {
        2
    } else {
        0
    }
}

/// Corners of the cell of a pixel: a buffer, and how much of it is used. The
/// rest of it is 0.
pub fn pixel_cell(graph: &[u32], w: usize, h: usize, px: usize, py: usize) -> (r: ([u64; 8], usize))
    requires
        faces_wf(graph@, w as int, h as int),
        px < w,
        py < h,
    ensures
        4 <= r.1 <= 8,
        r.0@.take(r.1 as int) == cell_nodes(graph@, w as int, h as int, px as int, py as int),
        forall|i: int| r.1 <= i < 8 ==> #[trigger] r.0@[i] == 0,
{
    let tl: u8 = corner_diag(graph, w, h, px, py);
    let tr: u8 = corner_diag(graph, w, h, px + 1, py);
    let br: u8 = corner_diag(graph, w, h, px + 1, py + 1);
    let bl: u8 = corner_diag(graph, w, h, px, py + 1);
    let x: i32 = 4 * (px as i32);
    let y: i32 = 4 * (py as i32);
    let mut nodes: [u64; 8] = [0u64;8];
    let mut len: usize = 0;
    push_top_left(&mut nodes, &mut len, x, y, tl);
    push_top_right(&mut nodes, &mut len, x, y, tr);
    push_bottom_right(&mut nodes, &mut len, x, y, br);
    push_bottom_left(&mut nodes, &mut len, x, y, bl);
    assert(nodes@.take(len as int) =~= cell_nodes(
        graph@,
        w as int,
        h as int,
        px as int,
        py as int,
    ));
    (nodes, len)
}

fn push_top_left(nodes: &mut [u64; 8], len: &mut usize, x: i32, y: i32, d: u8)
    requires
        *old(len) == 0,
        0 <= x < i32::MAX - 5,
        0 <= y < i32::MAX - 5,
    ensures
        forall|i: int| *final(len) <= i < 8 ==> #[trigger] final(nodes)@[i] == old(nodes)@[i],
        1 <= *final(len) <= 2,
        final(nodes)@.take(*final(len) as int) == top_left(x as int, y as int, d),
{
    if d == 1 {
        push_two(nodes, len, (x - 1, y + 1), (x + 1, y - 1));
    } else if d == 2 {
        push_one(nodes, len, (x + 1, y + 1));
    } else {
        push_one(nodes, len, (x, y));
    }
    assert(nodes@.take(*len as int) =~= top_left(x as int, y as int, d));
}

fn push_top_right(nodes: &mut [u64; 8], len: &mut usize, x: i32, y: i32, d: u8)
    requires
        *old(len) <= 6,
        0 <= x < i32::MAX - 5,
        0 <= y < i32::MAX - 5,
    ensures
        forall|i: int| *final(len) <= i < 8 ==> #[trigger] final(nodes)@[i] == old(nodes)@[i],
        *old(len) + 1 <= *final(len) <= *old(len) + 2,
        final(nodes)@.take(*final(len) as int) == old(nodes)@.take(*old(len) as int) + top_right(
            x as int,
            y as int,
            d,
        ),
{
    if d == 1 {
        push_one(nodes, len, (x + 3, y + 1));
    } else if d == 2 {
        push_two(nodes, len, (x + 3, y - 1), (x + 5, y + 1));
    } else {
        push_one(nodes, len, (x + 4, y));
    }
    assert(nodes@.take(*len as int) =~= old(nodes)@.take(*old(len) as int) + top_right(
        x as int,
        y as int,
        d,
    ));
}

fn push_bottom_right(nodes: &mut [u64; 8], len: &mut usize, x: i32, y: i32, d: u8)
    requires
        *old(len) <= 6,
        0 <= x < i32::MAX - 5,
        0 <= y < i32::MAX - 5,
    ensures
        forall|i: int| *final(len) <= i < 8 ==> #[trigger] final(nodes)@[i] == old(nodes)@[i],
        *old(len) + 1 <= *final(len) <= *old(len) + 2,
        final(nodes)@.take(*final(len) as int) == old(nodes)@.take(*old(len) as int)
            + bottom_right(x as int, y as int, d),
{
    if d == 1 {
        push_two(nodes, len, (x + 5, y + 3), (x + 3, y + 5));
    } else if d == 2 {
        push_one(nodes, len, (x + 3, y + 3));
    } else {
        push_one(nodes, len, (x + 4, y + 4));
    }
    assert(nodes@.take(*len as int) =~= old(nodes)@.take(*old(len) as int) + bottom_right(
        x as int,
        y as int,
        d,
    ));
}

fn push_bottom_left(nodes: &mut [u64; 8], len: &mut usize, x: i32, y: i32, d: u8)
    requires
        *old(len) <= 6,
        0 <= x < i32::MAX - 5,
        0 <= y < i32::MAX - 5,
    ensures
        forall|i: int| *final(len) <= i < 8 ==> #[trigger] final(nodes)@[i] == old(nodes)@[i],
        *old(len) + 1 <= *final(len) <= *old(len) + 2,
        final(nodes)@.take(*final(len) as int) == old(nodes)@.take(*old(len) as int)
            + bottom_left(x as int, y as int, d),
{
    if d == 1 {
        push_one(nodes, len, (x + 1, y + 3));
    } else if d == 2 {
        push_two(nodes, len, (x + 1, y + 5), (x - 1, y + 3));
    } else {
        push_one(nodes, len, (x, y + 4));
    }
    assert(nodes@.take(*len as int) =~= old(nodes)@.take(*old(len) as int) + bottom_left(
        x as int,
        y as int,
        d,
    ));
}

fn push_one(nodes: &mut [u64; 8], len: &mut usize, p: (i32, i32))
    requires
        *old(len) < 8,
    ensures
        forall|i: int| *final(len) <= i < 8 ==> #[trigger] final(nodes)@[i] == old(nodes)@[i],
        *final(len) == *old(len) + 1,
        final(nodes)@.take(*final(len) as int) == old(nodes)@.take(*old(len) as int).push(
            node_id(p.0 as int, p.1 as int),
        ),
{
    nodes[*len] = pack_node(p.0, p.1);
    *len = *len + 1;
    assert(nodes@.take(*len as int) =~= old(nodes)@.take(*old(len) as int).push(
        node_id(p.0 as int, p.1 as int),
    ));
}

fn push_two(nodes: &mut [u64; 8], len: &mut usize, p: (i32, i32), q: (i32, i32))
    requires
        *old(len) < 7,
    ensures
        forall|i: int| *final(len) <= i < 8 ==> #[trigger] final(nodes)@[i] == old(nodes)@[i],
        *final(len) == *old(len) + 2,
        final(nodes)@.take(*final(len) as int) == old(nodes)@.take(*old(len) as int).push(
            node_id(p.0 as int, p.1 as int),
        ).push(node_id(q.0 as int, q.1 as int)),
{
    push_one(nodes, len, p);
    push_one(nodes, len, q);
}

// ── Boundary edges ──

/// Colors left and right of the undirected edges, keyed by their two nodes.
pub type EdgeColors = Map<u128, (u32, u32)>;

/// Key of an edge: the smaller node in the upper half.
pub open spec fn edge_key(a: u64, b: u64) -> u128 {
    if a <= b {
        (a * 0x1_0000_0000_0000_0000 + b) as u128
    } else {
        (b * 0x1_0000_0000_0000_0000 + a) as u128
    }
}

pub open spec fn key_low(k: u128) -> u64 {
    (k / 0x1_0000_0000_0000_0000) as u64
}

pub open spec fn key_high(k: u128) -> u64 {
    (k % 0x1_0000_0000_0000_0000) as u64
}

/// A cell has an edge from `a` to `b`: its color lies to the right of an
/// ascending edge, and to the left of a descending one.
pub open spec fn edge_colored(m: EdgeColors, a: u64, b: u64, color: u32) -> EdgeColors {
    let k = edge_key(a, b);
    let before = if m.contains_key(k) {
        m[k]
    } else {
        (0u32, 0u32)
    };
    m.insert(
        k,
        if a <= b {
            (before.0, color)
        } else {
            (color, before.1)
        },
    )
}

/// The first `n` edges of a cell.
pub open spec fn cell_colored(m: EdgeColors, nodes: Seq<u64>, color: u32, n: nat) -> EdgeColors
    decreases n,
{
    if n == 0 {
        m
    } else {
        let i = n - 1;
        edge_colored(
            cell_colored(m, nodes, color, (n - 1) as nat),
            nodes[i],
            nodes[if i + 1 < nodes.len() {
                i + 1
            } else {
                0
            }],
            color,
        )
    }
}

/// The cells of the first `n` pixels, row by row.
pub open spec fn picture_colored(g: Seq<u32>, px: Seq<u32>, w: int, h: int, n: nat) -> EdgeColors
    decreases n,
{
    if n == 0 {
        Map::empty()
    } else {
        let i = n - 1;
        let nodes = cell_nodes(g, w, h, i % w, i / w);
        cell_colored(
            picture_colored(g, px, w, h, (n - 1) as nat),
            nodes,
            px[i],
            nodes.len(),
        )
    }
}

pub open spec fn void_if_none(c: u32) -> u32 {
    if c == 0 {
        VOID_COLOR
    } else {
        c
    }
}

/// The half-edges of the given edges, in order, where the colors differ.
pub open spec fn half_edges(m: EdgeColors, keys: Seq<u128>) -> Seq<DirEdge>
    decreases keys.len(),
{
    if keys.len() == 0 {
        Seq::empty()
    } else {
        let before = half_edges(m, keys.drop_last());
        let k = keys.last();
        let l = void_if_none(m[k].0);
        let r = void_if_none(m[k].1);
        if l == r {
            before
        } else {
            before.push(DirEdge { from: key_low(k), to: key_high(k), color: r }).push(
                DirEdge { from: key_high(k), to: key_low(k), color: l },
            )
        }
    }
}

/// All keys of the map, ascending.
pub open spec fn ascending_keys(m: EdgeColors, keys: Seq<u128>) -> bool {
    &&& forall|i: int, j: int| 0 <= i < j < keys.len() ==> keys[i] < keys[j]
    &&& forall|k: u128| keys.contains(k) <==> m.contains_key(k)
}

fn color_edge(m: &mut BTreeMap<u128, (u32, u32)>, a: u64, b: u64, color: u32)
    ensures
        final(m)@ == edge_colored(old(m)@, a, b, color),
{
    let forward: bool = a <= b;
    let k: u128 = if forward {
        a as u128 * 0x1_0000_0000_0000_0000 + b as u128
    } else {
        b as u128 * 0x1_0000_0000_0000_0000 + a as u128
    };
    let before: (u32, u32) = match m.get(&k) {
        Some(v) => *v,
        None => (0, 0),
    };
    if forward {
        m.insert(k, (before.0, color));
    } else {
        m.insert(k, (color, before.1));
    }
}

fn color_cell(
    m: &mut BTreeMap<u128, (u32, u32)>,
    nodes: &[u64; 8],
    len: usize,
    color: u32,
)
    requires
        4 <= len <= 8,
    ensures
        final(m)@ == cell_colored(old(m)@, nodes@.take(len as int), color, len as nat),
{
    let ghost before = m@;
    let mut i: usize = 0;
    while i < len
        invariant
            i <= len,
            4 <= len <= 8,
            m@ == cell_colored(before, nodes@.take(len as int), color, i as nat),
        decreases len - i,
    {
        let j: usize = if i + 1 < len {
            i + 1
        } else {
            0
        };
        assert(nodes@.take(len as int)[i as int] == nodes@[i as int]);
        assert(nodes@.take(len as int)[j as int] == nodes@[j as int]);
        color_edge(m, nodes[i], nodes[j], color);
        i = i + 1;
    }
}

/// Keys of the map, ascending.
fn sorted_keys(m: &BTreeMap<u128, (u32, u32)>) -> (keys: Vec<u128>)
    ensures
        ascending_keys(m@, keys@),
{
    broadcast use vstd::std_specs::btree::group_btree_axioms;
    broadcast use vstd::laws_cmp::group_laws_cmp;

    let mut keys: Vec<u128> = Vec::new();
    let it = m.iter();
    let ghost all = it.remaining();
    for kv in iter: it
        invariant
            iter.seq() == all,
            keys@.len() == iter.index(),
            forall|i: int| 0 <= i < keys@.len() ==> keys@[i] == *all[i].0,
    {
        keys.push(*kv.0);
    }
    let ghost ks = all.map_values(|kv: (&u128, &(u32, u32))| *kv.0);
    assert(keys@ =~= ks);
    assert(vstd::std_specs::btree::increasing_seq(ks));
    assert forall|i: int, j: int| 0 <= i < j < keys@.len() implies keys@[i] < keys@[j] by {
        assert(ks[i].cmp_spec(&ks[j]) is Less);
    }
    assert forall|k: u128| keys@.contains(k) implies m@.contains_key(k) by {
        let i = choose|i: int| 0 <= i < keys@.len() && keys@[i] == k;
        assert(m@.contains_key(*all[i].0));
    }
    assert forall|k: u128| m@.contains_key(k) implies keys@.contains(k) by {
        assert(all.contains((&k, &m@[k])));
        let i = choose|i: int| 0 <= i < all.len() && all[i] == (&k, &m@[k]);
        assert(keys@[i] == k);
    }
    keys
}

fn edge_sides(m: &BTreeMap<u128, (u32, u32)>, k: u128) -> (r: (u32, u32))
    requires
        m@.contains_key(k),
    ensures
        r.0 == void_if_none(m@[k].0),
        r.1 == void_if_none(m@[k].1),
{
    let v: (u32, u32) = match m.get(&k) {
        Some(v) => *v,
        None => (0, 0),
    };
    let l: u32 = if v.0 == 0 {
        VOID_COLOR
    } else {
        v.0
    };
    let r: u32 = if v.1 == 0 {
        VOID_COLOR
    } else {
        v.1
    };
    (l, r)
}

/// Half-edges of all boundaries of a picture, in ascending order of their
/// nodes. A color of 0 counts as void.
pub fn build_cell_edges(graph: &[u32], w: usize, h: usize, pixels: &[u32]) -> (edges: Vec<DirEdge>)
    requires
        faces_wf(graph@, w as int, h as int),
        pixels@.len() >= w * h,
    ensures
        exists|keys: Seq<u128>|
            #![trigger half_edges(picture_colored(graph@, pixels@, w as int, h as int, (w * h) as nat), keys)]
            ascending_keys(
                picture_colored(graph@, pixels@, w as int, h as int, (w * h) as nat),
                keys,
            ) && edges@ == half_edges(
                picture_colored(graph@, pixels@, w as int, h as int, (w * h) as nat),
                keys,
            ),
        edges_wf(edges@),
{
    let _n: usize = pixels.len();
    let total: usize = w * h;
    let mut m: BTreeMap<u128, (u32, u32)> = BTreeMap::new();
    let mut i: usize = 0;
    while i < total
        invariant
            i <= total,
            total == w * h,
            total <= pixels@.len(),
            faces_wf(graph@, w as int, h as int),
            m@ == picture_colored(graph@, pixels@, w as int, h as int, i as nat),
        decreases total - i,
    {
        assert(w > 0) by (nonlinear_arith)
            requires
                0 <= i < w * h,
        ;
        proof {
            lemma_position(i as int, w as int, h as int);
        }
        let (nodes, len) = pixel_cell(graph, w, h, i % w, i / w);
        color_cell(&mut m, &nodes, len, pixels[i]);
        i = i + 1;
    }
    let keys: Vec<u128> = sorted_keys(&m);
    let mut edges: Vec<DirEdge> = Vec::new();
    let mut j: usize = 0;
    while j < keys.len()
        invariant
            j <= keys@.len(),
            ascending_keys(m@, keys@),
            edges@ == half_edges(m@, keys@.take(j as int)),
            m@ == picture_colored(graph@, pixels@, w as int, h as int, (w * h) as nat),
        decreases keys@.len() - j,
    {
        let k: u128 = keys[j];
        assert(keys@.contains(k));
        let (l, r) = edge_sides(&m, k);
        assert(keys@.take(j + 1).drop_last() =~= keys@.take(j as int));
        if l != r {
            let a: u64 = (k / 0x1_0000_0000_0000_0000) as u64;
            let b: u64 = (k % 0x1_0000_0000_0000_0000) as u64;
            edges.push(DirEdge { from: a, to: b, color: r });
            edges.push(DirEdge { from: b, to: a, color: l });
        }
        j = j + 1;
    }
    assert(keys@.take(keys@.len() as int) =~= keys@);
    assert(m@ == picture_colored(graph@, pixels@, w as int, h as int, (w * h) as nat));
    proof {
        law_cell_edges_can_be_traced(graph@, pixels@, w as int, h as int, keys@);
    }
    edges
}

// ── Tracing ──

pub open spec fn run_x(e: DirEdge) -> int {
    node_x(e.to) - node_x(e.from)
}

pub open spec fn run_y(e: DirEdge) -> int {
    node_y(e.to) - node_y(e.from)
}

/// The edge joins two different nodes, whose distance along each axis is a
/// 32-bit number. An edge from a node to itself has no angle: beside it the order
/// of the edges at the node would not be total, and none of them would be the
/// one that follows.
pub open spec fn edge_wf(e: DirEdge) -> bool {
    &&& e.from != e.to
    &&& i32::MIN <= run_x(e) <= i32::MAX
    &&& i32::MIN <= run_y(e) <= i32::MAX
    &&& i32::MIN <= -run_x(e) <= i32::MAX
    &&& i32::MIN <= -run_y(e) <= i32::MAX
}

pub open spec fn edges_wf(edges: Seq<DirEdge>) -> bool {
    forall|i: int| 0 <= i < edges.len() ==> edge_wf(#[trigger] edges[i])
}

/// The indices below `n` of the edges that leave a node, in order.
pub open spec fn leaving(edges: Seq<DirEdge>, u: u64, n: nat) -> Seq<usize>
    decreases n,
{
    if n == 0 {
        seq![]
    } else {
        let k = (n - 1) as nat;
        if edges[k as int].from == u {
            leaving(edges, u, k).push(k as usize)
        } else {
            leaving(edges, u, k)
        }
    }
}

/// Edge `k` comes before the direction `(x, y)` by angle.
pub open spec fn edge_before(edges: Seq<DirEdge>, k: int, x: int, y: int) -> bool {
    angle_less(run_x(edges[k]), run_y(edges[k]), x, y)
}

/// Of the first `n` edges of a list, the last one of greatest angle; with a
/// limit, only those that come before the limit count.
pub open spec fn widest(
    edges: Seq<DirEdge>,
    list: Seq<usize>,
    n: nat,
    limit: Option<(int, int)>,
) -> Option<usize>
    decreases n,
{
    if n == 0 {
        None
    } else {
        let best = widest(edges, list, (n - 1) as nat, limit);
        let k = list[n - 1];
        let counts = match limit {
            Some(d) => edge_before(edges, k as int, d.0, d.1),
            None => true,
        };
        if !counts {
            best
        } else {
            match best {
                Some(b) => if edge_before(
                    edges,
                    k as int,
                    run_x(edges[b as int]),
                    run_y(edges[b as int]),
                ) {
                    best
                } else {
                    Some(k)
                },
                None => Some(k),
            }
        }
    }
}

/// The edge that follows edge `i` around a face: of those that leave its end,
/// the one immediately clockwise from the way back.
pub open spec fn next_edge(edges: Seq<DirEdge>, i: int) -> Option<usize> {
    follower(edges, edges[i])
}

pub open spec fn follower(edges: Seq<DirEdge>, e: DirEdge) -> Option<usize> {
    let out = leaving(edges, e.to, edges.len());
    match widest(edges, out, out.len(), Some((-run_x(e), -run_y(e)))) {
        Some(k) => Some(k),
        None => widest(edges, out, out.len(), None),
    }
}

/// How many edges are not used yet.
pub open spec fn free(used: Seq<bool>) -> nat
    decreases used.len(),
{
    if used.len() == 0 {
        0
    } else {
        free(used.drop_last()) + if used.last() {
            0nat
        } else {
            1
        }
    }
}

/// A walk along unused edges: the edges in order, what is used afterwards, and
/// whether the walk came back to its first edge.
#[verifier::ext_equal]
pub struct Walk {
    pub path: Seq<int>,
    pub used: Seq<bool>,
    pub closed: bool,
}

/// The walk that began at `start` and stands before edge `cur`.
pub open spec fn walk(edges: Seq<DirEdge>, used: Seq<bool>, start: int, cur: int) -> Walk
    decreases free(used),
    when used.len() == edges.len() && 0 <= cur < edges.len()
    via walk_ends
{
    if used[cur] {
        Walk { path: seq![], used, closed: cur == start }
    } else {
        let after = used.update(cur, true);
        match next_edge(edges, cur) {
            Some(k) => {
                if 0 <= k < edges.len() {
                    let rest = walk(edges, after, start, k as int);
                    Walk { path: seq![cur] + rest.path, used: rest.used, closed: rest.closed }
                } else {
                    Walk { path: seq![cur], used: after, closed: false }
                }
            },
            None => Walk { path: seq![cur], used: after, closed: false },
        }
    }
}

#[via_fn]
proof fn walk_ends(edges: Seq<DirEdge>, used: Seq<bool>, start: int, cur: int) {
    if !used[cur] {
        lemma_free_update(used, cur);
    }
}

proof fn lemma_free_update(used: Seq<bool>, i: int)
    requires
        0 <= i < used.len(),
        !used[i],
    ensures
        free(used.update(i, true)) + 1 == free(used),
    decreases used.len(),
{
    let after = used.update(i, true);
    if i == used.len() - 1 {
        assert(after.drop_last() =~= used.drop_last());
    } else {
        assert(after.drop_last() =~= used.drop_last().update(i, true));
        lemma_free_update(used.drop_last(), i);
    }
}

/// What tracing from the first edges has found: the closed loops of three or
/// more edges, and the edges used.
#[verifier::ext_equal]
pub struct Traced {
    pub loops: Seq<Seq<int>>,
    pub used: Seq<bool>,
}

/// Tracing from each of the first `n` edges that is not used when its turn
/// comes.
pub open spec fn traced(edges: Seq<DirEdge>, n: nat) -> Traced
    decreases n,
{
    if n == 0 {
        Traced { loops: seq![], used: Seq::new(edges.len(), |i: int| false) }
    } else {
        let t = traced(edges, (n - 1) as nat);
        let start = n - 1;
        if t.used[start] {
            t
        } else {
            let w = walk(edges, t.used, start, start);
            if w.path.len() >= 3 && w.closed {
                Traced { loops: t.loops.push(w.path), used: w.used }
            } else {
                Traced { loops: t.loops, used: w.used }
            }
        }
    }
}

/// The face along a loop of edges: the nodes that they leave, and the color of
/// the first.
pub open spec fn is_face_of(face: Face, edges: Seq<DirEdge>, path: Seq<int>) -> bool {
    &&& face.nodes@ == path.map_values(|i: int| edges[i].from)
    &&& face.color == edges[path[0]].color
}

proof fn lemma_leaving(edges: Seq<DirEdge>, u: u64, n: nat)
    requires
        n <= edges.len() <= usize::MAX,
    ensures
        leaving(edges, u, n).len() <= n,
        forall|j: int|
            0 <= j < leaving(edges, u, n).len() ==> {
                &&& #[trigger] leaving(edges, u, n)[j] < n
                &&& edges[leaving(edges, u, n)[j] as int].from == u
            },
    decreases n,
{
    if n > 0 {
        lemma_leaving(edges, u, (n - 1) as nat);
    }
}

proof fn lemma_widest(
    edges: Seq<DirEdge>,
    list: Seq<usize>,
    n: nat,
    limit: Option<(int, int)>,
)
    requires
        n <= list.len(),
    ensures
        match widest(edges, list, n, limit) {
            Some(k) => list.contains(k),
            None => limit is None ==> n == 0,
        },
    decreases n,
{
    if n > 0 {
        lemma_widest(edges, list, (n - 1) as nat, limit);
        assert(list.contains(list[n - 1]));
    }
}

/// The edge that follows is in range and leaves the node where the other ends.
proof fn lemma_next_edge(edges: Seq<DirEdge>, i: int)
    requires
        0 <= i < edges.len() <= usize::MAX,
    ensures
        match next_edge(edges, i) {
            Some(k) => k < edges.len() && edges[k as int].from == edges[i].to,
            None => leaving(edges, edges[i].to, edges.len()).len() == 0,
        },
{
    let e = edges[i];
    let out = leaving(edges, e.to, edges.len());
    lemma_leaving(edges, e.to, edges.len());
    lemma_widest(edges, out, out.len(), Some((-run_x(e), -run_y(e))));
    lemma_widest(edges, out, out.len(), None);
}

/// Difference of two node coordinates.
fn run_of(from: u64, to: u64) -> (r: (i64, i64))
    ensures
        r.0 == node_x(to) - node_x(from),
        r.1 == node_y(to) - node_y(from),
{
    let (fx, fy) = unpack_node(from);
    let (tx, ty) = unpack_node(to);
    (tx as i64 - fx as i64, ty as i64 - fy as i64)
}

/// The first vector comes before the second by angle.
fn comes_before(a: (i64, i64), b: (i64, i64)) -> (r: bool)
    requires
        -0x8000_0000 <= a.0 <= 0x7FFF_FFFF,
        -0x8000_0000 <= a.1 <= 0x7FFF_FFFF,
        -0x8000_0000 <= b.0 <= 0x7FFF_FFFF,
        -0x8000_0000 <= b.1 <= 0x7FFF_FFFF,
    ensures
        r == vector_less(a.0, a.1, b.0, b.1),
{
    proof {
        lemma_product(a.0, b.1);
        lemma_product(a.1, b.0);
    }
    match angle_cmp(a.0, a.1, b.0, b.1) {
        Ordering::Less => true,
        _ => false,
    }
}

proof fn lemma_product(x: i64, y: i64)
    requires
        -0x8000_0000 <= x <= 0x7FFF_FFFF,
        -0x8000_0000 <= y <= 0x7FFF_FFFF,
    ensures
        -0x3FFF_FFFF_8000_0000 <= x * y <= 0x4000_0000_0000_0000,
{
    assert(-0x3FFF_FFFF_8000_0000 <= x * y <= 0x4000_0000_0000_0000) by (nonlinear_arith)
        requires
            -0x8000_0000 <= x <= 0x7FFF_FFFF,
            -0x8000_0000 <= y <= 0x7FFF_FFFF,
    ;
}

pub type IndexLists = BTreeMap<u64, Vec<usize>>;

/// The list kept for a node, or an empty one.
pub open spec fn kept(m: Map<u64, Vec<usize>>, u: u64) -> Seq<usize> {
    if m.contains_key(u) {
        m[u]@
    } else {
        seq![]
    }
}

pub(crate) fn append_index(out: &mut IndexLists, u: u64, i: usize)
    ensures
        forall|v: u64| #[trigger]
            kept(final(out)@, v) == if v == u {
                kept(old(out)@, v).push(i)
            } else {
                kept(old(out)@, v)
            },
        forall|v: u64| #[trigger]
            final(out)@.contains_key(v) <==> v == u || old(out)@.contains_key(v),
{
    broadcast use vstd::std_specs::btree::group_btree_axioms;
    broadcast use vstd::laws_cmp::group_laws_cmp;

    let mut list: Vec<usize> = match out.remove(&u) {
        Some(list) => list,
        None => Vec::new(),
    };
    list.push(i);
    out.insert(u, list);
}

/// The keys of the lists, ascending.
pub(crate) fn sorted_lists(m: &IndexLists) -> (keys: Vec<u64>)
    ensures
        forall|i: int, j: int| 0 <= i < j < keys@.len() ==> keys@[i] < keys@[j],
        forall|k: u64| keys@.contains(k) <==> m@.contains_key(k),
{
    broadcast use vstd::std_specs::btree::group_btree_axioms;
    broadcast use vstd::laws_cmp::group_laws_cmp;

    let mut keys: Vec<u64> = Vec::new();
    let it = m.iter();
    let ghost all = it.remaining();
    for kv in iter: it
        invariant
            iter.seq() == all,
            keys@.len() == iter.index(),
            forall|i: int| 0 <= i < keys@.len() ==> keys@[i] == *all[i].0,
    {
        keys.push(*kv.0);
    }
    let ghost ks = all.map_values(|kv: (&u64, &Vec<usize>)| *kv.0);
    assert(keys@ =~= ks);
    assert(vstd::std_specs::btree::increasing_seq(ks));
    assert forall|i: int, j: int| 0 <= i < j < keys@.len() implies keys@[i] < keys@[j] by {
        assert(ks[i].cmp_spec(&ks[j]) is Less);
    }
    assert forall|k: u64| keys@.contains(k) implies m@.contains_key(k) by {
        let i = choose|i: int| 0 <= i < keys@.len() && keys@[i] == k;
        assert(m@.contains_key(*all[i].0));
    }
    assert forall|k: u64| m@.contains_key(k) implies keys@.contains(k) by {
        assert(all.contains((&k, &m@[k])));
        let i = choose|i: int| 0 <= i < all.len() && all[i] == (&k, &m@[k]);
        assert(keys@[i] == k);
    }
    keys
}

/// The list kept under a key.
pub(crate) fn list_at(m: &IndexLists, u: u64) -> (r: &Vec<usize>)
    requires
        m@.contains_key(u),
    ensures
        r@ == kept(m@, u),
{
    broadcast use vstd::std_specs::btree::group_btree_axioms;
    broadcast use vstd::laws_cmp::group_laws_cmp;

    m.get(&u).unwrap()
}

/// The edges that leave each node.
fn edges_by_node(edges: &[DirEdge]) -> (out: IndexLists)
    ensures
        forall|u: u64| #[trigger] kept(out@, u) == leaving(edges@, u, edges@.len()),
{
    let mut out: IndexLists = BTreeMap::new();
    let mut i: usize = 0;
    while i < edges.len()
        invariant
            i <= edges@.len(),
            forall|u: u64| #[trigger] kept(out@, u) == leaving(edges@, u, i as nat),
        decreases edges@.len() - i,
    {
        append_index(&mut out, edges[i].from, i);
        i += 1;
    }
    out
}

/// [`next_edge`] of one edge, from the lists of leaving edges.
fn following_edge(edges: &[DirEdge], out: &IndexLists, e: DirEdge) -> (r: Option<usize>)
    requires
        edges_wf(edges@),
        edge_wf(e),
        forall|u: u64| #[trigger] kept(out@, u) == leaving(edges@, u, edges@.len()),
    ensures
        r == follower(edges@, e),
{
    broadcast use vstd::std_specs::btree::group_btree_axioms;
    broadcast use vstd::laws_cmp::group_laws_cmp;

    let _n: usize = edges.len();
    proof {
        lemma_leaving(edges@, e.to, edges@.len());
        assert(kept(out@, e.to) == leaving(edges@, e.to, edges@.len()));
    }
    let back: (i64, i64) = run_of(e.to, e.from);
    match out.get(&e.to) {
        Some(list) => {
            match widest_of(edges, list, Some(back)) {
                Some(k) => Some(k),
                None => widest_of(edges, list, None),
            }
        },
        None => None,
    }
}

/// [`widest`] of a whole list.
fn widest_of(edges: &[DirEdge], list: &Vec<usize>, limit: Option<(i64, i64)>) -> (r: Option<usize>)
    requires
        edges_wf(edges@),
        forall|j: int| 0 <= j < list@.len() ==> #[trigger] list@[j] < edges@.len(),
        match limit {
            Some(d) => -0x8000_0000 <= d.0 <= 0x7FFF_FFFF && -0x8000_0000 <= d.1 <= 0x7FFF_FFFF,
            None => true,
        },
    ensures
        r == widest(
            edges@,
            list@,
            list@.len(),
            match limit {
                Some(d) => Some((d.0 as int, d.1 as int)),
                None => None,
            },
        ),
{
    let ghost lim: Option<(int, int)> = match limit {
        Some(d) => Some((d.0 as int, d.1 as int)),
        None => None,
    };
    let mut best: Option<usize> = None;
    let mut j: usize = 0;
    while j < list.len()
        invariant
            j <= list@.len(),
            edges_wf(edges@),
            forall|j: int| 0 <= j < list@.len() ==> #[trigger] list@[j] < edges@.len(),
            match limit {
                Some(d) => -0x8000_0000 <= d.0 <= 0x7FFF_FFFF && -0x8000_0000 <= d.1 <= 0x7FFF_FFFF,
                None => true,
            },
            lim == (match limit {
                Some(d) => Some((d.0 as int, d.1 as int)),
                None => None,
            }),
            best == widest(edges@, list@, j as nat, lim),
            match best {
                Some(b) => b < edges@.len(),
                None => true,
            },
        decreases list@.len() - j,
    {
        let k: usize = list[j];
        assert(edge_wf(edges@[k as int]));
        let d: (i64, i64) = run_of(edges[k].from, edges[k].to);
        let counts: bool = match limit {
            Some(l) => comes_before(d, l),
            None => true,
        };
        if counts {
            best = match best {
                Some(b) => {
                    assert(edge_wf(edges@[b as int]));
                    let bd: (i64, i64) = run_of(edges[b].from, edges[b].to);
                    if comes_before(d, bd) {
                        Some(b)
                    } else {
                        Some(k)
                    }
                },
                None => Some(k),
            };
        }
        j += 1;
    }
    best
}

/// [`next_edge`] of every edge; the number of edges stands for none.
fn next_edges(edges: &[DirEdge]) -> (next: Vec<usize>)
    requires
        edges_wf(edges@),
    ensures
        next@.len() == edges@.len(),
        forall|i: int|
            0 <= i < next@.len() ==> #[trigger] next@[i] == (match next_edge(edges@, i) {
                Some(k) => k as int,
                None => edges@.len() as int,
            }),
{
    let out = edges_by_node(edges);
    let n: usize = edges.len();
    let mut next: Vec<usize> = Vec::new();
    let mut i: usize = 0;
    while i < n
        invariant
            i <= n == edges@.len(),
            next@.len() == i,
            edges_wf(edges@),
            forall|u: u64| #[trigger] kept(out@, u) == leaving(edges@, u, edges@.len()),
            forall|j: int|
                0 <= j < i ==> #[trigger] next@[j] == (match next_edge(edges@, j) {
                    Some(k) => k as int,
                    None => edges@.len() as int,
                }),
        decreases n - i,
    {
        assert(edge_wf(edges@[i as int]));
        let following: Option<usize> = following_edge(edges, &out, edges[i]);
        proof {
            lemma_next_edge(edges@, i as int);
        }
        next.push(
            match following {
                Some(k) => k,
                None => n,
            },
        );
        i += 1;
    }
    next
}

/// Walk from an unused edge along the unused edges that follow it. Gives the
/// nodes passed, and whether the walk came back to its first edge.
fn walk_from(edges: &[DirEdge], next: &Vec<usize>, used: &mut Vec<bool>, start: usize) -> (r: (
    Vec<u64>,
    bool,
))
    requires
        start < edges@.len(),
        old(used)@.len() == edges@.len(),
        next@.len() == edges@.len(),
        forall|i: int|
            0 <= i < next@.len() ==> #[trigger] next@[i] == (match next_edge(edges@, i) {
                Some(k) => k as int,
                None => edges@.len() as int,
            }),
    ensures
        ({
            let w = walk(edges@, old(used)@, start as int, start as int);
            &&& final(used)@ == w.used
            &&& r.1 == w.closed
            &&& r.0@ == w.path.map_values(|i: int| edges@[i].from)
        }),
{
    let n: usize = edges.len();
    let mut nodes: Vec<u64> = Vec::new();
    let mut cur: usize = start;
    let mut closed: bool = false;
    let ghost whole = walk(edges@, used@, start as int, start as int);
    let ghost mut done: Seq<int> = seq![];
    let ghost mut going: bool = true;
    loop
        invariant_except_break
            start < n,
            cur < n,
            !closed,
            whole.used == walk(edges@, used@, start as int, cur as int).used,
            whole.closed == walk(edges@, used@, start as int, cur as int).closed,
            whole.path == done + walk(edges@, used@, start as int, cur as int).path,
            nodes@ == done.map_values(|i: int| edges@[i].from),
        invariant
            n == edges@.len(),
            used@.len() == n,
            next@.len() == n,
            forall|i: int|
                0 <= i < next@.len() ==> #[trigger] next@[i] == (match next_edge(edges@, i) {
                    Some(k) => k as int,
                    None => edges@.len() as int,
                }),
        ensures
            used@ == whole.used,
            closed == whole.closed,
            nodes@ == whole.path.map_values(|i: int| edges@[i].from),
        decreases free(used@),
    {
        if used[cur] {
            closed = cur == start;
            assert(whole.path =~= done);
            break;
        }
        proof {
            lemma_next_edge(edges@, cur as int);
            lemma_free_update(used@, cur as int);
            assert(next@[cur as int] <= n);
        }
        let ghost old_done = done;
        used[cur] = true;
        nodes.push(edges[cur].from);
        proof {
            done = done.push(cur as int);
            assert(nodes@ =~= done.map_values(|i: int| edges@[i].from));
        }
        let following: usize = next[cur];
        if following >= n {
            assert(whole.path =~= done);
            break;
        }
        proof {
            let rest = walk(edges@, used@, start as int, following as int);
            assert(old_done + (seq![cur as int] + rest.path) =~= done + rest.path);
        }
        cur = following;
    }
    (nodes, closed)
}

/// The closed faces that the half-edges bound, each found from its first edge.
pub fn trace_faces(edges: &[DirEdge]) -> (faces: Vec<Face>)
    requires
        edges_wf(edges@),
    ensures
        ({
            let loops = traced(edges@, edges@.len()).loops;
            &&& faces@.len() == loops.len()
            &&& forall|i: int|
                0 <= i < loops.len() ==> is_face_of(#[trigger] faces@[i], edges@, loops[i])
        }),
{
    let n: usize = edges.len();
    let next = next_edges(edges);
    let mut used: Vec<bool> = Vec::new();
    let mut i: usize = 0;
    while i < n
        invariant
            i <= n,
            used@ == Seq::new(i as nat, |j: int| false),
        decreases n - i,
    {
        used.push(false);
        assert(used@ =~= Seq::new((i + 1) as nat, |j: int| false));
        i += 1;
    }
    let mut faces: Vec<Face> = Vec::new();
    let mut start: usize = 0;
    while start < n
        invariant
            start <= n == edges@.len(),
            next@.len() == edges@.len(),
            forall|i: int|
                0 <= i < next@.len() ==> #[trigger] next@[i] == (match next_edge(edges@, i) {
                    Some(k) => k as int,
                    None => edges@.len() as int,
                }),
            used@.len() == n,
            used@ == traced(edges@, start as nat).used,
            faces@.len() == traced(edges@, start as nat).loops.len(),
            forall|i: int|
                0 <= i < faces@.len() ==> is_face_of(
                    #[trigger] faces@[i],
                    edges@,
                    traced(edges@, start as nat).loops[i],
                ),
        decreases n - start,
    {
        if !used[start] {
            proof {
                lemma_walk(edges@, used@, start as int, start as int);
            }
            let (nodes, closed) = walk_from(edges, &next, &mut used, start);
            if nodes.len() >= 3 && closed {
                faces.push(Face { nodes, color: edges[start].color });
            }
        }
        start += 1;
    }
    faces
}

/// What holds of a walk: it passes edges that were unused, each once, marks
/// those and no others, and each leads to the one after it; where it closes,
/// the last leads to the first.
proof fn lemma_walk(edges: Seq<DirEdge>, used: Seq<bool>, start: int, cur: int)
    requires
        used.len() == edges.len() <= usize::MAX,
        0 <= cur < edges.len(),
    ensures
        ({
            let w = walk(edges, used, start, cur);
            &&& w.used.len() == used.len()
            &&& !used[cur] ==> w.path.len() > 0 && w.path[0] == cur
            &&& used[cur] ==> w.path.len() == 0
            &&& forall|j: int|
                #![trigger w.path[j]]
                0 <= j < w.path.len() ==> 0 <= w.path[j] < used.len() && !used[w.path[j]]
                    && w.used[w.path[j]]
            &&& forall|i: int|
                0 <= i < used.len() ==> (#[trigger] w.used[i] <==> used[i] || w.path.contains(i))
            &&& w.path.no_duplicates()
            &&& forall|j: int|
                0 <= j < w.path.len() - 1 ==> #[trigger] leads_to(edges, w.path[j], w.path[j + 1])
            &&& w.closed && w.path.len() > 0 ==> leads_to(edges, w.path.last(), start)
            &&& w.closed && w.path.len() == 0 ==> cur == start
        }),
    decreases free(used),
{
    if !used[cur] {
        lemma_free_update(used, cur);
        lemma_next_edge(edges, cur);
        let after = used.update(cur, true);
        let w = walk(edges, used, start, cur);
        match next_edge(edges, cur) {
            Some(k) => {
                lemma_walk(edges, after, start, k as int);
                let rest = walk(edges, after, start, k as int);
                assert(w.path =~= seq![cur] + rest.path);
                assert(leads_to(edges, cur, k as int));
                assert(w.path[0] == cur);
                assert forall|j: int| 0 < j < w.path.len() implies w.path[j] == rest.path[j - 1] by {}
                assert forall|i: int| rest.path.contains(i) implies w.path.contains(i) by {
                    let j = choose|j: int| 0 <= j < rest.path.len() && rest.path[j] == i;
                    assert(w.path[j + 1] == i);
                }
                assert(w.path.contains(cur));
                assert forall|i: int|
                    0 <= i < used.len() implies (#[trigger] w.used[i] <==> used[i]
                    || w.path.contains(i)) by {
                    assert(rest.used[i] <==> after[i] || rest.path.contains(i));
                    if w.path.contains(i) && i != cur {
                        let j = choose|j: int| 0 <= j < w.path.len() && w.path[j] == i;
                        assert(rest.path[j - 1] == i);
                    }
                }
                assert forall|j: int| #![trigger w.path[j]] 0 <= j < w.path.len() implies 0 <= w.path[j] < used.len() && !used[w.path[j]]
                    && w.used[w.path[j]] by {
                    if j > 0 {
                        assert(!after[rest.path[j - 1]]);
                    } else {
                        assert(rest.used[cur] <==> after[cur] || rest.path.contains(cur));
                    }
                }
                assert forall|i: int, j: int|
                    0 <= i < w.path.len() && 0 <= j < w.path.len() && i != j implies w.path[i]
                    != w.path[j] by {
                    if i > 0 && j > 0 {
                        assert(rest.path[i - 1] != rest.path[j - 1]);
                    } else if i > 0 {
                        assert(!after[rest.path[i - 1]]);
                    } else {
                        assert(!after[rest.path[j - 1]]);
                    }
                }
                assert forall|j: int| 0 <= j < w.path.len() - 1 implies #[trigger] leads_to(
                    edges,
                    w.path[j],
                    w.path[j + 1],
                ) by {
                    if j > 0 {
                        assert(leads_to(edges, rest.path[j - 1], rest.path[j - 1 + 1]));
                    } else {
                        assert(rest.path[0] == k as int);
                    }
                }
            },
            None => {
                assert(w.path =~= seq![cur]);
                assert(w.path[0] == cur);
            },
        }
    }
}

/// The second edge follows the first, and leaves the node where it ends.
pub open spec fn leads_to(edges: Seq<DirEdge>, i: int, k: int) -> bool {
    &&& next_edge(edges, i) == Some(k as usize)
    &&& edges[k].from == edges[i].to
}

/// Every face is a closed loop of three or more edges: each edge ends where
/// the next begins, and the last ends where the first begins.
pub proof fn law_faces_are_closed(edges: Seq<DirEdge>, f: int)
    requires
        edges.len() <= usize::MAX,
        0 <= f < traced(edges, edges.len()).loops.len(),
    ensures
        ({
            let l = traced(edges, edges.len()).loops[f];
            &&& l.len() >= 3
            &&& forall|j: int| 0 <= j < l.len() ==> 0 <= #[trigger] l[j] < edges.len()
            &&& forall|j: int| 0 <= j < l.len() - 1 ==> #[trigger] leads_to(edges, l[j], l[j + 1])
            &&& leads_to(edges, l.last(), l[0])
        }),
{
    lemma_traced(edges, edges.len());
}

/// No edge bounds two faces, or one face twice.
pub proof fn law_edges_bound_one_face(edges: Seq<DirEdge>, f: int, j: int, g: int, k: int)
    requires
        edges.len() <= usize::MAX,
        0 <= f < traced(edges, edges.len()).loops.len(),
        0 <= g < traced(edges, edges.len()).loops.len(),
        0 <= j < traced(edges, edges.len()).loops[f].len(),
        0 <= k < traced(edges, edges.len()).loops[g].len(),
        traced(edges, edges.len()).loops[f][j] == traced(edges, edges.len()).loops[g][k],
    ensures
        f == g,
        j == k,
{
    lemma_traced(edges, edges.len());
    let t = traced(edges, edges.len());
    if f == g {
        assert(t.loops[f].no_duplicates());
    }
}

pub open spec fn loop_wf(edges: Seq<DirEdge>, used: Seq<bool>, l: Seq<int>) -> bool {
    &&& l.len() >= 3
    &&& l.no_duplicates()
    &&& forall|j: int|
        0 <= j < l.len() ==> 0 <= #[trigger] l[j] < edges.len() && used[l[j]]
    &&& forall|j: int| 0 <= j < l.len() - 1 ==> #[trigger] leads_to(edges, l[j], l[j + 1])
    &&& leads_to(edges, l.last(), l[0])
}

proof fn lemma_traced(edges: Seq<DirEdge>, n: nat)
    requires
        n <= edges.len() <= usize::MAX,
    ensures
        ({
            let t = traced(edges, n);
            &&& t.used.len() == edges.len()
            &&& forall|f: int|
                0 <= f < t.loops.len() ==> loop_wf(edges, t.used, #[trigger] t.loops[f])
            &&& forall|f: int, j: int, g: int, k: int|
                #![trigger t.loops[f][j], t.loops[g][k]]
                0 <= f < t.loops.len() && 0 <= g < t.loops.len() && f != g && 0 <= j
                    < t.loops[f].len() && 0 <= k < t.loops[g].len() ==> t.loops[f][j]
                    != t.loops[g][k]
        }),
    decreases n,
{
    if n > 0 {
        lemma_traced(edges, (n - 1) as nat);
        let p = traced(edges, (n - 1) as nat);
        let t = traced(edges, n);
        let start = n - 1;
        if !p.used[start] {
            lemma_walk(edges, p.used, start, start);
            let w = walk(edges, p.used, start, start);
            assert forall|f: int| 0 <= f < t.loops.len() implies loop_wf(
                edges,
                t.used,
                #[trigger] t.loops[f],
            ) by {
                if f < p.loops.len() {
                    assert(t.loops[f] == p.loops[f]);
                    assert(loop_wf(edges, p.used, p.loops[f]));
                    let l = p.loops[f];
                    assert forall|j: int| 0 <= j < l.len() implies 0 <= #[trigger] l[j]
                        < edges.len() && t.used[l[j]] by {
                        assert(p.used[l[j]]);
                        assert(w.used[l[j]] <==> p.used[l[j]] || w.path.contains(l[j]));
                    }
                } else {
                    assert(t.loops[f] == w.path);
                }
            }
            assert forall|f: int, j: int, g: int, k: int|
                #![trigger t.loops[f][j], t.loops[g][k]]
                0 <= f < t.loops.len() && 0 <= g < t.loops.len() && f != g && 0 <= j
                    < t.loops[f].len() && 0 <= k < t.loops[g].len() implies t.loops[f][j]
                != t.loops[g][k] by {
                if f < p.loops.len() {
                    assert(t.loops[f] == p.loops[f]);
                    assert(loop_wf(edges, p.used, p.loops[f]));
                    assert(p.used[p.loops[f][j]]);
                } else {
                    assert(t.loops[f] == w.path);
                    assert(!p.used[w.path[j]]);
                }
                if g < p.loops.len() {
                    assert(t.loops[g] == p.loops[g]);
                    assert(loop_wf(edges, p.used, p.loops[g]));
                    assert(p.used[p.loops[g][k]]);
                } else {
                    assert(t.loops[g] == w.path);
                    assert(!p.used[w.path[k]]);
                }
            }
        }
    }
}

// ── From cells to faces ──

/// The node lies in a box of quarter pixels.
pub open spec fn node_in(nid: u64, x0: int, x1: int, y0: int, y1: int) -> bool {
    x0 <= node_x(nid) <= x1 && y0 <= node_y(nid) <= y1
}

proof fn lemma_node_at(x: int, y: int)
    requires
        i32::MIN <= x <= i32::MAX,
        i32::MIN <= y <= i32::MAX,
    ensures
        node_x(node_id(x, y)) == x,
        node_y(node_id(x, y)) == y,
{
    law_nodes_unpack(x as i32, y as i32);
}

/// A corner's nodes are one, or two different ones, and lie in a box.
spec fn corner_in(nodes: Seq<u64>, x0: int, x1: int, y0: int, y1: int) -> bool {
    &&& 1 <= nodes.len() <= 2
    &&& forall|j: int| 0 <= j < nodes.len() ==> node_in(#[trigger] nodes[j], x0, x1, y0, y1)
    &&& nodes.len() == 2 ==> nodes[0] != nodes[1]
}

proof fn lemma_corners(x: int, y: int, d: u8)
    requires
        0 <= x < i32::MAX - 5,
        0 <= y < i32::MAX - 5,
    ensures
        corner_in(top_left(x, y, d), x - 1, x + 1, y - 1, y + 1),
        corner_in(top_right(x, y, d), x + 3, x + 5, y - 1, y + 1),
        corner_in(bottom_right(x, y, d), x + 3, x + 5, y + 3, y + 5),
        corner_in(bottom_left(x, y, d), x - 1, x + 1, y + 3, y + 5),
        d != 1 && d != 2 ==> corner_in(top_left(x, y, d), x, x, y, y) && corner_in(
            top_right(x, y, d),
            x + 4,
            x + 4,
            y,
            y,
        ) && corner_in(bottom_right(x, y, d), x + 4, x + 4, y + 4, y + 4) && corner_in(
            bottom_left(x, y, d),
            x,
            x,
            y + 4,
            y + 4,
        ),
{
    lemma_node_at(x, y);
    lemma_node_at(x + 1, y + 1);
    lemma_node_at(x - 1, y + 1);
    lemma_node_at(x + 1, y - 1);
    lemma_node_at(x + 4, y);
    lemma_node_at(x + 3, y + 1);
    lemma_node_at(x + 3, y - 1);
    lemma_node_at(x + 5, y + 1);
    lemma_node_at(x + 4, y + 4);
    lemma_node_at(x + 3, y + 3);
    lemma_node_at(x + 5, y + 3);
    lemma_node_at(x + 3, y + 5);
    lemma_node_at(x, y + 4);
    lemma_node_at(x + 1, y + 3);
    lemma_node_at(x + 1, y + 5);
    lemma_node_at(x - 1, y + 3);
}

/// A cell has a node for each corner of its pixel, and one more where a diagonal
/// pulls the corner out; none lies more than a quarter pixel outside the pixel.
pub proof fn law_cells_stay_by_their_pixels(g: Seq<u32>, w: int, h: int, px: int, py: int)
    requires
        faces_wf(g, w, h),
        0 <= px < w,
        0 <= py < h,
    ensures
        ({
            let nodes = cell_nodes(g, w, h, px, py);
            let pulled = |cx: int, cy: int, d: u8|
                if diagonal_at(g, w, h, cx, cy) == d {
                    1int
                } else {
                    0int
                };
            &&& nodes.len() == 4 + pulled(px, py, 1) + pulled(px + 1, py, 2) + pulled(
                px + 1,
                py + 1,
                1,
            ) + pulled(px, py + 1, 2)
            &&& forall|j: int|
                0 <= j < nodes.len() ==> node_in(
                    #[trigger] nodes[j],
                    4 * px - 1,
                    4 * px + 5,
                    4 * py - 1,
                    4 * py + 5,
                )
        }),
{
    lemma_corners(4 * px, 4 * py, diagonal_at(g, w, h, px, py));
    lemma_corners(4 * px, 4 * py, diagonal_at(g, w, h, px + 1, py));
    lemma_corners(4 * px, 4 * py, diagonal_at(g, w, h, px + 1, py + 1));
    lemma_corners(4 * px, 4 * py, diagonal_at(g, w, h, px, py + 1));
}

/// The corners of a cell lie on the picture, and neighbouring ones differ.
pub proof fn law_cells_are_proper(g: Seq<u32>, w: int, h: int, px: int, py: int)
    requires
        faces_wf(g, w, h),
        0 <= px < w,
        0 <= py < h,
    ensures
        ({
            let nodes = cell_nodes(g, w, h, px, py);
            &&& 4 <= nodes.len() <= 8
            &&& forall|j: int|
                0 <= j < nodes.len() ==> node_in(#[trigger] nodes[j], 0, 4 * w, 0, 4 * h)
            &&& forall|j: int|
                0 <= j < nodes.len() - 1 ==> #[trigger] nodes[j] != nodes[j + 1]
            &&& nodes.last() != nodes[0]
        }),
{
    let x = 4 * px;
    let y = 4 * py;
    let tl = diagonal_at(g, w, h, px, py);
    let tr = diagonal_at(g, w, h, px + 1, py);
    let br = diagonal_at(g, w, h, px + 1, py + 1);
    let bl = diagonal_at(g, w, h, px, py + 1);
    reveal(diagonal_at);
    lemma_corners(x, y, tl);
    lemma_corners(x, y, tr);
    lemma_corners(x, y, br);
    lemma_corners(x, y, bl);
    let a = top_left(x, y, tl);
    let b = top_right(x, y, tr);
    let c = bottom_right(x, y, br);
    let d = bottom_left(x, y, bl);
    assert(corner_in(a, 0, x + 1, 0, y + 1));
    assert(corner_in(b, x + 3, 4 * w, 0, y + 1));
    assert(corner_in(c, x + 3, 4 * w, y + 3, 4 * h));
    assert(corner_in(d, 0, x + 1, y + 3, 4 * h));
    lemma_ring(a, b, c, d, x, y, w, h);
}

proof fn lemma_ring(
    a: Seq<u64>,
    b: Seq<u64>,
    c: Seq<u64>,
    d: Seq<u64>,
    x: int,
    y: int,
    w: int,
    h: int,
)
    requires
        corner_in(a, 0, x + 1, 0, y + 1),
        corner_in(b, x + 3, 4 * w, 0, y + 1),
        corner_in(c, x + 3, 4 * w, y + 3, 4 * h),
        corner_in(d, 0, x + 1, y + 3, 4 * h),
        0 <= x <= 4 * w - 4,
        0 <= y <= 4 * h - 4,
    ensures
        ({
            let nodes = a + b + c + d;
            &&& 4 <= nodes.len() <= 8
            &&& forall|j: int|
                0 <= j < nodes.len() ==> node_in(#[trigger] nodes[j], 0, 4 * w, 0, 4 * h)
            &&& forall|j: int|
                0 <= j < nodes.len() - 1 ==> #[trigger] nodes[j] != nodes[j + 1]
            &&& nodes.last() != nodes[0]
        }),
{
    let nodes = a + b + c + d;
    let ab = a.len() as int;
    let bc = ab + b.len();
    let cd = bc + c.len();
    assert forall|j: int| 0 <= j < nodes.len() implies node_in(
        #[trigger] nodes[j],
        0,
        4 * w,
        0,
        4 * h,
    ) by {
        if j < ab {
            assert(nodes[j] == a[j]);
        } else if j < bc {
            assert(nodes[j] == b[j - ab]);
        } else if j < cd {
            assert(nodes[j] == c[j - bc]);
        } else {
            assert(nodes[j] == d[j - cd]);
        }
    }
    assert forall|j: int| 0 <= j < nodes.len() - 1 implies #[trigger] nodes[j] != nodes[j + 1] by {
        if j + 1 < ab {
            assert(nodes[j] == a[0] && nodes[j + 1] == a[1]);
        } else if j + 1 == ab {
            assert(nodes[j] == a[j] && nodes[j + 1] == b[0]);
            assert(node_in(a[j], 0, x + 1, 0, y + 1) && node_in(b[0], x + 3, 4 * w, 0, y + 1));
        } else if j + 1 < bc {
            assert(nodes[j] == b[0] && nodes[j + 1] == b[1]);
        } else if j + 1 == bc {
            assert(nodes[j] == b[j - ab] && nodes[j + 1] == c[0]);
            assert(node_in(c[0], x + 3, 4 * w, y + 3, 4 * h));
        } else if j + 1 < cd {
            assert(nodes[j] == c[0] && nodes[j + 1] == c[1]);
        } else if j + 1 == cd {
            assert(nodes[j] == c[j - bc] && nodes[j + 1] == d[0]);
            assert(node_in(d[0], 0, x + 1, y + 3, 4 * h));
        } else {
            assert(nodes[j] == d[0] && nodes[j + 1] == d[1]);
        }
    }
    assert(nodes.last() == d.last());
    assert(nodes[0] == a[0]);
    assert(node_in(d[d.len() - 1], 0, x + 1, y + 3, 4 * h) && node_in(a[0], 0, x + 1, 0, y + 1));
}

/// The edge joins two different nodes of a picture.
spec fn key_wf(k: u128, w: int, h: int) -> bool {
    &&& key_low(k) != key_high(k)
    &&& node_in(key_low(k), 0, 4 * w, 0, 4 * h)
    &&& node_in(key_high(k), 0, 4 * w, 0, 4 * h)
}

spec fn keys_wf(m: EdgeColors, w: int, h: int) -> bool {
    forall|k: u128| #[trigger] m.contains_key(k) ==> key_wf(k, w, h)
}

proof fn lemma_edge_key(a: u64, b: u64)
    ensures
        a <= b ==> key_low(edge_key(a, b)) == a && key_high(edge_key(a, b)) == b,
        a > b ==> key_low(edge_key(a, b)) == b && key_high(edge_key(a, b)) == a,
{
    let (lo, hi) = if a <= b {
        (a, b)
    } else {
        (b, a)
    };
    let k = lo * 0x1_0000_0000_0000_0000 + hi;
    assert(0 <= k <= u128::MAX);
    assert(k / 0x1_0000_0000_0000_0000 == lo);
    assert(k % 0x1_0000_0000_0000_0000 == hi as int);
}

proof fn lemma_cell_keys(m: EdgeColors, nodes: Seq<u64>, color: u32, n: nat, w: int, h: int)
    requires
        keys_wf(m, w, h),
        n <= nodes.len(),
        4 <= nodes.len(),
        forall|j: int| 0 <= j < nodes.len() ==> node_in(#[trigger] nodes[j], 0, 4 * w, 0, 4 * h),
        forall|j: int| 0 <= j < nodes.len() - 1 ==> #[trigger] nodes[j] != nodes[j + 1],
        nodes.last() != nodes[0],
    ensures
        keys_wf(cell_colored(m, nodes, color, n), w, h),
    decreases n,
{
    if n > 0 {
        lemma_cell_keys(m, nodes, color, (n - 1) as nat, w, h);
        let i = n - 1;
        let j = if i + 1 < nodes.len() {
            i + 1
        } else {
            0
        };
        lemma_edge_key(nodes[i], nodes[j]);
        assert(node_in(nodes[i], 0, 4 * w, 0, 4 * h));
        assert(node_in(nodes[j], 0, 4 * w, 0, 4 * h));
        assert(nodes[i] != nodes[j]);
        assert(key_wf(edge_key(nodes[i], nodes[j]), w, h));
    }
}

proof fn lemma_picture_keys(g: Seq<u32>, px: Seq<u32>, w: int, h: int, n: nat)
    requires
        faces_wf(g, w, h),
        n <= w * h,
    ensures
        keys_wf(picture_colored(g, px, w, h, n), w, h),
    decreases n,
{
    if n > 0 {
        lemma_picture_keys(g, px, w, h, (n - 1) as nat);
        let i = n - 1;
        assert(w > 0) by (nonlinear_arith)
            requires
                0 <= i < w * h,
                0 <= w,
        ;
        lemma_position(i, w, h);
        law_cells_are_proper(g, w, h, i % w, i / w);
        let nodes = cell_nodes(g, w, h, i % w, i / w);
        lemma_cell_keys(
            picture_colored(g, px, w, h, (n - 1) as nat),
            nodes,
            px[i],
            nodes.len(),
            w,
            h,
        );
    }
}

/// The half-edges of any picture can be traced.
pub proof fn law_cell_edges_can_be_traced(
    g: Seq<u32>,
    px: Seq<u32>,
    w: int,
    h: int,
    keys: Seq<u128>,
)
    requires
        faces_wf(g, w, h),
        ascending_keys(picture_colored(g, px, w, h, (w * h) as nat), keys),
    ensures
        edges_wf(half_edges(picture_colored(g, px, w, h, (w * h) as nat), keys)),
{
    let m = picture_colored(g, px, w, h, (w * h) as nat);
    assert(w * h >= 0) by (nonlinear_arith)
        requires
            w >= 0,
            h >= 0,
    ;
    lemma_picture_keys(g, px, w, h, (w * h) as nat);
    assert forall|k: u128| keys.contains(k) implies #[trigger] key_wf(k, w, h) by {
        assert(m.contains_key(k));
    }
    assert forall|i: int| 0 <= i < keys.len() implies key_wf(#[trigger] keys[i], w, h) by {
        assert(keys.contains(keys[i]));
    }
    lemma_half_edges_wf(m, keys, w, h);
}

proof fn lemma_half_edges_wf(m: EdgeColors, keys: Seq<u128>, w: int, h: int)
    requires
        4 * w + 2 <= i32::MAX,
        4 * h + 2 <= i32::MAX,
        forall|i: int| 0 <= i < keys.len() ==> key_wf(#[trigger] keys[i], w, h),
    ensures
        edges_wf(half_edges(m, keys)),
    decreases keys.len(),
{
    if keys.len() > 0 {
        lemma_half_edges_wf(m, keys.drop_last(), w, h);
        assert(key_wf(keys[keys.len() - 1], w, h));
    }
}

} // verus!
