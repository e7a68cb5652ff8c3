//! Decisions of the curve rasterizer: which control points own a span of the
//! curve, which spans can reach a pixel, which of them are nearest, and from
//! which side of a boundary a color is taken. The geometry of the curves is
//! not part of it; distances enter only by their order.

use vstd::prelude::*;

use crate::grid::{cell, lemma_cell};
use crate::scaling::cell_graph::{clamped, in_range, neighbors_in_range, ControlPoint};

verus! {

// ── Colors beside a boundary ──

/// Color of a pixel, with coordinates clamped into the picture.
pub open spec fn pixel_clamped(px: Seq<u32>, w: int, h: int, x: int, y: int) -> u32 {
    px[cell(clamped(x, 0, w - 1), clamped(y, 0, h - 1), w)]
}

/// Colors left and right of the boundary that leaves a corner in direction
/// `dir` (0 north, 1 east, 2 south, 3 west).
pub open spec fn edge_colors(px: Seq<u32>, w: int, h: int, cx: int, cy: int, dir: int) -> (
    u32,
    u32,
) {
    if dir == 0 {
        (pixel_clamped(px, w, h, cx - 1, cy - 1), pixel_clamped(px, w, h, cx, cy - 1))
    } else if dir == 1 {
        (pixel_clamped(px, w, h, cx, cy - 1), pixel_clamped(px, w, h, cx, cy))
    } else if dir == 2 {
        (pixel_clamped(px, w, h, cx, cy), pixel_clamped(px, w, h, cx - 1, cy))
    } else if dir == 3 {
        (pixel_clamped(px, w, h, cx - 1, cy), pixel_clamped(px, w, h, cx - 1, cy - 1))
    } else {
        (0, 0)
    }
}

fn clamp_to(v: i32, n: usize) -> (r: usize)
    requires
        1 <= n <= i32::MAX,
    ensures
        r == clamped(v as int, 0, n - 1),
        r < n,
{
    if v < 0 {
        0
    } else if v as usize > n - 1 {
        n - 1
    } else {
        v as usize
    }
}

/// Color of a pixel, with coordinates clamped into the picture.
pub fn get_px_color(pixels: &[u32], img_w: usize, img_h: usize, px: i32, py: i32) -> (c: u32)
    requires
        1 <= img_w <= i32::MAX,
        1 <= img_h <= i32::MAX,
        pixels@.len() >= img_w * img_h,
    ensures
        c == pixel_clamped(pixels@, img_w as int, img_h as int, px as int, py as int),
{
    let x: usize = clamp_to(px, img_w);
    let y: usize = clamp_to(py, img_h);
    let _n: usize = pixels.len();
    proof {
        lemma_cell(x as int, y as int, img_w as int, img_h as int);
    }
    pixels[y * img_w + x]
}

/// Colors left and right of a boundary.
pub fn get_edge_colors(
    pixels: &[u32],
    img_w: usize,
    img_h: usize,
    icx: i32,
    icy: i32,
    dir: i32,
) -> (r: (u32, u32))
    requires
        1 <= img_w <= i32::MAX,
        1 <= img_h <= i32::MAX,
        pixels@.len() >= img_w * img_h,
        icx > i32::MIN,
        icy > i32::MIN,
    ensures
        r == edge_colors(
            pixels@,
            img_w as int,
            img_h as int,
            icx as int,
            icy as int,
            dir as int,
        ),
{
    match dir {
        0 => (
            get_px_color(pixels, img_w, img_h, icx - 1, icy - 1),
            get_px_color(pixels, img_w, img_h, icx, icy - 1),
        ),
        1 => (
            get_px_color(pixels, img_w, img_h, icx, icy - 1),
            get_px_color(pixels, img_w, img_h, icx, icy),
        ),
        2 => (
            get_px_color(pixels, img_w, img_h, icx, icy),
            get_px_color(pixels, img_w, img_h, icx - 1, icy),
        ),
        3 => (
            get_px_color(pixels, img_w, img_h, icx - 1, icy),
            get_px_color(pixels, img_w, img_h, icx - 1, icy - 1),
        ),
        _ => (0, 0),
    }
}

/// The color with full alpha.
pub fn pack_color(c: u32) -> (r: u32)
    ensures
        r == 0xFF00_0000 + c % 0x100_0000,
{
    0xFF00_0000 + c % 0x100_0000
}

/// Colors on the two sides of a span, and at which end of it they hold.
#[derive(Clone, Copy, PartialEq, Eq, Structural)]
pub struct SideColors {
    pub left: u32,
    pub right: u32,
    pub at_end: bool,
}

/// Colors at the start of a span, if its boundary separates any.
pub open spec fn start_colors(
    px: Seq<u32>,
    w: int,
    h: int,
    cx: int,
    cy: int,
    dir: int,
) -> Option<SideColors> {
    let (l, r) = edge_colors(px, w, h, cx, cy, dir);
    if dir >= 0 && l != r {
        Some(SideColors { left: l, right: r, at_end: false })
    } else {
        None
    }
}

/// Colors at the end of a span. The boundary is seen from the other end, so
/// its sides are exchanged.
pub open spec fn end_colors(
    px: Seq<u32>,
    w: int,
    h: int,
    cx: int,
    cy: int,
    dir: int,
) -> Option<SideColors> {
    let (l, r) = edge_colors(px, w, h, cx, cy, dir);
    if dir >= 0 && l != r {
        Some(SideColors { left: r, right: l, at_end: true })
    } else {
        None
    }
}

pub open spec fn or_else(a: Option<SideColors>, b: Option<SideColors>) -> Option<SideColors> {
    if a is Some {
        a
    } else {
        b
    }
}

/// Colors for the early or late part of a span: those of its near end, or of
/// the other end where the near end separates nothing. A chain end has no
/// colors of its own.
pub open spec fn segment_colors(
    px: Seq<u32>,
    w: int,
    h: int,
    c: ControlPoint,
    cx: int,
    cy: int,
    late: bool,
) -> Option<SideColors> {
    let s = start_colors(px, w, h, cx, cy, c.prev_dir as int);
    let e = end_colors(px, w, h, cx, cy, c.next_dir as int);
    if c.prev < 0 {
        e
    } else if c.next < 0 {
        s
    } else if late {
        or_else(e, s)
    } else {
        or_else(s, e)
    }
}

/// Colors for the early or late part of the span of a control point.
pub fn resolve_lut_segment(
    pixels: &[u32],
    img_w: usize,
    img_h: usize,
    c: &ControlPoint,
    icx: i32,
    icy: i32,
    late: bool,
) -> (r: Option<SideColors>)
    requires
        1 <= img_w <= i32::MAX,
        1 <= img_h <= i32::MAX,
        pixels@.len() >= img_w * img_h,
        icx > i32::MIN,
        icy > i32::MIN,
    ensures
        r == segment_colors(
            pixels@,
            img_w as int,
            img_h as int,
            *c,
            icx as int,
            icy as int,
            late,
        ),
{
    let (pl, pr) = get_edge_colors(pixels, img_w, img_h, icx, icy, c.prev_dir);
    let (nl, nr) = get_edge_colors(pixels, img_w, img_h, icx, icy, c.next_dir);
    let prev_valid: bool = c.prev_dir >= 0 && pl != pr;
    let next_valid: bool = c.next_dir >= 0 && nl != nr;
    let use_prev: bool = if c.prev < 0 {
        false
    } else if c.next < 0 || !late {
        prev_valid
    } else {
        prev_valid && !next_valid
    };
    let use_next: bool = if c.prev < 0 {
        next_valid
    } else if c.next < 0 {
        false
    } else if late {
        next_valid
    } else {
        next_valid && !prev_valid
    };
    if use_prev {
        Some(SideColors { left: pl, right: pr, at_end: false })
    } else if use_next {
        Some(SideColors { left: nr, right: nl, at_end: true })
    } else {
        None
    }
}

/// The color on the positive side of a normal, and the one on the other side;
/// `flip` says that the normal opposes the one that the sides refer to.
pub fn sides(s: &SideColors, flip: bool) -> (r: (u32, u32))
    ensures
        r == (if flip {
            (s.right, s.left)
        } else {
            (s.left, s.right)
        }),
{
    if flip {
        (s.right, s.left)
    } else {
        (s.left, s.right)
    }
}

// ── Spans ──

/// Part that a control point plays in drawing its chain.
#[derive(Clone, Copy, PartialEq, Eq, Structural)]
pub enum SpanRole {
    /// It draws nothing.
    Silent,
    /// It draws the curve around itself; the flags tell whether its neighbors
    /// are chain ends, to which the curve is extended.
    Curve { prev_is_end: bool, next_is_end: bool },
    /// It draws the straight line of a chain of two points; its neighbor is
    /// the next (true) or the previous (false) point.
    Line { forward: bool },
}

pub open spec fn is_end(c: ControlPoint) -> bool {
    c.flag as int / 128 % 2 == 1
}

pub open spec fn is_tjunction(c: ControlPoint) -> bool {
    c.flag as int / 32 % 2 == 1
}

pub open spec fn is_crossing(c: ControlPoint) -> bool {
    c.flag as int / 64 % 2 == 1
}

/// The role of a control point. Chain ends draw nothing: the curve of their
/// neighbor reaches them. In a chain of two ends the first one draws.
pub open spec fn span_role(s: Seq<ControlPoint>, i: int) -> SpanRole {
    let c = s[i];
    if c.flag == 0 || (c.prev < 0 && c.next < 0) {
        SpanRole::Silent
    } else if c.prev < 0 || c.next < 0 {
        let other = if c.prev < 0 {
            c.next as int
        } else {
            c.prev as int
        };
        if is_end(s[other]) && i <= other {
            SpanRole::Line { forward: c.prev < 0 }
        } else {
            SpanRole::Silent
        }
    } else {
        SpanRole::Curve {
            prev_is_end: is_end(s[c.prev as int]),
            next_is_end: is_end(s[c.next as int]),
        }
    }
}

fn ends(c: &ControlPoint) -> (r: bool)
    ensures
        r == is_end(*c),
{
    c.flag / 128 % 2 == 1
}

/// The part that a control point plays in drawing its chain.
pub fn role_of(cps: &[ControlPoint], i: usize) -> (r: SpanRole)
    requires
        i < cps@.len() <= i32::MAX,
        neighbors_in_range(cps@),
    ensures
        r == span_role(cps@, i as int),
{
    let c: ControlPoint = cps[i];
    assert(in_range(cps@[i as int], cps@.len() as int));
    if c.flag == 0 || (c.prev < 0 && c.next < 0) {
        return SpanRole::Silent;
    }
    if c.prev < 0 || c.next < 0 {
        let other: usize = if c.prev < 0 {
            c.next as usize
        } else {
            c.prev as usize
        };
        if ends(&cps[other]) && i <= other {
            SpanRole::Line { forward: c.prev < 0 }
        } else {
            SpanRole::Silent
        }
    } else {
        SpanRole::Curve {
            prev_is_end: ends(&cps[c.prev as usize]),
            next_is_end: ends(&cps[c.next as usize]),
        }
    }
}

/// Where on its span the early colors of a control point give way to the late
/// ones.
#[derive(Clone, Copy, PartialEq, Eq, Structural)]
pub enum Branch {
    /// Where the span meets the one that it crosses.
    Crossing,
    /// At the middle of the parameter.
    Middle,
    /// Where the span, extended to a chain end, comes nearest to its middle
    /// point.
    NearMiddle,
}

pub open spec fn branch(s: Seq<ControlPoint>, i: int) -> Branch {
    if is_crossing(s[i]) {
        Branch::Crossing
    } else {
        match span_role(s, i) {
            SpanRole::Curve { prev_is_end, next_is_end } => if prev_is_end || next_is_end {
                Branch::NearMiddle
            } else {
                Branch::Middle
            },
            _ => Branch::Middle,
        }
    }
}

/// Where on its span the early colors of a control point give way to the late
/// ones.
pub fn branch_of(cps: &[ControlPoint], i: usize) -> (r: Branch)
    requires
        i < cps@.len() <= i32::MAX,
        neighbors_in_range(cps@),
    ensures
        r == branch(cps@, i as int),
{
    if cps[i].flag / 64 % 2 == 1 {
        return Branch::Crossing;
    }
    match role_of(cps, i) {
        SpanRole::Curve { prev_is_end, next_is_end } => if prev_is_end || next_is_end {
            Branch::NearMiddle
        } else {
            Branch::Middle
        },
        _ => Branch::Middle,
    }
}

/// Control points among the first `n` that draw something, in order.
pub open spec fn drawing(s: Seq<ControlPoint>, n: nat) -> Seq<usize>
    decreases n,
{
    if n == 0 {
        Seq::empty()
    } else {
        let before = drawing(s, (n - 1) as nat);
        if span_role(s, n - 1) == SpanRole::Silent {
            before
        } else {
            before.push((n - 1) as usize)
        }
    }
}

/// The control points that draw something, in order.
pub fn drawing_points(cps: &[ControlPoint]) -> (r: Vec<usize>)
    requires
        cps@.len() <= i32::MAX,
        neighbors_in_range(cps@),
    ensures
        r@ == drawing(cps@, cps@.len()),
{
    let mut r: Vec<usize> = Vec::new();
    let mut i: usize = 0;
    while i < cps.len()
        invariant
            i <= cps@.len() <= i32::MAX,
            neighbors_in_range(cps@),
            r@ == drawing(cps@, i as nat),
        decreases cps@.len() - i,
    {
        if role_of(cps, i) != SpanRole::Silent {
            r.push(i);
        }
        i = i + 1;
    }
    r
}

// ── Spans near a pixel ──

/// The far end of the stem that leaves the T-junction with slots `slot0` and
/// `slot0 + 1`, or -1.
pub open spec fn stem_far_end(s: Seq<ControlPoint>, slot0: int) -> int {
    let c = s[slot0 + 1];
    if !is_tjunction(s[slot0]) {
        -1
    } else if c.prev >= 0 {
        c.prev as int
    } else {
        c.next as int
    }
}

/// A point lies at one of the four corners of a cell.
pub open spec fn at_cell(i: int, w: int, x: int, y: int) -> bool {
    x <= i / 2 % (w + 1) <= x + 1 && y <= i / 2 / (w + 1) <= y + 1
}

/// Points that a corner of cell `(x, y)` contributes: its two slots, and the
/// far end of a stem that starts there unless that lies at the cell anyway.
pub open spec fn corner_candidates(
    s: Seq<ControlPoint>,
    w: int,
    x: int,
    y: int,
    cx: int,
    cy: int,
) -> Seq<usize> {
    let slot0 = 2 * cell(cx, cy, w + 1);
    let slots = seq![slot0 as usize, (slot0 + 1) as usize];
    let far = stem_far_end(s, slot0);
    if far >= 0 && !at_cell(far, w, x, y) {
        slots.push(far as usize)
    } else {
        slots
    }
}

/// Points whose spans can reach a cell, in the order in which they are tried.
pub open spec fn cell_candidates(s: Seq<ControlPoint>, w: int, x: int, y: int) -> Seq<usize> {
    corner_candidates(s, w, x, y, x, y) + corner_candidates(s, w, x, y, x + 1, y)
        + corner_candidates(s, w, x, y, x, y + 1) + corner_candidates(s, w, x, y, x + 1, y + 1)
}

fn push_corner(
    cps: &[ControlPoint],
    w: usize,
    h: usize,
    x: usize,
    y: usize,
    cx: usize,
    cy: usize,
    out: &mut Vec<usize>,
)
    requires
        cps@.len() == 2 * ((w + 1) * (h + 1)),
        cps@.len() <= i32::MAX,
        neighbors_in_range(cps@),
        x < w,
        y < h,
        cx <= w,
        cy <= h,
    ensures
        final(out)@ == old(out)@ + corner_candidates(
            cps@,
            w as int,
            x as int,
            y as int,
            cx as int,
            cy as int,
        ),
{
    let n: usize = cps.len();
    proof {
        lemma_cell(cx as int, cy as int, w + 1, h + 1);
        lemma_extent(w as int, h as int);
    }
    let ghost before = out@;
    let cw: usize = w + 1;
    let slot0: usize = 2 * (cy * cw + cx);
    out.push(slot0);
    out.push(slot0 + 1);
    assert(out@ =~= before + seq![slot0, (slot0 + 1) as usize]);
    if cps[slot0].flag / 32 % 2 == 1 {
        let c: ControlPoint = cps[slot0 + 1];
        assert(in_range(cps@[slot0 + 1], cps@.len() as int));
        let far: i32 = if c.prev >= 0 {
            c.prev
        } else {
            c.next
        };
        if far >= 0 {
            let fx: usize = far as usize / 2 % cw;
            let fy: usize = far as usize / 2 / cw;
            if !(x <= fx && fx <= x + 1 && y <= fy && fy <= y + 1) {
                out.push(far as usize);
            }
        }
    }
    assert(out@ =~= before + corner_candidates(
        cps@,
        w as int,
        x as int,
        y as int,
        cx as int,
        cy as int,
    ));
}

proof fn lemma_extent(w: int, h: int)
    requires
        0 <= w,
        0 <= h,
        2 * ((w + 1) * (h + 1)) <= i32::MAX,
    ensures
        w + 1 <= i32::MAX,
        h + 1 <= i32::MAX,
{
    let a = w + 1;
    let b = h + 1;
    assert(a <= a * b && b <= a * b) by (nonlinear_arith)
        requires
            1 <= a,
            1 <= b,
    ;
}

/// Points whose spans can reach cell `(x, y)` of a picture.
pub fn candidates(cps: &[ControlPoint], w: usize, h: usize, x: usize, y: usize) -> (r: Vec<usize>)
    requires
        cps@.len() == 2 * ((w + 1) * (h + 1)),
        cps@.len() <= i32::MAX,
        neighbors_in_range(cps@),
        x < w,
        y < h,
    ensures
        r@ == cell_candidates(cps@, w as int, x as int, y as int),
{
    proof {
        lemma_extent(w as int, h as int);
    }
    let mut r: Vec<usize> = Vec::new();
    push_corner(cps, w, h, x, y, x, y, &mut r);
    push_corner(cps, w, h, x, y, x + 1, y, &mut r);
    push_corner(cps, w, h, x, y, x, y + 1, &mut r);
    push_corner(cps, w, h, x, y, x + 1, y + 1, &mut r);
    assert(r@ =~= cell_candidates(cps@, w as int, x as int, y as int));
    r
}

// ── Nearest spans ──

/// A span near a pixel: the rank of its distance and its number.
#[derive(Clone, Copy, PartialEq, Eq, Structural)]
pub struct Hit {
    pub rank: u32,
    pub span: usize,
}

/// The hits so far, nearest first, with one more: it is placed before the
/// first farther one, and only three are kept.
pub open spec fn hit_inserted(hits: Seq<Hit>, hit: Hit) -> Seq<Hit> {
    let at = if hits.len() >= 1 && hit.rank < hits[0].rank {
        0int
    } else if hits.len() >= 2 && hit.rank < hits[1].rank {
        1int
    } else if hits.len() >= 3 && hit.rank < hits[2].rank {
        2int
    } else {
        hits.len() as int
    };
    let all = hits.insert(at, hit);
    if all.len() > 3 {
        all.take(3)
    } else {
        all
    }
}

pub open spec fn hits_wf(hits: Seq<Hit>) -> bool {
    &&& hits.len() <= 3
    &&& forall|i: int, j: int| 0 <= i <= j < hits.len() ==> hits[i].rank <= hits[j].rank
}

/// Add a hit to the three nearest.
pub fn insert_hit(hits: &mut Vec<Hit>, hit: Hit)
    requires
        hits_wf(old(hits)@),
    ensures
        final(hits)@ == hit_inserted(old(hits)@, hit),
        hits_wf(final(hits)@),
{
    let n: usize = hits.len();
    let at: usize = if n >= 1 && hit.rank < hits[0].rank {
        0
    } else if n >= 2 && hit.rank < hits[1].rank {
        1
    } else if n >= 3 && hit.rank < hits[2].rank {
        2
    } else {
        n
    };
    hits.insert(at, hit);
    if hits.len() > 3 {
        hits.truncate(3);
    }
    assert(hits@ =~= hit_inserted(old(hits)@, hit));
}

/// Points of one chain are the same or neighbors.
pub open spec fn same_chain(a: int, ca: ControlPoint, b: int, cb: ControlPoint) -> bool {
    a == b || a == cb.prev || a == cb.next || b == ca.prev || b == ca.next
}

fn on_same_chain(a: usize, ca: &ControlPoint, b: usize, cb: &ControlPoint) -> (r: bool)
    requires
        a <= i32::MAX,
        b <= i32::MAX,
    ensures
        r == same_chain(a as int, *ca, b as int, *cb),
{
    a == b || a as i32 == cb.prev || a as i32 == cb.next || b as i32 == ca.prev || b as i32
        == ca.next
}

/// The first hit on another chain than span `first`, within the reach `limit`.
pub open spec fn second_hit(
    s: Seq<ControlPoint>,
    hits: Seq<Hit>,
    first: int,
    limit: u32,
    from: int,
) -> Option<usize>
    decreases hits.len() - from,
{
    if from >= hits.len() {
        None
    } else {
        let b = hits[from].span as int;
        if b != first && hits[from].rank < limit && !same_chain(first, s[first], b, s[b]) {
            Some(from as usize)
        } else {
            second_hit(s, hits, first, limit, from + 1)
        }
    }
}

/// Position among the hits of the first one on another chain than `first`.
pub fn find_second(cps: &[ControlPoint], hits: &Vec<Hit>, first: usize, limit: u32) -> (r: Option<
    usize,
>)
    requires
        first < cps@.len() <= i32::MAX,
        forall|i: int| 0 <= i < hits@.len() ==> (#[trigger] hits@[i]).span < cps@.len(),
    ensures
        r == second_hit(cps@, hits@, first as int, limit, 0),
{
    let mut i: usize = 0;
    while i < hits.len()
        invariant
            i <= hits@.len(),
            first < cps@.len() <= i32::MAX,
            forall|k: int| 0 <= k < hits@.len() ==> (#[trigger] hits@[k]).span < cps@.len(),
            second_hit(cps@, hits@, first as int, limit, 0) == second_hit(
                cps@,
                hits@,
                first as int,
                limit,
                i as int,
            ),
        decreases hits@.len() - i,
    {
        let h: Hit = hits[i];
        if h.span != first && h.rank < limit && !on_same_chain(
            first,
            &cps[first],
            h.span,
            &cps[h.span],
        ) {
            return Some(i);
        }
        i = i + 1;
    }
    None
}

// ── Junctions ──

/// Where a partner curve meets the junction: at its start, at its end, or at
/// its own branching parameter.
#[derive(Clone, Copy, PartialEq, Eq, Structural)]
pub enum Meeting {
    Start,
    End,
    Branch,
}

/// How the stem `b` meets the T-junction of the through point `a`: it is the
/// second slot of that corner, or the neighbor whose curve is extended to it.
pub open spec fn stem_meeting(s: Seq<ControlPoint>, a: int, b: int) -> Option<Meeting> {
    let slot1 = a / 2 * 2 + 1;
    let c = s[b];
    if !is_tjunction(s[a]) {
        None
    } else if b == slot1 {
        Some(Meeting::End)
    } else if s[slot1].prev != b && s[slot1].next != b {
        None
    } else if c.prev >= 0 && is_end(s[c.prev as int]) {
        Some(Meeting::Start)
    } else if c.next >= 0 && is_end(s[c.next as int]) {
        Some(Meeting::End)
    } else {
        None
    }
}

/// A junction of two spans: whether the second one is the through curve, and
/// how the other meets it.
#[derive(Clone, Copy, PartialEq, Eq, Structural)]
pub struct Junction {
    pub swapped: bool,
    pub meeting: Meeting,
}

/// The junction that two spans form: a T-junction with either as the through
/// curve, or a crossing at one corner.
pub open spec fn junction(s: Seq<ControlPoint>, a: int, b: int) -> Option<Junction> {
    if stem_meeting(s, a, b) is Some {
        Some(Junction { swapped: false, meeting: stem_meeting(s, a, b)->0 })
    } else if stem_meeting(s, b, a) is Some {
        Some(Junction { swapped: true, meeting: stem_meeting(s, b, a)->0 })
    } else if is_crossing(s[a]) && is_crossing(s[b]) && a / 2 == b / 2 {
        Some(Junction { swapped: false, meeting: Meeting::Branch })
    } else {
        None
    }
}

fn find_stem_meeting(cps: &[ControlPoint], a: usize, b: usize) -> (r: Option<Meeting>)
    requires
        a < cps@.len(),
        b < cps@.len(),
        cps@.len() <= i32::MAX,
        cps@.len() % 2 == 0,
        neighbors_in_range(cps@),
    ensures
        r == stem_meeting(cps@, a as int, b as int),
{
    if cps[a].flag / 32 % 2 != 1 {
        return None;
    }
    let slot1: usize = a / 2 * 2 + 1;
    if b == slot1 {
        return Some(Meeting::End);
    }
    if cps[slot1].prev != b as i32 && cps[slot1].next != b as i32 {
        return None;
    }
    let c: ControlPoint = cps[b];
    assert(in_range(cps@[b as int], cps@.len() as int));
    if c.prev >= 0 && ends(&cps[c.prev as usize]) {
        Some(Meeting::Start)
    } else if c.next >= 0 && ends(&cps[c.next as usize]) {
        Some(Meeting::End)
    } else {
        None
    }
}

/// The junction that two spans form.
pub fn find_junction(cps: &[ControlPoint], a: usize, b: usize) -> (r: Option<Junction>)
    requires
        a < cps@.len(),
        b < cps@.len(),
        cps@.len() <= i32::MAX,
        cps@.len() % 2 == 0,
        neighbors_in_range(cps@),
    ensures
        r == junction(cps@, a as int, b as int),
{
    if let Some(meeting) = find_stem_meeting(cps, a, b) {
        return Some(Junction { swapped: false, meeting });
    }
    if let Some(meeting) = find_stem_meeting(cps, b, a) {
        return Some(Junction { swapped: true, meeting });
    }
    if cps[a].flag / 64 % 2 == 1 && cps[b].flag / 64 % 2 == 1 && a / 2 == b / 2 {
        Some(Junction { swapped: false, meeting: Meeting::Branch })
    } else {
        None
    }
}

/// A span whose nearest point is an end that another curve shares does not
/// decide the color there.
pub open spec fn defers(s: Seq<ControlPoint>, i: int, at_start: bool, at_end: bool) -> bool {
    let c = s[i];
    let start_open = c.prev < 0 || is_end(s[c.prev as int]);
    let end_open = c.next < 0 || is_end(s[c.next as int]);
    (start_open && at_start) || (end_open && at_end)
}

/// True when the span leaves the color at its nearest point to another one.
pub fn span_defers(cps: &[ControlPoint], i: usize, at_start: bool, at_end: bool) -> (r: bool)
    requires
        i < cps@.len(),
        cps@.len() <= i32::MAX,
        neighbors_in_range(cps@),
    ensures
        r == defers(cps@, i as int, at_start, at_end),
{
    let c: ControlPoint = cps[i];
    assert(in_range(cps@[i as int], cps@.len() as int));
    let start_open: bool = c.prev < 0 || ends(&cps[c.prev as usize]);
    let end_open: bool = c.next < 0 || ends(&cps[c.next as usize]);
    (start_open && at_start) || (end_open && at_end)
}

// ── Mixing at a pixel ──

/// Colors of the four wedges at a junction, by the side of the through curve
/// and then by the part of it: before the junction, or after. A part without
/// colors takes the pixel's own.
pub open spec fn wedges(
    before: Option<(u32, u32)>,
    after: Option<(u32, u32)>,
    own: u32,
) -> Seq<u32> {
    let (b_pos, b_neg) = match before {
        Some(c) => c,
        None => (own, own),
    };
    let (a_pos, a_neg) = match after {
        Some(c) => c,
        None => (own, own),
    };
    seq![b_neg, b_pos, a_neg, a_pos]
}

/// Colors of the four wedges at a junction; each part of the through curve is
/// given by the colors on its positive and on its negative side.
pub fn wedge_colors(before: Option<(u32, u32)>, after: Option<(u32, u32)>, own: u32) -> (r: [u32; 4])
    ensures
        r@ == wedges(before, after, own),
{
    let (b_pos, b_neg) = match before {
        Some(c) => c,
        None => (own, own),
    };
    let (a_pos, a_neg) = match after {
        Some(c) => c,
        None => (own, own),
    };
    let r: [u32; 4] = [b_neg, b_pos, a_neg, a_pos];
    r
}

/// The wedge on a side of the through curve and before or after the junction.
pub fn wedge_index(positive: bool, after: bool) -> (r: usize)
    ensures
        r == (if positive {
            1int
        } else {
            0
        }) + (if after {
            2int
        } else {
            0
        }),
        r < 4,
{
    if after {
        if positive {
            3
        } else {
            2
        }
    } else if positive {
        1
    } else {
        0
    }
}

/// Three stripes between and beside two curves.
#[derive(Clone, Copy, PartialEq, Eq, Structural)]
pub struct Stripes {
    pub a_outer: u32,
    pub middle: u32,
    pub b_outer: u32,
}

/// The stripes that two curves make, each given by the colors on its positive
/// and on its negative side, and by whether the other lies on its positive
/// side. There are none where neither separates colors, or where they do not
/// agree on the color between them.
pub open spec fn stripes(
    a: (u32, u32),
    b: (u32, u32),
    a_faces: bool,
    b_faces: bool,
) -> Option<Stripes> {
    let (a_in, a_out) = if a_faces {
        (a.0, a.1)
    } else {
        (a.1, a.0)
    };
    let (b_in, b_out) = if b_faces {
        (b.0, b.1)
    } else {
        (b.1, b.0)
    };
    if (a.0 == a.1 && b.0 == b.1) || a_in != b_in {
        None
    } else {
        Some(Stripes { a_outer: a_out, middle: a_in, b_outer: b_out })
    }
}

/// The stripes that two curves make.
pub fn stripe_colors(a: (u32, u32), b: (u32, u32), a_faces: bool, b_faces: bool) -> (r: Option<
    Stripes,
>)
    ensures
        r == stripes(a, b, a_faces, b_faces),
{
    let (a_in, a_out) = if a_faces {
        (a.0, a.1)
    } else {
        (a.1, a.0)
    };
    let (b_in, b_out) = if b_faces {
        (b.0, b.1)
    } else {
        (b.1, b.0)
    };
    if (a.0 == a.1 && b.0 == b.1) || a_in != b_in {
        None
    } else {
        Some(Stripes { a_outer: a_out, middle: a_in, b_outer: b_out })
    }
}

// ── Laws ──

/// A chain of two points is drawn exactly once: of two ends that are each
/// other's neighbors, one draws the line and the other is silent.
pub proof fn law_short_chain_is_drawn_once(s: Seq<ControlPoint>, i: int, j: int)
    requires
        0 <= i < j < s.len(),
        s[i].flag != 0,
        s[j].flag != 0,
        is_end(s[i]),
        is_end(s[j]),
        (s[i].prev == j && s[i].next < 0) || (s[i].next == j && s[i].prev < 0),
        (s[j].prev == i && s[j].next < 0) || (s[j].next == i && s[j].prev < 0),
    ensures
        span_role(s, i) is Line,
        span_role(s, j) == SpanRole::Silent,
{
}

/// An end of a longer chain is silent: the curve of its neighbor reaches it.
pub proof fn law_long_chain_ends_are_silent(s: Seq<ControlPoint>, i: int, j: int)
    requires
        0 <= i < s.len(),
        0 <= j < s.len(),
        (s[i].prev == j && s[i].next < 0) || (s[i].next == j && s[i].prev < 0),
        !is_end(s[j]),
    ensures
        span_role(s, i) == SpanRole::Silent,
{
}

/// The kept hits are the nearest: whatever is left out is no nearer than any
/// that is kept, and the new one is left out only behind three others.
pub proof fn law_kept_hits_are_nearest(hits: Seq<Hit>, hit: Hit)
    requires
        hits_wf(hits),
    ensures
        hits_wf(hit_inserted(hits, hit)),
        hits.len() < 3 ==> hit_inserted(hits, hit).contains(hit),
        !hit_inserted(hits, hit).contains(hit) ==> forall|i: int|
            0 <= i < 3 ==> (#[trigger] hits[i]).rank <= hit.rank,
        hits.len() == 3 && hit.rank < hits[2].rank ==> hit_inserted(hits, hit).contains(hit),
{
    let at = if hits.len() >= 1 && hit.rank < hits[0].rank {
        0int
    } else if hits.len() >= 2 && hit.rank < hits[1].rank {
        1int
    } else if hits.len() >= 3 && hit.rank < hits[2].rank {
        2int
    } else {
        hits.len() as int
    };
    let all = hits.insert(at, hit);
    assert(all[at] == hit);
    if at < 3 {
        assert(hit_inserted(hits, hit)[at] == hit);
    }
}

/// Packing a color is idempotent and keeps the three channels.
pub proof fn law_pack_color(c: u32)
    ensures
        (0xFF00_0000 + (0xFF00_0000 + c % 0x100_0000) % 0x100_0000) == 0xFF00_0000 + c
            % 0x100_0000,
{
}

} // verus!
