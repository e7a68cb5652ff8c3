//! Decisions of the scanline fill: which control points contribute edges, at
//! which parameters their spans are sampled, and which color lies on which
//! side of an edge on the screen.

use vstd::prelude::*;

use crate::grid::lemma_position;
use crate::scaling::cell_graph::ControlPoint;
use crate::scaling::raster::{
    end_colors, get_edge_colors, is_crossing, is_tjunction, or_else, start_colors, SideColors,
};

verus! {

/// What a control point contributes: its corner, and the colors at the start
/// and at the end of its span, at least one of which separates two colors.
#[derive(Clone, Copy)]
pub struct ScanSpan {
    pub ci: usize,
    pub icx: i32,
    pub icy: i32,
    pub start: Option<SideColors>,
    pub end: Option<SideColors>,
}

/// The corner that control point `ci` belongs to; there are two for each.
pub open spec fn corner_column(ci: int, w: int) -> int {
    ci / 2 % (w + 1)
}

pub open spec fn corner_row(ci: int, w: int) -> int {
    ci / 2 / (w + 1)
}

/// The contribution of a control point. Unused and isolated ones have none,
/// nor those whose boundaries separate equal colors.
pub open spec fn span_at(
    s: Seq<ControlPoint>,
    px: Seq<u32>,
    w: int,
    h: int,
    ci: int,
) -> Option<ScanSpan> {
    let c = s[ci];
    let cx = corner_column(ci, w);
    let cy = corner_row(ci, w);
    let start = start_colors(px, w, h, cx, cy, c.prev_dir as int);
    let end = end_colors(px, w, h, cx, cy, c.next_dir as int);
    if c.flag == 0 || (c.prev < 0 && c.next < 0) || (start is None && end is None) {
        None
    } else {
        Some(ScanSpan { ci: ci as usize, icx: cx as i32, icy: cy as i32, start, end })
    }
}

/// The contributions of the first `n` control points, in order.
pub open spec fn spans(s: Seq<ControlPoint>, px: Seq<u32>, w: int, h: int, n: nat) -> Seq<ScanSpan>
    decreases n,
{
    if n == 0 {
        seq![]
    } else {
        let before = spans(s, px, w, h, (n - 1) as nat);
        match span_at(s, px, w, h, n - 1) {
            Some(p) => before.push(p),
            None => before,
        }
    }
}

/// Two control points for each corner of a picture that is not empty.
pub open spec fn scan_wf(s: Seq<ControlPoint>, px: Seq<u32>, w: int, h: int) -> bool {
    &&& 1 <= w
    &&& 1 <= h
    &&& px.len() >= w * h
    &&& s.len() == 2 * ((w + 1) * (h + 1)) <= i32::MAX
}

/// Colors at one end of a span.
fn colors_at(
    pixels: &[u32],
    w: usize,
    h: usize,
    corner: (i32, i32),
    dir: i32,
    at_end: bool,
) -> (r: Option<SideColors>)
    requires
        1 <= w <= i32::MAX,
        1 <= h <= i32::MAX,
        pixels@.len() >= w * h,
        corner.0 > i32::MIN,
        corner.1 > i32::MIN,
    ensures
        r == if at_end {
            end_colors(pixels@, w as int, h as int, corner.0 as int, corner.1 as int, dir as int)
        } else {
            start_colors(pixels@, w as int, h as int, corner.0 as int, corner.1 as int, dir as int)
        },
{
    let (l, r) = get_edge_colors(pixels, w, h, corner.0, corner.1, dir);
    if dir < 0 || l == r {
        None
    } else if at_end {
        Some(SideColors { left: r, right: l, at_end: true })
    } else {
        Some(SideColors { left: l, right: r, at_end: false })
    }
}

/// The contribution of one control point.
pub fn scan_span(cps: &[ControlPoint], pixels: &[u32], w: usize, h: usize, ci: usize) -> (r: Option<
    ScanSpan,
>)
    requires
        scan_wf(cps@, pixels@, w as int, h as int),
        ci < cps@.len(),
    ensures
        r == span_at(cps@, pixels@, w as int, h as int, ci as int),
{
    let c: ControlPoint = cps[ci];
    proof {
        lemma_extent(w as int, h as int);
        lemma_position(ci as int / 2, w + 1, h + 1);
    }
    if c.flag == 0 || (c.prev < 0 && c.next < 0) {
        return None;
    }
    let icx: i32 = (ci / 2 % (w + 1)) as i32;
    let icy: i32 = (ci / 2 / (w + 1)) as i32;
    let start = colors_at(pixels, w, h, (icx, icy), c.prev_dir, false);
    let end = colors_at(pixels, w, h, (icx, icy), c.next_dir, true);
    if start.is_none() && end.is_none() {
        None
    } else {
        Some(ScanSpan { ci, icx, icy, start, end })
    }
}

proof fn lemma_extent(w: int, h: int)
    requires
        1 <= w,
        1 <= h,
        2 * ((w + 1) * (h + 1)) <= i32::MAX,
    ensures
        w + 1 <= i32::MAX,
        h + 1 <= i32::MAX,
{
    assert(w + 1 <= (w + 1) * (h + 1)) by (nonlinear_arith)
        requires
            1 <= w,
            1 <= h,
    ;
    assert(h + 1 <= (w + 1) * (h + 1)) by (nonlinear_arith)
        requires
            1 <= w,
            1 <= h,
    ;
}

/// The contributions of all control points, in order.
pub fn scan_spans(cps: &[ControlPoint], pixels: &[u32], w: usize, h: usize) -> (r: Vec<ScanSpan>)
    requires
        scan_wf(cps@, pixels@, w as int, h as int),
    ensures
        r@ == spans(cps@, pixels@, w as int, h as int, cps@.len()),
{
    let mut r: Vec<ScanSpan> = Vec::new();
    let mut ci: usize = 0;
    while ci < cps.len()
        invariant
            scan_wf(cps@, pixels@, w as int, h as int),
            ci <= cps@.len(),
            r@ == spans(cps@, pixels@, w as int, h as int, ci as nat),
        decreases cps@.len() - ci,
    {
        if let Some(span) = scan_span(cps, pixels, w, h, ci) {
            r.push(span);
        }
        ci += 1;
    }
    r
}

/// T-junctions and crossings.
pub open spec fn is_junction(c: ControlPoint) -> bool {
    is_tjunction(c) || is_crossing(c)
}

/// Whether several chains meet at the control point.
pub fn meets_others(c: &ControlPoint) -> (r: bool)
    ensures
        r == is_junction(*c),
{
    c.flag / 32 % 2 == 1 || c.flag / 64 % 2 == 1
}

/// Whether segments that run past the junction are cut off. This holds of
/// chains that end there; where `through` is set, also of those that pass.
pub fn clips_overshoot(c: &ControlPoint, through: bool) -> (r: bool)
    ensures
        r == (is_junction(*c) && (through || c.prev < 0 || c.next < 0)),
{
    meets_others(c) && (through || c.prev < 0 || c.next < 0)
}

/// Whether the side of a segment is told from the middle of the span, where
/// crossing curves meet, rather than from the control point itself.
pub fn sides_from_middle(c: &ControlPoint, through: bool) -> (r: bool)
    ensures
        r == (!through && is_crossing(*c)),
{
    !through && c.flag / 64 % 2 == 1
}

/// Parameters at which a span is sampled after its start, in units of half a
/// step when the span is divided into `n` steps. At a junction the middle of
/// the span is among them.
pub open spec fn samples(n: int, junction: bool) -> Seq<usize> {
    if junction && n % 2 == 1 {
        Seq::new(
            (n + 1) as nat,
            |i: int|
                if i < n / 2 {
                    (2 * i + 2) as usize
                } else if i == n / 2 {
                    n as usize
                } else {
                    (2 * i) as usize
                },
        )
    } else {
        Seq::new(n as nat, |i: int| (2 * i + 2) as usize)
    }
}

/// Parameters at which a span of `n` steps is sampled, in half steps.
pub fn sample_points(n: usize, junction: bool) -> (r: Vec<usize>)
    requires
        1 <= n <= 16,
    ensures
        r@ == samples(n as int, junction),
{
    let add_middle: bool = junction && n % 2 == 1;
    let mut r: Vec<usize> = Vec::new();
    let mut s: usize = 0;
    while s < n
        invariant
            s <= n <= 16,
            1 <= n,
            add_middle == (junction && n % 2 == 1),
            r@.len() == s + if add_middle && s > n / 2 {
                1int
            } else {
                0
            },
            forall|i: int| 0 <= i < r@.len() ==> #[trigger] r@[i] == samples(n as int, junction)[i],
        decreases n - s,
    {
        if add_middle && s == n / 2 {
            r.push(n);
        }
        s += 1;
        r.push(2 * s);
    }
    assert(r@ =~= samples(n as int, junction));
    r
}

/// The samples of a span ascend, end at its end, and at a junction hold its
/// middle.
pub proof fn law_samples_ascend(n: int, junction: bool)
    requires
        1 <= n <= 16,
    ensures
        forall|i: int, j: int|
            0 <= i < j < samples(n, junction).len() ==> samples(n, junction)[i] < samples(
                n,
                junction,
            )[j],
        samples(n, junction).last() == 2 * n,
        junction ==> samples(n, junction).contains(n as usize),
{
    let s = samples(n, junction);
    if junction {
        if n % 2 == 1 {
            assert(s[n / 2] == n);
        } else {
            assert(s[n / 2 - 1] == n);
        }
    }
}

/// Colors of a segment of a span. A chain that begins or ends here prefers
/// the side on which it goes on; otherwise the side on which the segment lies
/// decides, which the caller tells. `at_end` is the end whose direction the
/// sides refer to.
pub open spec fn segment_side(c: ControlPoint, p: ScanSpan, on_prev_side: bool) -> SideColors {
    if c.prev < 0 {
        let s = or_else(p.end, p.start).unwrap();
        SideColors { left: s.left, right: s.right, at_end: true }
    } else if c.next < 0 {
        let s = or_else(p.start, p.end).unwrap();
        SideColors { left: s.left, right: s.right, at_end: false }
    } else if on_prev_side {
        or_else(p.start, p.end).unwrap()
    } else {
        or_else(p.end, p.start).unwrap()
    }
}

/// Colors of a segment of a span.
pub fn resolve_segment(c: &ControlPoint, p: &ScanSpan, on_prev_side: bool) -> (r: SideColors)
    requires
        p.start is Some || p.end is Some,
    ensures
        r == segment_side(*c, *p, on_prev_side),
{
    let prefer_start: bool = if c.prev < 0 {
        false
    } else {
        c.next < 0 || on_prev_side
    };
    let s: SideColors = match (p.start, p.end) {
        (Some(a), Some(b)) => if prefer_start {
            a
        } else {
            b
        },
        (Some(a), None) => a,
        (None, Some(b)) => b,
        (None, None) => SideColors { left: 0, right: 0, at_end: false },
    };
    if c.prev < 0 {
        SideColors { left: s.left, right: s.right, at_end: true }
    } else if c.next < 0 {
        SideColors { left: s.left, right: s.right, at_end: false }
    } else {
        s
    }
}

/// The colors right and left of a segment on the screen. Where the segment
/// runs down and follows the direction that the sides refer to, or neither
/// holds, the sides keep their names.
pub fn screen_sides(s: &SideColors, downward: bool, agree: bool) -> (r: (u32, u32))
    ensures
        r == if downward == agree {
            (s.right, s.left)
        } else {
            (s.left, s.right)
        },
{
    if downward == agree {
        (s.right, s.left)
    } else {
        (s.left, s.right)
    }
}

/// Every contribution separates two colors on all its segments.
pub proof fn law_segments_separate_colors(
    s: Seq<ControlPoint>,
    px: Seq<u32>,
    w: int,
    h: int,
    ci: int,
    on_prev_side: bool,
)
    requires
        span_at(s, px, w, h, ci) is Some,
    ensures
        ({
            let side = segment_side(s[ci], span_at(s, px, w, h, ci).unwrap(), on_prev_side);
            side.left != side.right
        }),
{
}

} // verus!
