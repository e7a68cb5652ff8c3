//! Which control points move when the curves are smoothed, and what their new
//! positions depend on.

use vstd::prelude::*;

use crate::scaling::cell_graph::{in_range, neighbors_in_range, ControlPoint};
use crate::scaling::raster::{is_crossing, is_end, is_tjunction};

verus! {

/// What a smoothing pass does with a control point.
#[derive(Clone, Copy, PartialEq, Eq, Structural)]
pub enum Motion {
    /// It stays.
    Stay,
    /// It takes the new position of the other control point of its corner.
    Follow { leader: usize },
    /// It moves towards less bending between its neighbors.
    Move {
        prev: usize,
        next: usize,
        /// Bending counts; at a corner only the distance from the original
        /// position does.
        curvature: bool,
        /// At a crossing: the control point that gets the same position, and
        /// the neighbors of that one.
        crossing: Option<Partner>,
    },
}

/// The other control point of a crossing.
#[derive(Clone, Copy, PartialEq, Eq, Structural)]
pub struct Partner {
    pub index: usize,
    pub prev: Option<usize>,
    pub next: Option<usize>,
}

pub open spec fn neighbor(v: i32) -> Option<usize> {
    if v < 0 {
        None
    } else {
        Some(v as usize)
    }
}

pub open spec fn is_corner(c: ControlPoint) -> bool {
    c.flag as int / 16 % 2 == 1
}

pub open spec fn is_pinned(c: ControlPoint) -> bool {
    c.flag as int % 2 == 1
}

/// What a smoothing pass does with control point `i`: pinned points and chain
/// ends stay, and of the two points of a crossing the second follows the first.
pub open spec fn motion(s: Seq<ControlPoint>, i: int) -> Motion {
    let c = s[i];
    if is_pinned(c) || c.prev < 0 || c.next < 0 {
        Motion::Stay
    } else if is_crossing(c) && i % 2 == 1 {
        Motion::Follow { leader: (i - 1) as usize }
    } else {
        Motion::Move {
            prev: c.prev as usize,
            next: c.next as usize,
            curvature: !is_corner(c),
            crossing: if is_crossing(c) && i + 1 < s.len() {
                Some(
                    Partner {
                        index: (i + 1) as usize,
                        prev: neighbor(s[i + 1].prev),
                        next: neighbor(s[i + 1].next),
                    },
                )
            } else {
                None
            },
        }
    }
}

fn to_index(v: i32) -> (r: Option<usize>)
    ensures
        r == neighbor(v),
{
    if v < 0 {
        None
    } else {
        Some(v as usize)
    }
}

/// What a smoothing pass does with control point `i`.
pub fn motion_of(cps: &[ControlPoint], i: usize) -> (r: Motion)
    requires
        i < cps@.len() <= i32::MAX,
    ensures
        r == motion(cps@, i as int),
{
    let c: ControlPoint = cps[i];
    if c.flag % 2 == 1 || c.prev < 0 || c.next < 0 {
        return Motion::Stay;
    }
    let crossing: bool = c.flag / 64 % 2 == 1;
    if crossing && i % 2 == 1 {
        return Motion::Follow { leader: i - 1 };
    }
    let partner: Option<Partner> = if crossing && i + 1 < cps.len() {
        let o: ControlPoint = cps[i + 1];
        Some(Partner { index: i + 1, prev: to_index(o.prev), next: to_index(o.next) })
    } else {
        None
    };
    Motion::Move {
        prev: c.prev as usize,
        next: c.next as usize,
        curvature: c.flag / 16 % 2 == 0,
        crossing: partner,
    }
}

/// The control point whose position stands for that of neighbor `i`, if it has
/// one: at a T-junction the stem.
pub fn stand_in(cps: &[ControlPoint], i: usize) -> (r: Option<usize>)
    requires
        i < cps@.len() <= i32::MAX,
    ensures
        r == if is_tjunction(cps@[i as int]) && i + 1 < cps@.len() {
            Some((i + 1) as usize)
        } else {
            None
        },
{
    if cps[i].flag / 32 % 2 == 1 && i + 1 < cps.len() {
        Some(i + 1)
    } else {
        None
    }
}

/// A smoothing pass moves no point that is pinned, and both points of a
/// crossing that is not on the rim move together.
pub proof fn law_crossings_move_together(s: Seq<ControlPoint>, i: int)
    requires
        0 <= i,
        i + 1 < s.len() <= i32::MAX,
        i % 2 == 0,
        is_crossing(s[i]),
        is_crossing(s[i + 1]),
        !is_pinned(s[i]),
        !is_pinned(s[i + 1]),
        s[i].prev >= 0,
        s[i].next >= 0,
        s[i + 1].prev >= 0,
        s[i + 1].next >= 0,
    ensures
        motion(s, i + 1) == (Motion::Follow { leader: i as usize }),
        motion(s, i) matches Motion::Move { crossing: Some(p), .. } && p.index == i + 1,
{
}

// ── Stems ──

/// The end of a stem is put on the curve through its T-junction: a weighted
/// mean of three control points, with weights in eighths.
#[derive(Clone, Copy, PartialEq, Eq, Structural)]
pub struct StemSnap {
    pub stem: usize,
    pub prev: usize,
    pub through: usize,
    pub next: usize,
    pub prev_weight: u8,
    pub through_weight: u8,
    pub next_weight: u8,
}

/// The other control point of the same corner.
pub open spec fn partner(i: int) -> int {
    if i % 2 == 0 {
        i + 1
    } else {
        i - 1
    }
}

/// The stem that hangs on control point `i`. A curve towards a chain end is
/// drawn as if mirrored there, which gives that neighbor twice the weight.
pub open spec fn stem_snap(s: Seq<ControlPoint>, i: int) -> Option<StemSnap> {
    let c = s[i];
    let stem = partner(i);
    if is_tjunction(c) && c.prev >= 0 && c.next >= 0 && stem < s.len() && (s[stem].flag == 1
        || s[stem].flag == 129) {
        let pw: int = if is_end(s[c.prev as int]) {
            2
        } else {
            1
        };
        let nw: int = if is_end(s[c.next as int]) {
            2
        } else {
            1
        };
        Some(
            StemSnap {
                stem: stem as usize,
                prev: c.prev as usize,
                through: i as usize,
                next: c.next as usize,
                prev_weight: pw as u8,
                through_weight: (8 - pw - nw) as u8,
                next_weight: nw as u8,
            },
        )
    } else {
        None
    }
}

/// The stem that hangs on control point `i`.
pub fn stem_snap_of(cps: &[ControlPoint], i: usize) -> (r: Option<StemSnap>)
    requires
        i < cps@.len() <= i32::MAX,
        neighbors_in_range(cps@),
    ensures
        r == stem_snap(cps@, i as int),
{
    let c: ControlPoint = cps[i];
    assert(in_range(cps@[i as int], cps@.len() as int));
    let stem: usize = if i % 2 == 0 {
        i + 1
    } else {
        i - 1
    };
    if c.flag / 32 % 2 == 0 || c.prev < 0 || c.next < 0 || stem >= cps.len() {
        return None;
    }
    if cps[stem].flag != 1 && cps[stem].flag != 129 {
        return None;
    }
    let pw: u8 = if cps[c.prev as usize].flag / 128 % 2 == 1 {
        2
    } else {
        1
    };
    let nw: u8 = if cps[c.next as usize].flag / 128 % 2 == 1 {
        2
    } else {
        1
    };
    Some(
        StemSnap {
            stem,
            prev: c.prev as usize,
            through: i,
            next: c.next as usize,
            prev_weight: pw,
            through_weight: 8 - pw - nw,
            next_weight: nw,
        },
    )
}

/// The weights of a stem's mean add up to one, and the through curve's own
/// point weighs most.
pub proof fn law_stem_weights(s: Seq<ControlPoint>, i: int)
    requires
        stem_snap(s, i) is Some,
    ensures
        ({
            let p = stem_snap(s, i).unwrap();
            &&& p.prev_weight + p.through_weight + p.next_weight == 8
            &&& p.through_weight >= p.prev_weight + p.next_weight
        }),
{
}

// ── Crossings ──

/// One of the two spans that cross, each neighbor with whether it is a chain
/// end.
#[derive(Clone, Copy, PartialEq, Eq, Structural)]
pub struct CrossingSpan {
    pub cp: usize,
    pub prev: usize,
    pub prev_is_end: bool,
    pub next: usize,
    pub next_is_end: bool,
}

pub open spec fn crossing_span(s: Seq<ControlPoint>, i: int) -> CrossingSpan {
    CrossingSpan {
        cp: i as usize,
        prev: s[i].prev as usize,
        prev_is_end: is_end(s[s[i].prev as int]),
        next: s[i].next as usize,
        next_is_end: is_end(s[s[i].next as int]),
    }
}

/// The two spans whose intersection is wanted at control point `i`: it is the
/// first of a crossing, and all four branches go on.
pub open spec fn crossing_pair(s: Seq<ControlPoint>, i: int) -> Option<
    (CrossingSpan, CrossingSpan),
> {
    if is_crossing(s[i]) && i % 2 == 0 && i + 1 < s.len() && s[i].prev >= 0 && s[i].next >= 0
        && s[i + 1].prev >= 0 && s[i + 1].next >= 0 {
        Some((crossing_span(s, i), crossing_span(s, i + 1)))
    } else {
        None
    }
}

fn span_of(cps: &[ControlPoint], i: usize) -> (r: CrossingSpan)
    requires
        i < cps@.len() <= i32::MAX,
        neighbors_in_range(cps@),
        cps@[i as int].prev >= 0,
        cps@[i as int].next >= 0,
    ensures
        r == crossing_span(cps@, i as int),
{
    let c: ControlPoint = cps[i];
    assert(in_range(cps@[i as int], cps@.len() as int));
    CrossingSpan {
        cp: i,
        prev: c.prev as usize,
        prev_is_end: cps[c.prev as usize].flag / 128 % 2 == 1,
        next: c.next as usize,
        next_is_end: cps[c.next as usize].flag / 128 % 2 == 1,
    }
}

/// The two spans whose intersection is wanted at control point `i`.
pub fn crossing_pair_of(cps: &[ControlPoint], i: usize) -> (r: Option<(CrossingSpan, CrossingSpan)>)
    requires
        i < cps@.len() <= i32::MAX,
        neighbors_in_range(cps@),
    ensures
        r == crossing_pair(cps@, i as int),
{
    let c: ControlPoint = cps[i];
    if c.flag / 64 % 2 == 0 || i % 2 == 1 || i + 1 >= cps.len() {
        return None;
    }
    let o: ControlPoint = cps[i + 1];
    if c.prev < 0 || c.next < 0 || o.prev < 0 || o.next < 0 {
        return None;
    }
    Some((span_of(cps, i), span_of(cps, i + 1)))
}

} // verus!
