//! Laws of which control points move while curves are smoothed.

use vstd::prelude::*;

use crate::scaling::cell_graph::ControlPoint;
use crate::scaling::optimize::{crossing_pair, motion, stem_snap, Motion};

verus! {

/// Which points move. Stems (bit 0) and ends of chains stay. Where two lines cross
/// (bit 6), the second point follows the first. Any other point moves by its two
/// neighbors, and gives up on curvature where it is a corner (bit 4).
pub proof fn law_points_that_move(s: Seq<ControlPoint>, i: int)
    requires
        0 <= i < s.len() <= i32::MAX,
    ensures
        ({
            let f = s[i].flag as int;
            let m = motion(s, i);
            let fixed = f % 2 == 1 || s[i].prev < 0 || s[i].next < 0;
            let crossing = f / 64 % 2 == 1;
            &&& fixed <==> m == Motion::Stay
            &&& !fixed && crossing && i % 2 == 1 ==> m == (Motion::Follow {
                leader: (i - 1) as usize,
            })
            &&& !fixed && !(crossing && i % 2 == 1) ==> m is Move && m->Move_prev as int
                == s[i].prev && m->Move_next as int == s[i].next && m->Move_curvature == (f / 16 % 2
                == 0)
            &&& !fixed && crossing && i % 2 == 0 && i + 1 < s.len() ==> m->Move_crossing is Some
                && m->Move_crossing->0.index == i + 1
            &&& !fixed && !crossing ==> m->Move_crossing is None
        }),
{
}

/// The stem of a junction of three (bit 5) ends on the curve through it: in the
/// middle of it, six eighths of the point itself and one of each neighbor; a
/// neighbor at which the curve ends counts twice, at the point's cost.
pub proof fn law_stems_end_on_the_curve(s: Seq<ControlPoint>, i: int)
    requires
        0 <= i < s.len() <= i32::MAX,
        s.len() % 2 == 0,
        s[i].prev >= 0,
        s[i].next >= 0,
    ensures
        ({
            let stem = if i % 2 == 0 {
                i + 1
            } else {
                i - 1
            };
            let ends = |k: int| s[k].flag as int / 128 % 2 == 1;
            let a: int = if ends(s[i].prev as int) {
                2
            } else {
                1
            };
            let b: int = if ends(s[i].next as int) {
                2
            } else {
                1
            };
            let r = stem_snap(s, i);
            &&& r is Some <==> s[i].flag as int / 32 % 2 == 1 && (s[stem].flag == 1
                || s[stem].flag == 129)
            &&& r is Some ==> r->0.stem == stem && r->0.through == i && r->0.prev as int
                == s[i].prev && r->0.next as int == s[i].next
            &&& r is Some ==> r->0.prev_weight == a && r->0.next_weight == b
                && r->0.through_weight == 8 - a - b
        }),
{
}

/// The two lines of a crossing are told with their neighbors and whether these are
/// ends.
pub proof fn law_crossings_are_pairs(s: Seq<ControlPoint>, i: int)
    requires
        0 <= i,
        i + 1 < s.len() <= i32::MAX,
        i % 2 == 0,
        s[i].flag as int / 64 % 2 == 1,
        s[i].prev >= 0 && s[i].next >= 0,
        s[i + 1].prev >= 0 && s[i + 1].next >= 0,
    ensures
        ({
            let r = crossing_pair(s, i);
            let pair = r->0;
            let a = pair.0;
            let b = pair.1;
            &&& r is Some
            &&& a.cp == i && b.cp == i + 1
            &&& a.prev as int == s[i].prev && a.next as int == s[i].next
            &&& b.prev as int == s[i + 1].prev && b.next as int == s[i + 1].next
            &&& a.prev_is_end == (s[s[i].prev as int].flag as int / 128 % 2 == 1)
            &&& b.next_is_end == (s[s[i + 1].next as int].flag as int / 128 % 2 == 1)
        }),
{
}

} // verus!
