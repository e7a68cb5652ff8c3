//! Laws of xBRZ and of the hybrid scaler: how much of a neighbor's color each
//! position of a block takes.
//!
//! Positions in a block are counted towards the corner: `(0, 0)` is the far end of
//! the block, `(n - 1, n - 1)` the output pixel at the corner itself. The corners
//! come in the order lower right, lower left, upper left, upper right.

use vstd::prelude::*;

use crate::scaling::picture::{blended, picture_wf};
use crate::scaling::raster::pixel_clamped;
use crate::scaling::single::weighted;
use crate::scaling::xbr::Sums;
use crate::scaling::xbr_hybrid::{HybridTests, Variance};
use crate::scaling::xbrz::{
    block_after, edge_of, junction_edge_at, junction_test, painted, pattern_of, pattern_ops,
    pixel_edges, rotated_place, turned, BlendOp, BlendTests, JunctionTests, Pattern,
};

verus! {

// ── Vocabulary ──

/// A pixel of a picture, that at the rim for positions outside.
pub open spec fn shown(px: Seq<u32>, w: int, h: int, x: int, y: int) -> u32 {
    let column = if x < 0 {
        0
    } else if x >= w {
        w - 1
    } else {
        x
    };
    let row = if y < 0 {
        0
    } else if y >= h {
        h - 1
    } else {
        y
    };
    px[row * w + column]
}

/// Whether corner `k` lies to the right of its pixel.
pub open spec fn right_side(k: int) -> bool {
    k == 0 || k == 3
}

/// Whether corner `k` lies below its pixel.
pub open spec fn lower_side(k: int) -> bool {
    k == 0 || k == 1
}

/// The index in a block of the position `x` columns and `y` rows towards corner `k`.
pub open spec fn at(n: int, k: int, x: int, y: int) -> int {
    let column = if right_side(k) {
        x
    } else {
        n - 1 - x
    };
    let row = if lower_side(k) {
        y
    } else {
        n - 1 - y
    };
    row * n + column
}

/// The strength of the edge at a corner in the packed strengths of a pixel, in which
/// the corners stand round from the upper left.
pub open spec fn strength(info: u8, k: int) -> int {
    if k == 0 {
        info as int / 16 % 4
    } else if k == 1 {
        info as int / 64
    } else if k == 2 {
        info as int % 4
    } else {
        info as int / 4 % 4
    }
}

/// A share of one, in the unit of the weights.
pub open spec fn share_of(numerator: int, denominator: int) -> int {
    0x1000_0000 * numerator / denominator
}

/// How much of a position lies below an edge that rises from the far end of the last
/// row by one row in two columns.
pub open spec fn below_shallow(n: int, x: int, y: int) -> int {
    let d = x - 2 * (n - 1 - y);
    if d < 0 {
        0
    } else if d == 0 {
        share_of(1, 4)
    } else if d == 1 {
        share_of(3, 4)
    } else {
        share_of(1, 1)
    }
}

/// How much of a position lies below an edge from the middle of one side to the
/// middle of the other.
pub open spec fn below_diagonal(n: int, x: int, y: int) -> int {
    let d = (n - 1 - x) + (n - 1 - y);
    if n % 2 == 0 {
        if 2 * d < n - 2 {
            share_of(1, 1)
        } else if 2 * d == n - 2 {
            share_of(1, 2)
        } else {
            0
        }
    } else if 2 * d < n - 3 {
        share_of(1, 1)
    } else if 2 * d == n - 3 {
        share_of(7, 8)
    } else if 2 * d == n - 1 {
        share_of(1, 8)
    } else {
        0
    }
}

/// A share of so many hundredths, rounded.
pub open spec fn hundredths(share: int, percent: int) -> bool {
    share_of(10 * percent - 1, 1000) <= share <= share_of(10 * percent + 1, 1000)
}

/// The larger of two numbers.
pub open spec fn larger(a: int, b: int) -> int {
    if a < b {
        b
    } else {
        a
    }
}

/// The share of a position under an edge of each kind. Where two edges meet in one
/// position, and round a lone corner, it is given in rounded numbers.
pub open spec fn covers(p: Pattern, n: int, x: int, y: int, share: int) -> bool {
    match p {
        Pattern::Shallow => share == below_shallow(n, x, y),
        Pattern::Steep => share == below_shallow(n, y, x),
        Pattern::Diagonal => share == below_diagonal(n, x, y),
        Pattern::SteepAndShallow => if n == 2 && x == 1 && y == 1 {
            share_of(833, 1000) <= share <= share_of(834, 1000)
        } else if n == 4 && x == 2 && y == 2 {
            share_of(333, 1000) <= share <= share_of(334, 1000)
        } else if n == 5 && x == 3 && y == 3 {
            share_of(666, 1000) <= share <= share_of(667, 1000)
        } else {
            share == larger(below_shallow(n, x, y), below_shallow(n, y, x))
        },
        Pattern::Corner => {
            let d = (n - 1 - x) + (n - 1 - y);
            if x < n - 1 && y < n - 1 {
                share == 0
            } else if d == 0 {
                let percent: int = if n == 2 {
                    21
                } else if n == 3 {
                    45
                } else if n == 4 {
                    68
                } else if n == 5 {
                    86
                } else {
                    97
                };
                hundredths(share, percent)
            } else if d == 1 && n >= 4 {
                let percent: int = if n == 4 {
                    9
                } else if n == 5 {
                    23
                } else {
                    42
                };
                hundredths(share, percent)
            } else if d == 2 && n == 6 {
                hundredths(share, 6)
            } else {
                share == 0
            }
        },
    }
}

/// A color that takes a share of another.
pub open spec fn taking(before: u32, center: u32, color: u32, share: int) -> u32 {
    if share == 0 {
        before
    } else if share == share_of(1, 1) {
        color
    } else {
        weighted(center, color, share)
    }
}

// ── Patterns ──

/// The weight that a list of operations gives a position, zero for none.
spec fn weight_in(ops: Seq<BlendOp>, m: nat, x: int, y: int) -> int
    decreases m,
{
    if m == 0 {
        0
    } else if ops[m - 1].row == y && ops[m - 1].col == x {
        ops[m - 1].weight as int
    } else {
        weight_in(ops, (m - 1) as nat, x, y)
    }
}

proof fn lemma_places_differ(n: int, k: int, x: int, y: int, u: int, v: int)
    requires
        2 <= n <= 6,
        0 <= k < 4,
        0 <= x < n,
        0 <= y < n,
        0 <= u < n,
        0 <= v < n,
    ensures
        rotated_place(y, x, n, k) == at(n, k, x, y),
        0 <= at(n, k, x, y) < n * n,
        at(n, k, x, y) == at(n, k, u, v) ==> x == u && y == v,
{
    let column = if right_side(k) { x } else { n - 1 - x };
    let row = if lower_side(k) { y } else { n - 1 - y };
    let column2 = if right_side(k) { u } else { n - 1 - u };
    let row2 = if lower_side(k) { v } else { n - 1 - v };
    crate::grid::lemma_cell(column, row, n, n);
    crate::grid::lemma_cell(column2, row2, n, n);
}

proof fn lemma_painted(
    b: Seq<u32>,
    n: int,
    k: int,
    center: u32,
    color: u32,
    ops: Seq<BlendOp>,
    m: nat,
    x: int,
    y: int,
)
    requires
        2 <= n <= 6,
        0 <= k < 4,
        0 <= x < n,
        0 <= y < n,
        b.len() == n * n,
        m <= ops.len(),
        forall|i: int|
            0 <= i < ops.len() ==> (#[trigger] ops[i]).row < n && ops[i].col < n && 0
                < ops[i].weight <= 0x1000_0000,
    ensures
        painted(b, n, k, center, color, ops, m).len() == n * n,
        painted(b, n, k, center, color, ops, m)[at(n, k, x, y)] == taking(
            b[at(n, k, x, y)],
            center,
            color,
            weight_in(ops, m, x, y),
        ),
    decreases m,
{
    lemma_places_differ(n, k, x, y, x, y);
    if m > 0 {
        lemma_painted(b, n, k, center, color, ops, (m - 1) as nat, x, y);
        let o = ops[m - 1];
        lemma_places_differ(n, k, o.col as int, o.row as int, x, y);
    }
}

#[verifier::rlimit(40)]
proof fn lemma_shallow(n: int, x: int, y: int)
    requires
        2 <= n <= 6,
        0 <= x < n,
        0 <= y < n,
    ensures
        ({
            let ops = pattern_ops(Pattern::Shallow, n);
            &&& weight_in(ops, ops.len(), x, y) == below_shallow(n, x, y)
        }),
{
    reveal_with_fuel(weight_in, 14);
}

#[verifier::rlimit(40)]
proof fn lemma_steep(n: int, x: int, y: int)
    requires
        2 <= n <= 6,
        0 <= x < n,
        0 <= y < n,
    ensures
        ({
            let ops = pattern_ops(Pattern::Steep, n);
            &&& weight_in(ops, ops.len(), x, y) == below_shallow(n, y, x)
        }),
{
    reveal_with_fuel(weight_in, 14);
}

#[verifier::rlimit(40)]
proof fn lemma_diagonal(n: int, x: int, y: int)
    requires
        2 <= n <= 6,
        0 <= x < n,
        0 <= y < n,
    ensures
        ({
            let ops = pattern_ops(Pattern::Diagonal, n);
            &&& weight_in(ops, ops.len(), x, y) == below_diagonal(n, x, y)
        }),
{
    reveal_with_fuel(weight_in, 8);
}

#[verifier::rlimit(40)]
proof fn lemma_lone_corner(n: int, x: int, y: int)
    requires
        2 <= n <= 6,
        0 <= x < n,
        0 <= y < n,
    ensures
        ({
            let ops = pattern_ops(Pattern::Corner, n);
            covers(Pattern::Corner, n, x, y, weight_in(ops, ops.len(), x, y))
        }),
{
    reveal_with_fuel(weight_in, 7);
}

#[verifier::rlimit(60)]
proof fn lemma_both(n: int, x: int, y: int)
    requires
        2 <= n <= 6,
        0 <= x < n,
        0 <= y < n,
    ensures
        ({
            let ops = pattern_ops(Pattern::SteepAndShallow, n);
            covers(Pattern::SteepAndShallow, n, x, y, weight_in(ops, ops.len(), x, y))
        }),
{
    reveal_with_fuel(weight_in, 18);
}

proof fn lemma_weights_are_shares(p: Pattern, n: int, i: int)
    requires
        2 <= n <= 6,
        0 <= i < pattern_ops(p, n).len(),
    ensures
        ({
            let o = pattern_ops(p, n)[i];
            o.row < n && o.col < n && 0 < o.weight <= 0x1000_0000
        }),
{
}

// ── Corners ──

/// Whether the edge at a corner is drawn along its direction, and not as a lone
/// corner: always where it is strong; else unless a weaker edge beside it would be
/// cut, or the three pixels behind the corner and the two beside those all look
/// alike while the pixel does not.
pub open spec fn drawn(info: u8, k: int, t: BlendTests) -> bool {
    ||| strength(info, k) >= 2
    ||| {
        &&& strength(info, (k + 3) % 4) == 0 || t.e_g
        &&& strength(info, (k + 1) % 4) == 0 || t.e_c
        &&& !(t.g_h && t.h_i && t.i_f && t.f_c) || t.e_i
    }
}

/// The kind of edge that a corner is blended after.
pub open spec fn kind(info: u8, k: int, t: BlendTests, p: Pattern) -> bool {
    let shallow = t.f_g_small && !t.e_g && !t.d_g;
    let steep = t.h_c_small && !t.e_c && !t.b_c;
    if !drawn(info, k, t) {
        p == Pattern::Corner
    } else if shallow && steep {
        p == Pattern::SteepAndShallow
    } else if shallow {
        p == Pattern::Shallow
    } else if steep {
        p == Pattern::Steep
    } else {
        p == Pattern::Diagonal
    }
}

proof fn lemma_turned(info: u8, k: int)
    requires
        0 <= k < 4,
    ensures
        edge_of(turned(info, k as nat), 2) == strength(info, k),
        edge_of(turned(info, k as nat), 1) == strength(info, (k + 3) % 4),
        edge_of(turned(info, k as nat), 3) == strength(info, (k + 1) % 4),
{
    reveal_with_fuel(turned, 5);
    let c0 = edge_of(info, 0);
    let c1 = edge_of(info, 1);
    let c2 = edge_of(info, 2);
    let c3 = edge_of(info, 3);
    crate::scaling::xbrz::law_edges_pack_back(info);
    crate::scaling::xbrz::law_edges_read_back(c1, c2, c3, c0);
    crate::scaling::xbrz::law_edges_read_back(c2, c3, c0, c1);
    crate::scaling::xbrz::law_edges_read_back(c3, c0, c1, c2);
}

proof fn lemma_block_size(
    px: Seq<u32>,
    w: int,
    h: int,
    x: int,
    y: int,
    info: u8,
    t: Seq<BlendTests>,
    n: int,
    m: nat,
)
    requires
        2 <= n <= 6,
        m <= 4,
    ensures
        block_after(px, w, h, x, y, info, t, n, m).len() == n * n,
    decreases m,
{
    if m == 0 {
        assert(n * n >= 0) by (nonlinear_arith);
    } else {
        lemma_block_size(px, w, h, x, y, info, t, n, (m - 1) as nat);
        let k = m - 1;
        let turn = turned(info, k as nat);
        let p = pattern_of(turn, t[k]);
        let ops = pattern_ops(p, n);
        assert forall|i: int| 0 <= i < ops.len() implies (#[trigger] ops[i]).row < n && ops[i].col
            < n && 0 < ops[i].weight <= 0x1000_0000 by {
            lemma_weights_are_shares(p, n, i);
        }
        lemma_painted(
            block_after(px, w, h, x, y, info, t, n, (m - 1) as nat),
            n,
            k,
            pixel_clamped(px, w, h, x, y),
            crate::scaling::xbrz::target(px, w, h, x, y, k, t[k]),
            ops,
            ops.len(),
            0,
            0,
        );
    }
}

/// A corner with an edge mixes the nearer of its two direct neighbors into the
/// pixel's color, over what the corners before it left: each position by the share
/// that lies under the edge. A corner without an edge changes nothing. Before the
/// first corner the block has the pixel's color.
pub proof fn law_edge_covers_its_share(
    px: Seq<u32>,
    w: int,
    h: int,
    x: int,
    y: int,
    info: u8,
    t: Seq<BlendTests>,
    n: int,
    k: int,
    u: int,
    v: int,
)
    requires
        2 <= n <= 6,
        picture_wf(px, w, h),
        0 <= x < w,
        0 <= y < h,
        0 <= k < 4,
        0 <= u < n,
        0 <= v < n,
    ensures
        ({
            let before = block_after(px, w, h, x, y, info, t, n, k as nat)[at(n, k, u, v)];
            let after = block_after(px, w, h, x, y, info, t, n, (k + 1) as nat)[at(n, k, u, v)];
            let dx: int = if right_side(k) {
                1
            } else {
                -1
            };
            let dy: int = if lower_side(k) {
                1
            } else {
                -1
            };
            let center = shown(px, w, h, x, y);
            let color = if t[k].f_nearer {
                shown(px, w, h, x + dx, y)
            } else {
                shown(px, w, h, x, y + dy)
            };
            &&& k == 0 ==> before == center
            &&& strength(info, k) == 0 ==> after == before
            &&& strength(info, k) != 0 ==> exists|p: Pattern, share: int|
                #![trigger covers(p, n, u, v, share)]
                kind(info, k, t[k], p) && covers(p, n, u, v, share) && after == taking(
                    before,
                    center,
                    color,
                    share,
                )
        }),
{
    lemma_turned(info, k);
    lemma_places_differ(n, k, u, v, u, v);
    lemma_block_size(px, w, h, x, y, info, t, n, k as nat);
    let b = block_after(px, w, h, x, y, info, t, n, k as nat);
    let turn = turned(info, k as nat);
    let p = pattern_of(turn, t[k]);
    let ops = pattern_ops(p, n);
    let color = crate::scaling::xbrz::target(px, w, h, x, y, k, t[k]);
    assert forall|i: int| 0 <= i < ops.len() implies (#[trigger] ops[i]).row < n && ops[i].col < n
        && 0 < ops[i].weight <= 0x1000_0000 by {
        lemma_weights_are_shares(p, n, i);
    }
    lemma_painted(b, n, k, pixel_clamped(px, w, h, x, y), color, ops, ops.len(), u, v);
    lemma_shallow(n, u, v);
    lemma_steep(n, u, v);
    lemma_diagonal(n, u, v);
    lemma_lone_corner(n, u, v);
    lemma_both(n, u, v);
    let share = weight_in(ops, ops.len(), u, v);
    assert(covers(p, n, u, v, share));
    assert(kind(info, k, t[k], p));
}

/// An edge changes only positions on its own side of the block's other diagonal, and
/// the nearer a position is to the corner, the more it takes.
pub proof fn law_edges_stay_at_their_corner(p: Pattern, n: int, x: int, y: int, share: int)
    requires
        2 <= n <= 6,
        0 <= x < n,
        0 <= y < n,
        covers(p, n, x, y, share),
    ensures
        x + y < n - 1 ==> share == 0,
        0 <= share <= share_of(1, 1),
        x == n - 1 && y == n - 1 ==> share > 0,
{
}

// ── Junctions ──

/// The strength of the edge at each corner of a pixel. It is there where the pixel
/// differs from both of its direct neighbors at the corner, the four pixels round it
/// are not two equal pairs side by side, and the colors are nearer along the
/// corner's own diagonal edge than across; it is 2 where that is so by far, else 1.
pub proof fn law_corner_strengths(
    px: Seq<u32>,
    w: int,
    h: int,
    jt: Seq<JunctionTests>,
    x: int,
    y: int,
    k: int,
)
    requires
        picture_wf(px, w, h),
        0 <= x < w,
        0 <= y < h,
        0 <= k < 4,
    ensures
        ({
            let dx: int = if right_side(k) {
                1
            } else {
                -1
            };
            let dy: int = if lower_side(k) {
                1
            } else {
                -1
            };
            let e = shown(px, w, h, x, y);
            let f = shown(px, w, h, x + dx, y);
            let g = shown(px, w, h, x, y + dy);
            let i = shown(px, w, h, x + dx, y + dy);
            let column = if right_side(k) {
                x + 1
            } else {
                x
            };
            let row = if lower_side(k) {
                y + 1
            } else {
                y
            };
            let t = jt[row * (w + 1) + column];
            let along = if k == 0 || k == 2 {
                Sums::FirstSmaller
            } else {
                Sums::SecondSmaller
            };
            strength(pixel_edges(px, w, h, jt, x, y), k) == if t.sums == along && e != f && e != g
                && !(e == f && g == i) && !(e == g && f == i) {
                if t.dominant {
                    2
                } else {
                    1
                }
            } else {
                0int
            }
        }),
{
    let c0 = junction_edge_at(px, w, h, x - 1, y - 1, junction_test(jt, w, x - 1, y - 1), 0);
    let c1 = junction_edge_at(px, w, h, x, y - 1, junction_test(jt, w, x, y - 1), 1);
    let c2 = junction_edge_at(px, w, h, x, y, junction_test(jt, w, x, y), 2);
    let c3 = junction_edge_at(px, w, h, x - 1, y, junction_test(jt, w, x - 1, y), 3);
    crate::scaling::xbrz::law_edges_read_back(c0, c1, c2, c3);
    let info = pixel_edges(px, w, h, jt, x, y);
    assert(strength(info, k) == if k == 0 {
        c2
    } else if k == 1 {
        c3
    } else if k == 2 {
        c0
    } else {
        c1
    });
    lemma_shown(px, w, h);
}

proof fn lemma_shown(px: Seq<u32>, w: int, h: int)
    requires
        w >= 1,
        h >= 1,
    ensures
        forall|x: int, y: int| #[trigger] pixel_clamped(px, w, h, x, y) == shown(px, w, h, x, y),
{
}

// ── The hybrid scaler ──

/// The block of four output pixels of the hybrid scaler. Where the colors round the
/// pixel differ little, it is the pixel, its means with the pixel to the right and
/// the one below, and the mean of the four; where they differ much, each corner is
/// the pixel itself or, where an edge cuts it off, takes half or a quarter of the
/// nearer of the two neighbors beside that corner; in between it is the mix of both
/// by the weight.
pub proof fn law_hybrid_block(
    px: Seq<u32>,
    w: int,
    h: int,
    x: int,
    y: int,
    t: HybridTests,
    ox: int,
    oy: int,
)
    requires
        picture_wf(px, w, h),
        0 <= x < w,
        0 <= y < h,
        0 <= ox < 2,
        0 <= oy < 2,
    ensures
        ({
            let p = shown(px, w, h, x, y);
            let right = shown(px, w, h, x + 1, y);
            let below = shown(px, w, h, x, y + 1);
            let both = shown(px, w, h, x + 1, y + 1);
            let smooth = if ox == 0 && oy == 0 {
                p
            } else if oy == 0 {
                blended(p, right, 32768)
            } else if ox == 0 {
                blended(p, below, 32768)
            } else {
                blended(blended(p, right, 32768), blended(below, both, 32768), 32768)
            };
            let c = t.corners@[2 * oy + ox];
            let beside = if ox == 0 {
                shown(px, w, h, x - 1, y)
            } else {
                right
            };
            let over = if oy == 0 {
                shown(px, w, h, x, y - 1)
            } else {
                below
            };
            let near = if c.f_nearer {
                beside
            } else {
                over
            };
            let sharp = if !c.diagonal || c.e_i {
                p
            } else if c.f_h {
                blended(p, near, 32768)
            } else {
                blended(p, near, 16384)
            };
            crate::scaling::xbr_hybrid::block(px, w, h, x, y, t)[2 * oy + ox] == match t.variance {
                Variance::Low => smooth,
                Variance::High => sharp,
                Variance::Between { weight } => blended(smooth, sharp, weight as int),
            }
        }),
{
    lemma_shown(px, w, h);
}

} // verus!
