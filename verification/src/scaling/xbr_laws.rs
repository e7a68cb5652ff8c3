//! Laws of xBR scaling: what a corner does to the block of its pixel.
//!
//! A corner is told by the direction in which it lies. Positions in a block are
//! counted towards it: `(0, 0)` is the far end of the block, `(n - 1, n - 1)` the
//! output pixel at the corner itself.

use vstd::prelude::*;

use crate::scaling::picture::blended;
use crate::scaling::xbr::{
    block, block_after, color_at, corner2, corner3, corner4, corner_done, near, place, rule_at,
    CornerTests, Rule, Sums,
};

verus! {

/// Whether corner `k` lies to the right of its pixel.
pub open spec fn on_the_right(k: int) -> bool {
    k == 0 || k == 2
}

/// Whether corner `k` lies below its pixel.
pub open spec fn below(k: int) -> bool {
    k == 0 || k == 1
}

/// The neighbor `dx` columns and `dy` rows towards corner `k` in a neighborhood of
/// five by five pixels.
pub open spec fn seen(p: Seq<u32>, k: int, dx: int, dy: int) -> u32 {
    let column = if on_the_right(k) {
        2 + dx
    } else {
        2 - dx
    };
    let row = if below(k) {
        2 + dy
    } else {
        2 - dy
    };
    p[5 * row + column]
}

/// The index in a block of the position `x` columns and `y` rows towards corner `k`.
pub open spec fn at(n: int, k: int, x: int, y: int) -> int {
    let column = if on_the_right(k) {
        x
    } else {
        n - 1 - x
    };
    let row = if below(k) {
        y
    } else {
        n - 1 - y
    };
    row * n + column
}

/// Tests that leave a corner alone.
pub open spec fn quiet(t: CornerTests) -> bool {
    t.edge == Sums::SecondSmaller
}

/// How much of the neighbor's color a position takes, out of 256, where the edge
/// past the corner goes on flat (`left`), steep (`up`), both or neither.
pub open spec fn share(n: int, left: bool, up: bool, x: int, y: int) -> int {
    let d = (n - 1 - x) + (n - 1 - y);
    if d == 0 {
        if n == 4 || (n == 3 && (left || up)) {
            256
        } else if (left && up) || n == 3 {
            224
        } else if left || up {
            192
        } else {
            128
        }
    } else if x < n - 1 && y < n - 1 {
        // Inside the block only the scaler by 4 mixes one pixel.
        if n == 4 && d == 2 && (left || up) {
            64
        } else {
            0
        }
    } else {
        // Along one of the two sides that meet at the corner.
        let on = if y > x {
            left
        } else {
            up
        };
        if n == 2 {
            if on {
                64
            } else {
                0
            }
        } else if d == 1 {
            if on {
                if n == 4 {
                    256
                } else {
                    192
                }
            } else if left || up {
                if n == 4 {
                    192
                } else {
                    64
                }
            } else if n == 4 {
                128
            } else {
                32
            }
        } else if on {
            if d == 2 && n == 4 {
                192
            } else {
                64
            }
        } else {
            0
        }
    }
}

/// A color that takes so much of another, out of 256.
pub open spec fn taking(a: u32, b: u32, part: int) -> u32 {
    if part == 0 {
        a
    } else if part == 256 {
        b
    } else {
        blended(a, b, 256 * part)
    }
}

/// Where the color that is mixed at a position comes from: with an edge that goes
/// on both ways, the side beyond the diagonal repeats the other one.
pub open spec fn base(n: int, both: bool, x: int, y: int) -> (int, int) {
    if both && n == 4 && x == 2 && y == 2 {
        (0, 3)
    } else if both && x == n - 1 {
        (y, x)
    } else {
        (x, y)
    }
}

/// Whether the edge past a corner is drawn as a line, in the scalers by 2 and 4.
pub open spec fn drawn(p: Seq<u32>, k: int) -> bool {
    let e = p[12];
    ||| seen(p, k, 1, 0) != seen(p, k, 0, -1) && seen(p, k, 0, 1) != seen(p, k, -1, 0)
    ||| e == seen(p, k, 1, 1) && seen(p, k, 1, 0) != seen(p, k, 2, 1) && seen(p, k, 0, 1) != seen(
        p,
        k,
        1,
        2,
    )
    ||| e == seen(p, k, 1, -1)
    ||| e == seen(p, k, -1, 1)
}

/// Whether the edge past a corner is drawn as a line, in the scaler by 3.
pub open spec fn drawn_by_three(p: Seq<u32>, k: int) -> bool {
    let e = p[12];
    let f = seen(p, k, 1, 0);
    let h = seen(p, k, 0, 1);
    ||| f != seen(p, k, 0, -1) && f != seen(p, k, 1, -1)
    ||| h != seen(p, k, -1, 0) && h != seen(p, k, -1, 1)
    ||| e == seen(p, k, 1, 1) && f != seen(p, k, 2, 0) && f != seen(p, k, 2, 1)
    ||| e == seen(p, k, 1, 1) && h != seen(p, k, 0, 2) && h != seen(p, k, 1, 2)
    ||| e == seen(p, k, 1, -1)
    ||| e == seen(p, k, -1, 1)
}

proof fn lemma_seen(p: Seq<u32>, k: int)
    requires
        0 <= k < 4,
    ensures
        forall|dx: int, dy: int|
            -2 <= dx <= 2 && -2 <= dy <= 2 ==> #[trigger] near(p, k, dx, dy) == seen(p, k, dx, dy),
{
    reveal(near);
    if k == 0 {
    } else if k == 1 {
    } else if k == 2 {
    } else {
    }
}

proof fn lemma_corner2(b: Seq<u32>, k: int, rule: Rule, c: u32, x: int, y: int)
    requires
        0 <= k < 4,
        0 <= x < 2,
        0 <= y < 2,
        b.len() == 4,
    ensures
        ({
            let r = corner2(b, k, rule, c)[at(2, k, x, y)];
            match rule {
                Rule::Keep => r == b[at(2, k, x, y)],
                Rule::Diagonal => r == taking(
                    b[at(2, k, x, y)],
                    c,
                    if x + y == 2 {
                        128
                    } else {
                        0
                    },
                ),
                Rule::Lines { left, up } => {
                    let o = base(2, left && up, x, y);
                    r == taking(b[at(2, k, o.0, o.1)], c, share(2, left, up, x, y))
                },
            }
        }),
{
    assert(place(2, k, 3) == at(2, k, 1, 1));
    assert(place(2, k, 2) == at(2, k, 0, 1));
    assert(place(2, k, 1) == at(2, k, 1, 0));
}

proof fn lemma_corner3(b: Seq<u32>, k: int, rule: Rule, c: u32, x: int, y: int)
    requires
        0 <= k < 4,
        0 <= x < 3,
        0 <= y < 3,
        b.len() == 9,
    ensures
        ({
            let r = corner3(b, k, rule, c)[at(3, k, x, y)];
            match rule {
                Rule::Keep => r == b[at(3, k, x, y)],
                Rule::Diagonal => r == taking(
                    b[at(3, k, x, y)],
                    c,
                    if x + y == 4 {
                        128
                    } else {
                        0
                    },
                ),
                Rule::Lines { left, up } => {
                    let o = base(3, left && up, x, y);
                    r == taking(b[at(3, k, o.0, o.1)], c, share(3, left, up, x, y))
                },
            }
        }),
{
    assert(place(3, k, 8) == at(3, k, 2, 2));
    assert(place(3, k, 7) == at(3, k, 1, 2));
    assert(place(3, k, 6) == at(3, k, 0, 2));
    assert(place(3, k, 5) == at(3, k, 2, 1));
    assert(place(3, k, 2) == at(3, k, 2, 0));
}

#[verifier::rlimit(40)]
proof fn lemma_corner4(b: Seq<u32>, k: int, rule: Rule, c: u32, x: int, y: int)
    requires
        0 <= k < 4,
        0 <= x < 4,
        0 <= y < 4,
        b.len() == 16,
    ensures
        ({
            let r = corner4(b, k, rule, c)[at(4, k, x, y)];
            match rule {
                Rule::Keep => r == b[at(4, k, x, y)],
                Rule::Diagonal => r == taking(
                    b[at(4, k, x, y)],
                    c,
                    if x + y == 6 {
                        128
                    } else {
                        0
                    },
                ),
                Rule::Lines { left, up } => {
                    let o = base(4, left && up, x, y);
                    r == taking(b[at(4, k, o.0, o.1)], c, share(4, left, up, x, y))
                },
            }
        }),
{
    assert(place(4, k, 15) == at(4, k, 3, 3));
    assert(place(4, k, 14) == at(4, k, 2, 3));
    assert(place(4, k, 13) == at(4, k, 1, 3));
    assert(place(4, k, 12) == at(4, k, 0, 3));
    assert(place(4, k, 11) == at(4, k, 3, 2));
    assert(place(4, k, 10) == at(4, k, 2, 2));
    assert(place(4, k, 7) == at(4, k, 3, 1));
    assert(place(4, k, 3) == at(4, k, 3, 0));
}

proof fn lemma_corner(b: Seq<u32>, n: int, k: int, rule: Rule, c: u32, x: int, y: int)
    requires
        2 <= n <= 4,
        0 <= k < 4,
        0 <= x < n,
        0 <= y < n,
        b.len() == n * n,
    ensures
        corner_done(b, n, k, rule, c).len() == n * n,
        ({
            let r = corner_done(b, n, k, rule, c)[at(n, k, x, y)];
            match rule {
                Rule::Keep => r == b[at(n, k, x, y)],
                Rule::Diagonal => r == taking(
                    b[at(n, k, x, y)],
                    c,
                    if x + y == 2 * n - 2 {
                        128
                    } else {
                        0
                    },
                ),
                Rule::Lines { left, up } => {
                    let o = base(n, left && up, x, y);
                    r == taking(b[at(n, k, o.0, o.1)], c, share(n, left, up, x, y))
                },
            }
        }),
{
    if n == 2 {
        lemma_corner2(b, k, rule, c, x, y);
    } else if n == 3 {
        lemma_corner3(b, k, rule, c, x, y);
    } else {
        lemma_corner4(b, k, rule, c, x, y);
    }
}

proof fn lemma_size(p: Seq<u32>, t: Seq<CornerTests>, n: int, m: nat)
    requires
        2 <= n <= 4,
        m <= 4,
    ensures
        block_after(p, t, n, m).len() == n * n,
    decreases m,
{
    if m > 0 {
        lemma_size(p, t, n, (m - 1) as nat);
        lemma_corner(
            block_after(p, t, n, (m - 1) as nat),
            n,
            m - 1,
            rule_at(p, m - 1, t[m - 1], n),
            color_at(p, m - 1, t[m - 1]),
            0,
            0,
        );
    } else {
        assert(n * n >= 0) by (nonlinear_arith);
    }
}

proof fn lemma_quiet_from(p: Seq<u32>, t: Seq<CornerTests>, n: int, m: nat, k: nat)
    requires
        m <= k <= 4,
        forall|j: int| m <= j < k ==> quiet(#[trigger] t[j]),
    ensures
        block_after(p, t, n, k) == block_after(p, t, n, m),
    decreases k,
{
    if k > m {
        lemma_quiet_from(p, t, n, m, (k - 1) as nat);
        assert(quiet(t[k - 1]));
    }
}

proof fn lemma_earlier(p: Seq<u32>, t: Seq<CornerTests>, u: Seq<CornerTests>, n: int, m: nat)
    requires
        forall|j: int| 0 <= j < m ==> #[trigger] t[j] == u[j],
    ensures
        block_after(p, t, n, m) == block_after(p, u, n, m),
    decreases m,
{
    if m > 0 {
        lemma_earlier(p, t, u, n, (m - 1) as nat);
        assert(t[m - 1] == u[m - 1]);
    }
}

/// The last of the corners that are not left alone mixes one of its two direct
/// neighbors into the block: not at all where one of them has the pixel's own color;
/// half and half into the corner pixel alone where the edge is not drawn as a line;
/// and along the edge where it is, by how far the edge goes on.
pub proof fn law_corner_takes_its_share(
    p: Seq<u32>,
    t: Seq<CornerTests>,
    none: CornerTests,
    n: int,
    k: int,
    x: int,
    y: int,
)
    requires
        2 <= n <= 4,
        p.len() == 25,
        t.len() == 4,
        0 <= k < 4,
        0 <= x < n,
        0 <= y < n,
        quiet(none),
        !quiet(t[k]),
        forall|j: int| k < j < 4 ==> quiet(#[trigger] t[j]),
    ensures
        ({
            let before = block(p, t.update(k, none), n);
            let after = block(p, t, n)[at(n, k, x, y)];
            let e = p[12];
            let f = seen(p, k, 1, 0);
            let h = seen(p, k, 0, 1);
            let c = seen(p, k, 1, -1);
            let g = seen(p, k, -1, 1);
            let color = if t[k].f_nearer {
                f
            } else {
                h
            };
            let line = t[k].edge == Sums::FirstSmaller && if n == 3 {
                drawn_by_three(p, k)
            } else {
                drawn(p, k)
            };
            let left = t[k].steep && e != g && seen(p, k, -1, 0) != g;
            let up = t[k].shallow && e != c && seen(p, k, 0, -1) != c;
            if e == f || e == h {
                after == before[at(n, k, x, y)]
            } else if !line {
                after == taking(
                    before[at(n, k, x, y)],
                    color,
                    if x == n - 1 && y == n - 1 {
                        128
                    } else {
                        0
                    },
                )
            } else {
                let o = base(n, left && up, x, y);
                after == taking(before[at(n, k, o.0, o.1)], color, share(n, left, up, x, y))
            }
        }),
{
    let u = t.update(k, none);
    let b = block_after(p, t, n, k as nat);
    lemma_quiet_from(p, t, n, (k + 1) as nat, 4);
    assert forall|j: int| k <= j < 4 implies quiet(#[trigger] u[j]) by {
        if j > k {
            assert(u[j] == t[j]);
        }
    }
    lemma_quiet_from(p, u, n, k as nat, 4);
    lemma_earlier(p, t, u, n, k as nat);
    lemma_size(p, t, n, k as nat);
    lemma_seen(p, k);
    lemma_corner(b, n, k, rule_at(p, k, t[k], n), color_at(p, k, t[k]), x, y);
}

/// A corner changes only the output pixels on its own side of the block's other
/// diagonal.
pub proof fn law_corner_stays_on_its_side(
    p: Seq<u32>,
    t: Seq<CornerTests>,
    none: CornerTests,
    n: int,
    k: int,
    x: int,
    y: int,
)
    requires
        2 <= n <= 4,
        p.len() == 25,
        t.len() == 4,
        0 <= k < 4,
        0 <= x < n,
        0 <= y < n,
        quiet(none),
        forall|j: int| k < j < 4 ==> quiet(#[trigger] t[j]),
        x + y < n - 1,
    ensures
        block(p, t, n)[at(n, k, x, y)] == block(p, t.update(k, none), n)[at(n, k, x, y)],
{
    if quiet(t[k]) {
        let u = t.update(k, none);
        assert forall|j: int| k <= j < 4 implies quiet(#[trigger] u[j]) by {
            if j > k {
                assert(u[j] == t[j]);
            }
        }
        assert forall|j: int| k <= j < 4 implies quiet(#[trigger] t[j]) by {}
        lemma_quiet_from(p, t, n, k as nat, 4);
        lemma_quiet_from(p, u, n, k as nat, 4);
        lemma_earlier(p, t, u, n, k as nat);
    } else {
        law_corner_takes_its_share(p, t, none, n, k, x, y);
    }
}

/// Where no corner acts, every pixel of the block has the pixel's color.
pub proof fn law_quiet_corners_enlarge(p: Seq<u32>, t: Seq<CornerTests>, n: int, x: int, y: int)
    requires
        2 <= n <= 4,
        t.len() == 4,
        0 <= x < n,
        0 <= y < n,
        forall|j: int| 0 <= j < 4 ==> quiet(#[trigger] t[j]),
    ensures
        block(p, t, n)[y * n + x] == p[12],
{
    lemma_quiet_from(p, t, n, 0, 4);
    crate::grid::lemma_cell(x, y, n, n);
}

/// Under the scaler by 4 a drawn edge gives the output pixel at the corner itself
/// exactly the neighbor's color.
pub proof fn law_line_fills_the_corner(p: Seq<u32>, t: Seq<CornerTests>, k: int)
    requires
        p.len() == 25,
        t.len() == 4,
        0 <= k < 4,
        forall|j: int| k < j < 4 ==> quiet(#[trigger] t[j]),
        t[k].edge == Sums::FirstSmaller,
        p[12] != seen(p, k, 1, 0),
        p[12] != seen(p, k, 0, 1),
        drawn(p, k),
    ensures
        block(p, t, 4)[at(4, k, 3, 3)] == if t[k].f_nearer {
            seen(p, k, 1, 0)
        } else {
            seen(p, k, 0, 1)
        },
{
    law_corner_takes_its_share(
        p,
        t,
        CornerTests { edge: Sums::SecondSmaller, f_nearer: false, steep: false, shallow: false },
        4,
        k,
        3,
        3,
    );
}

} // verus!
