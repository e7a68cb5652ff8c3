//! Laws of the similarity graph and of the diagonals that are kept in it.
//!
//! Two neighboring pixels meet in one entry of the graph: pixels `p` and `q` in
//! column `p.0 + q.0 + 1` and row `p.1 + q.1 + 1`, over a width of twice the
//! picture's and one.

use vstd::prelude::*;
use vstd::set_lib::{lemma_int_range, lemma_len_subset, set_int_range};

use crate::grid::lemma_cell;
use crate::scaling::vectorize::{
    cell_x, cell_y, curve_length, curve_votes, entry, flood_cell, flood_dir, flood_start, flood_wf,
    flooded, graph_wf, in_picture, island_votes, lemma_queue_bound, lemma_similarity_entry, linked,
    opposite8, other_link, resolved_corner, resolved_graph, similarity_graph, sparse_votes, step_x,
    step_y, stride, valence, Flood,
};

verus! {

// ── Links ──

/// An entry of a graph, by its column and row.
pub open spec fn raw(g: Seq<u32>, w: int, column: int, row: int) -> int {
    g[row * (2 * w + 1) + column] as int
}

/// Two different pixels side by side or corner to corner.
pub open spec fn neighbors(p: (int, int), q: (int, int)) -> bool {
    &&& -1 <= q.0 - p.0 <= 1
    &&& -1 <= q.1 - p.1 <= 1
    &&& p != q
}

/// Whether two neighboring pixels are joined: side by side by an entry that is not
/// zero; corner to corner by bit 0 of the entry where one is above the other's left,
/// and by bit 1 where it is above the other's right.
pub open spec fn joined(g: Seq<u32>, w: int, p: (int, int), q: (int, int)) -> bool {
    let e = raw(g, w, p.0 + q.0 + 1, p.1 + q.1 + 1);
    if p.0 == q.0 || p.1 == q.1 {
        e != 0
    } else if (p.0 < q.0) == (p.1 < q.1) {
        e % 2 == 1
    } else {
        e / 2 % 2 == 1
    }
}

/// One where the neighbor at a distance is joined.
pub open spec fn one_if_joined(g: Seq<u32>, w: int, p: (int, int), dx: int, dy: int) -> int {
    if joined(g, w, p, (p.0 + dx, p.1 + dy)) {
        1
    } else {
        0
    }
}

/// To how many of its eight neighbors a pixel is joined.
pub open spec fn degree(g: Seq<u32>, w: int, p: (int, int)) -> int {
    one_if_joined(g, w, p, -1, -1) + one_if_joined(g, w, p, 0, -1) + one_if_joined(g, w, p, 1, -1)
        + one_if_joined(g, w, p, -1, 0) + one_if_joined(g, w, p, 1, 0) + one_if_joined(
        g,
        w,
        p,
        -1,
        1,
    ) + one_if_joined(g, w, p, 0, 1) + one_if_joined(g, w, p, 1, 1)
}

/// The number of the direction from a pixel to a neighbor.
spec fn toward(p: (int, int), q: (int, int)) -> int {
    let dx = q.0 - p.0;
    let dy = q.1 - p.1;
    if dx == -1 {
        dy + 1
    } else if dx == 0 {
        if dy == 1 {
            3
        } else {
            7
        }
    } else {
        5 - dy
    }
}

proof fn lemma_toward(g: Seq<u32>, w: int, p: (int, int), q: (int, int))
    requires
        neighbors(p, q),
    ensures
        ({
            let d = toward(p, q);
            &&& 0 <= d < 8
            &&& step_x(d) == q.0 - p.0
            &&& step_y(d) == q.1 - p.1
            &&& linked(g, w, p.0, p.1, d) == joined(g, w, p, q)
            &&& toward(q, p) == opposite8(d)
        }),
{
    let d = toward(p, q);
    assert(2 * p.0 + 1 + step_x(d) == p.0 + q.0 + 1);
    assert(2 * p.1 + 1 + step_y(d) == p.1 + q.1 + 1);
}

proof fn lemma_degree(g: Seq<u32>, w: int, p: (int, int))
    ensures
        valence(g, w, p.0, p.1) == degree(g, w, p),
{
    lemma_toward(g, w, p, (p.0 - 1, p.1 - 1));
    lemma_toward(g, w, p, (p.0, p.1 - 1));
    lemma_toward(g, w, p, (p.0 + 1, p.1 - 1));
    lemma_toward(g, w, p, (p.0 - 1, p.1));
    lemma_toward(g, w, p, (p.0 + 1, p.1));
    lemma_toward(g, w, p, (p.0 - 1, p.1 + 1));
    lemma_toward(g, w, p, (p.0, p.1 + 1));
    lemma_toward(g, w, p, (p.0 + 1, p.1 + 1));
    reveal_with_fuel(crate::scaling::vectorize::link_count, 9);
}

proof fn lemma_other_link(g: Seq<u32>, w: int, x: int, y: int, from: int, to: int)
    requires
        valence(g, w, x, y) == 2,
        0 <= from < 8,
        0 <= to < 8,
        from != to,
        linked(g, w, x, y, from),
        linked(g, w, x, y, to),
    ensures
        other_link(g, w, x, y, from, 0) == to,
{
    reveal_with_fuel(crate::scaling::vectorize::link_count, 9);
    reveal_with_fuel(other_link, 9);
}

// ── Curves ──

/// The most pixels that are counted on one side of a diagonal.
pub open spec fn longest() -> int {
    201
}

/// The pixels that a curve passes from its first to its second pixel and on, as far
/// as it can be followed: each joined to the next, never straight back, through
/// pixels that are joined to two others, up to one that is not.
pub open spec fn follows(g: Seq<u32>, w: int, c: Seq<(int, int)>) -> bool {
    &&& 2 <= c.len() <= 1 + longest()
    &&& forall|i: int|
        0 <= i < c.len() - 1 ==> neighbors(#[trigger] c[i], c[i + 1]) && joined(
            g,
            w,
            c[i],
            c[i + 1],
        )
    &&& forall|i: int| 1 <= i < c.len() - 1 ==> c[i - 1] != c[i + 1] && degree(g, w, #[trigger] c[i]) == 2
    &&& degree(g, w, c.last()) != 2 || c.len() == 1 + longest()
}

proof fn lemma_joined_both_ways(g: Seq<u32>, w: int, p: (int, int), q: (int, int))
    requires
        neighbors(p, q),
    ensures
        joined(g, w, p, q) == joined(g, w, q, p),
{
}

proof fn lemma_curve(g: Seq<u32>, w: int, c: Seq<(int, int)>, i: int)
    requires
        follows(g, w, c),
        1 <= i < c.len(),
    ensures
        curve_length(g, w, c[i].0, c[i].1, toward(c[i], c[i - 1]), (longest() - i) as nat)
            == c.len() - i,
    decreases c.len() - i,
{
    let p = c[i];
    let back = c[i - 1];
    let n = (longest() - i) as nat;
    assert(neighbors(c[i - 1], c[i - 1 + 1]));
    lemma_joined_both_ways(g, w, back, p);
    lemma_toward(g, w, p, back);
    lemma_degree(g, w, p);
    if i == c.len() - 1 {
        assert(c.last() == p);
    } else {
        let next = c[i + 1];
        assert(neighbors(c[i], c[i + 1]));
        assert(degree(g, w, c[i]) == 2);
        lemma_toward(g, w, p, next);
        lemma_other_link(g, w, p.0, p.1, toward(p, back), toward(p, next));
        lemma_curve(g, w, c, i + 1);
        assert((n - 1) as nat == (longest() - (i + 1)) as nat);
    }
}

// ── Components ──

/// The pixel at a place of the window of eight by eight pixels round a corner, whose
/// places are numbered row by row: the corner's four pixels stand in the middle.
pub open spec fn window_pixel(bx: int, by: int, place: int) -> (int, int) {
    (bx - 3 + place % 8, by - 3 + place / 8)
}

/// Two joined pixels of the picture in the window.
pub open spec fn meets(
    g: Seq<u32>,
    w: int,
    h: int,
    bx: int,
    by: int,
    a: int,
    b: int,
) -> bool {
    let p = window_pixel(bx, by, a);
    let q = window_pixel(bx, by, b);
    &&& 0 <= a < 64
    &&& 0 <= b < 64
    &&& 0 <= p.0 < w && 0 <= p.1 < h
    &&& 0 <= q.0 < w && 0 <= q.1 < h
    &&& neighbors(p, q)
    &&& joined(g, w, p, q)
}

/// A set of places that holds two given ones and, with a pixel, all it is joined to.
pub open spec fn closed_round(
    g: Seq<u32>,
    w: int,
    h: int,
    bx: int,
    by: int,
    first: int,
    second: int,
    s: Set<int>,
) -> bool {
    &&& s.contains(first)
    &&& s.contains(second)
    &&& forall|a: int, b: int|
        s.contains(a) && #[trigger] meets(g, w, h, bx, by, a, b) ==> s.contains(b)
}

/// The pixels of the window that can be reached from two of them over joined ones:
/// the least such set.
pub open spec fn component(
    g: Seq<u32>,
    w: int,
    h: int,
    bx: int,
    by: int,
    first: int,
    second: int,
    s: Set<int>,
) -> bool {
    &&& closed_round(g, w, h, bx, by, first, second, s)
    &&& forall|t: Set<int>|
        #[trigger] closed_round(g, w, h, bx, by, first, second, t) ==> s.subset_of(t)
}

/// The places with a label.
spec fn labelled(f: Flood, label: u8) -> Set<int> {
    set_int_range(0, 64).filter(|c: int| f.labels[c] == label)
}

/// What the flood keeps while it spreads: it stays inside the two components, counts
/// what it labels, and has queued exactly that.
spec fn spreads(f: Flood, m: Set<int>, a: Set<int>) -> bool {
    &&& flood_wf(f)
    &&& forall|c: int|
        0 <= c < 64 ==> {
            &&& #[trigger] f.labels[c] <= 2
            &&& f.labels[c] == 1 ==> m.contains(c)
            &&& f.labels[c] == 2 ==> a.contains(c)
            &&& f.labels[c] != 0 ==> f.queue.contains(c as usize)
        }
    &&& labelled(f, 1).len() == f.main + 2
    &&& labelled(f, 2).len() == f.anti + 2
}

/// All that a place meets is labelled.
spec fn spent(
    f: Flood,
    g: Seq<u32>,
    w: int,
    h: int,
    bx: int,
    by: int,
    c: int,
) -> bool {
    forall|n: int| #[trigger] meets(g, w, h, bx, by, c, n) ==> f.labels[n] != 0
}

/// Labels once given stay.
spec fn grows(f: Flood, e: Flood) -> bool {
    &&& e.labels.len() == f.labels.len()
    &&& forall|c: int| 0 <= c < 64 && #[trigger] f.labels[c] != 0 ==> e.labels[c] == f.labels[c]
    &&& f.queue.len() <= e.queue.len()
    &&& forall|i: int| 0 <= i < f.queue.len() ==> #[trigger] e.queue[i] == f.queue[i]
}

proof fn lemma_flood_dir(
    f: Flood,
    g: Seq<u32>,
    w: int,
    h: int,
    bx: int,
    by: int,
    c: int,
    d: int,
    m: Set<int>,
    a: Set<int>,
)
    requires
        spreads(f, m, a),
        closed_round(g, w, h, bx, by, 27, 36, m),
        closed_round(g, w, h, bx, by, 28, 35, a),
        0 <= c < 64,
        f.labels[c] != 0,
        in_picture(w, h, cell_x(bx, c), cell_y(by, c)),
        0 <= d < 8,
    ensures
        ({
            let e = flood_dir(f, g, w, h, bx, by, c, d);
            &&& spreads(e, m, a)
            &&& grows(f, e)
            &&& forall|n: int|
                #[trigger] meets(g, w, h, bx, by, c, n) && n == c + step_x(d) + 8 * step_y(d)
                    && n % 8 == c % 8 + step_x(d) ==> e.labels[n] != 0
        }),
{
    let col = c % 8 + step_x(d);
    let row = c / 8 + step_y(d);
    let n = 8 * row + col;
    let e = flood_dir(f, g, w, h, bx, by, c, d);
    let p = window_pixel(bx, by, c);
    let q = (p.0 + step_x(d), p.1 + step_y(d));
    assert(neighbors(p, q));
    lemma_toward(g, w, p, q);
    assert(toward(p, q) == d);
    if linked(g, w, cell_x(bx, c), cell_y(by, c), d) && 0 <= col < 8 && 0 <= row < 8
        && f.labels[n] == 0 && in_picture(w, h, cell_x(bx, n), cell_y(by, n)) {
        assert(n % 8 == col && n / 8 == row);
        assert(window_pixel(bx, by, n) == q);
        assert(meets(g, w, h, bx, by, c, n));
        let l = f.labels[c];
        assert(l == 1 || l == 2);
        lemma_int_range(0, 64);
        let other: u8 = if l == 1 {
            2
        } else {
            1
        };
        assert(labelled(e, l) =~= labelled(f, l).insert(n));
        assert(labelled(e, other) =~= labelled(f, other));
        assert(!labelled(f, l).contains(n));
        assert(e.queue.contains(n as usize)) by {
            assert(e.queue[f.queue.len() as int] == n);
        }
        assert forall|k: int| 0 <= k < 64 && #[trigger] e.labels[k] != 0 implies e.queue.contains(
            k as usize,
        ) by {
            if k != n {
                assert(f.labels[k] != 0);
                let i = choose|i: int| 0 <= i < f.queue.len() && f.queue[i] == k as usize;
                assert(e.queue[i] == k as usize);
            }
        }
        assert(e.queue.no_duplicates()) by {
            assert forall|i: int, j: int|
                0 <= i < e.queue.len() && 0 <= j < e.queue.len() && i != j implies e.queue[i]
                != e.queue[j] by {
                if i == f.queue.len() {
                    assert(f.labels[f.queue[j] as int] != 0);
                } else if j == f.queue.len() {
                    assert(f.labels[f.queue[i] as int] != 0);
                }
            }
        }
        assert forall|i: int| 0 <= i < e.queue.len() implies (#[trigger] e.queue[i]) < 64
            && e.labels[e.queue[i] as int] != 0 by {
            if i < f.queue.len() {
                assert(f.queue[i] < 64);
            }
        }
        assert(flood_wf(e));
    }
    assert forall|k: int|
        #[trigger] meets(g, w, h, bx, by, c, k) && k == c + step_x(d) + 8 * step_y(d) && k % 8 == c
            % 8 + step_x(d) implies e.labels[k] != 0 by {
        assert(k / 8 == row && k % 8 == col);
        assert(k == n);
        assert(window_pixel(bx, by, k) == q);
    }
}

/// The place next to another in a direction, inside the window.
spec fn beside(c: int, d: int, n: int) -> bool {
    n == c + step_x(d) + 8 * step_y(d) && n % 8 == c % 8 + step_x(d)
}

proof fn lemma_flood_cell(
    f: Flood,
    g: Seq<u32>,
    w: int,
    h: int,
    bx: int,
    by: int,
    c: int,
    k: nat,
    m: Set<int>,
    a: Set<int>,
)
    requires
        spreads(f, m, a),
        closed_round(g, w, h, bx, by, 27, 36, m),
        closed_round(g, w, h, bx, by, 28, 35, a),
        0 <= c < 64,
        f.labels[c] != 0,
        in_picture(w, h, cell_x(bx, c), cell_y(by, c)),
        k <= 8,
    ensures
        ({
            let e = flood_cell(f, g, w, h, bx, by, c, k);
            &&& spreads(e, m, a)
            &&& grows(f, e)
            &&& forall|d: int, n: int|
                0 <= d < k && #[trigger] meets(g, w, h, bx, by, c, n) && #[trigger] beside(c, d, n)
                    ==> e.labels[n] != 0
        }),
    decreases k,
{
    if k > 0 {
        lemma_flood_cell(f, g, w, h, bx, by, c, (k - 1) as nat, m, a);
        let e = flood_cell(f, g, w, h, bx, by, c, (k - 1) as nat);
        assert(f.labels[c] != 0);
        lemma_flood_dir(e, g, w, h, bx, by, c, k - 1, m, a);
        let e2 = flood_cell(f, g, w, h, bx, by, c, k);
        assert forall|d: int, n: int|
            0 <= d < k && #[trigger] meets(g, w, h, bx, by, c, n) && #[trigger] beside(c, d, n)
            implies e2.labels[n] != 0 by {
            if d < k - 1 {
                assert(e.labels[n] != 0);
            }
        }
        assert forall|i: int| 0 <= i < f.queue.len() implies #[trigger] e2.queue[i] == f.queue[i] by {
            assert(e.queue[i] == f.queue[i]);
        }
        assert forall|i: int| 0 <= i < 64 && #[trigger] f.labels[i] != 0 implies e2.labels[i]
            == f.labels[i] by {
            assert(e.labels[i] == f.labels[i]);
        }
    }
}

proof fn lemma_all_directions(
    f: Flood,
    g: Seq<u32>,
    w: int,
    h: int,
    bx: int,
    by: int,
    c: int,
)
    requires
        forall|d: int, n: int|
            0 <= d < 8 && #[trigger] meets(g, w, h, bx, by, c, n) && #[trigger] beside(c, d, n)
                ==> f.labels[n] != 0,
    ensures
        spent(f, g, w, h, bx, by, c),
{
    assert forall|n: int| #[trigger] meets(g, w, h, bx, by, c, n) implies f.labels[n] != 0 by {
        let p = window_pixel(bx, by, c);
        let q = window_pixel(bx, by, n);
        lemma_toward(g, w, p, q);
        let d = toward(p, q);
        assert(beside(c, d, n));
    }
}

proof fn lemma_flooded(
    f: Flood,
    g: Seq<u32>,
    w: int,
    h: int,
    bx: int,
    by: int,
    head: int,
    fuel: nat,
    m: Set<int>,
    a: Set<int>,
)
    requires
        spreads(f, m, a),
        closed_round(g, w, h, bx, by, 27, 36, m),
        closed_round(g, w, h, bx, by, 28, 35, a),
        0 <= head,
        head + fuel >= 64,
        forall|i: int|
            0 <= i < head && i < f.queue.len() ==> spent(
                f,
                g,
                w,
                h,
                bx,
                by,
                (#[trigger] f.queue[i]) as int,
            ),
    ensures
        ({
            let e = flooded(f, g, w, h, bx, by, head, fuel);
            &&& spreads(e, m, a)
            &&& grows(f, e)
            &&& forall|c: int|
                0 <= c < 64 && #[trigger] e.labels[c] != 0 ==> spent(e, g, w, h, bx, by, c)
        }),
    decreases fuel,
{
    lemma_queue_bound(f);
    if fuel == 0 || head >= f.queue.len() {
        assert forall|c: int| 0 <= c < 64 && #[trigger] f.labels[c] != 0 implies spent(
            f,
            g,
            w,
            h,
            bx,
            by,
            c,
        ) by {
            let i = choose|i: int| 0 <= i < f.queue.len() && f.queue[i] == c as usize;
            assert(spent(f, g, w, h, bx, by, f.queue[i] as int));
        }
    } else {
        let c = f.queue[head] as int;
        assert(f.queue[head] < 64 && f.labels[f.queue[head] as int] != 0);
        let f1 = if in_picture(w, h, cell_x(bx, c), cell_y(by, c)) {
            flood_cell(f, g, w, h, bx, by, c, 8)
        } else {
            f
        };
        if in_picture(w, h, cell_x(bx, c), cell_y(by, c)) {
            lemma_flood_cell(f, g, w, h, bx, by, c, 8, m, a);
            lemma_all_directions(f1, g, w, h, bx, by, c);
        } else {
            assert(spent(f1, g, w, h, bx, by, c));
        }
        assert forall|i: int| 0 <= i < head + 1 && i < f1.queue.len() implies spent(
            f1,
            g,
            w,
            h,
            bx,
            by,
            (#[trigger] f1.queue[i]) as int,
        ) by {
            assert(f1.queue[i] == f.queue[i]);
            if i < head {
                let k = f.queue[i] as int;
                assert(spent(f, g, w, h, bx, by, f.queue[i] as int));
                assert forall|n: int| #[trigger] meets(g, w, h, bx, by, k, n) implies f1.labels[n]
                    != 0 by {
                    assert(f.labels[n] != 0);
                }
            }
        }
        lemma_flooded(f1, g, w, h, bx, by, head + 1, (fuel - 1) as nat, m, a);
        let e = flooded(f1, g, w, h, bx, by, head + 1, (fuel - 1) as nat);
        assert forall|i: int| 0 <= i < f.queue.len() implies #[trigger] e.queue[i] == f.queue[i] by {
            assert(f1.queue[i] == f.queue[i]);
        }
        assert forall|i: int| 0 <= i < 64 && #[trigger] f.labels[i] != 0 implies e.labels[i]
            == f.labels[i] by {
            assert(f1.labels[i] == f.labels[i]);
        }
    }
}

proof fn lemma_flood_starts(m: Set<int>, a: Set<int>)
    requires
        m.contains(27),
        m.contains(36),
        a.contains(28),
        a.contains(35),
    ensures
        spreads(flood_start(), m, a),
{
    let f = flood_start();
    lemma_int_range(0, 64);
    assert(labelled(f, 1) =~= Set::<int>::empty().insert(27).insert(36));
    assert(labelled(f, 2) =~= Set::<int>::empty().insert(28).insert(35));
    assert(f.queue[0] == 27 && f.queue[1] == 28 && f.queue[2] == 36 && f.queue[3] == 35);
}

proof fn lemma_component_sizes(
    g: Seq<u32>,
    w: int,
    h: int,
    bx: int,
    by: int,
    m: Set<int>,
    a: Set<int>,
)
    requires
        component(g, w, h, bx, by, 27, 36, m),
        component(g, w, h, bx, by, 28, 35, a),
        m.disjoint(a),
    ensures
        ({
            let f = flooded(flood_start(), g, w, h, bx, by, 0, 64);
            &&& f.main == m.len() - 2
            &&& f.anti == a.len() - 2
        }),
{
    lemma_flood_starts(m, a);
    lemma_flooded(flood_start(), g, w, h, bx, by, 0, 64, m, a);
    let f = flooded(flood_start(), g, w, h, bx, by, 0, 64);
    let s = flood_start();
    assert(s.labels[27] == 1 && s.labels[36] == 1 && s.labels[28] == 2 && s.labels[35] == 2);
    let l1 = labelled(f, 1);
    let l2 = labelled(f, 2);
    lemma_int_range(0, 64);
    assert forall|c: int, n: int|
        l1.contains(c) && #[trigger] meets(g, w, h, bx, by, c, n) implies l1.contains(n) by {
        assert(spent(f, g, w, h, bx, by, c));
        assert(f.labels[n] != 0);
        assert(m.contains(c));
        assert(m.contains(n));
    }
    assert forall|c: int, n: int|
        l2.contains(c) && #[trigger] meets(g, w, h, bx, by, c, n) implies l2.contains(n) by {
        assert(spent(f, g, w, h, bx, by, c));
        assert(f.labels[n] != 0);
        assert(a.contains(c));
        assert(a.contains(n));
    }
    assert(closed_round(g, w, h, bx, by, 27, 36, l1));
    assert(closed_round(g, w, h, bx, by, 28, 35, l2));
    assert(l1 =~= m);
    assert(l2 =~= a);
}

// ── Corners ──

/// Whether the four pixels at a corner are joined all the way round it.
pub open spec fn joined_around(g: Seq<u32>, w: int, bx: int, by: int) -> bool {
    &&& joined(g, w, (bx, by), (bx + 1, by))
    &&& joined(g, w, (bx, by + 1), (bx + 1, by + 1))
    &&& joined(g, w, (bx, by), (bx, by + 1))
    &&& joined(g, w, (bx + 1, by), (bx + 1, by + 1))
}

proof fn lemma_corner_entry(g: Seq<u32>, w: int, h: int, bx: int, by: int)
    requires
        graph_wf(g, w, h),
        0 <= bx < w - 1,
        0 <= by < h - 1,
    ensures
        raw(resolved_graph(g, w, h), w, 2 * bx + 2, 2 * by + 2) == resolved_corner(g, w, h, bx, by),
        raw(g, w, 2 * bx + 2, 2 * by + 2) == entry(g, w, 2 * bx + 2, 2 * by + 2),
        crate::scaling::vectorize::fully_connected(g, w, bx, by) == joined_around(g, w, bx, by),
{
    lemma_cell(2 * bx + 2, 2 * by + 2, stride(w), stride(h));
    assert((2 * bx + 2) / 2 - 1 == bx);
    assert((2 * by + 2) / 2 - 1 == by);
}

/// A corner without diagonals stays so; one with a single diagonal keeps it, unless
/// its four pixels are joined around it, which removes every diagonal.
pub proof fn law_single_diagonals_stay(g: Seq<u32>, w: int, h: int, bx: int, by: int)
    requires
        graph_wf(g, w, h),
        0 <= bx < w - 1,
        0 <= by < h - 1,
    ensures
        ({
            let before = raw(g, w, 2 * bx + 2, 2 * by + 2);
            let after = raw(resolved_graph(g, w, h), w, 2 * bx + 2, 2 * by + 2);
            &&& joined_around(g, w, bx, by) ==> after == 0
            &&& before <= 2 && !joined_around(g, w, bx, by) ==> after == before
        }),
{
    lemma_corner_entry(g, w, h, bx, by);
}

/// Five points for an end: towards the diagonal from upper left to lower right where
/// one of its pixels is an end, else against it where one of the other two is.
pub open spec fn end_points(g: Seq<u32>, w: int, bx: int, by: int) -> int {
    if degree(g, w, (bx, by)) == 1 || degree(g, w, (bx + 1, by + 1)) == 1 {
        5
    } else if degree(g, w, (bx + 1, by)) == 1 || degree(g, w, (bx, by + 1)) == 1 {
        -5
    } else {
        0
    }
}

/// Where both diagonals of a corner are present and its pixels are not joined around
/// it, three things speak for the diagonal from upper left to lower right: by how
/// much the curve through it (`m0` and `m1`, followed to either side) is longer than
/// the curve through the other (`a0` and `a1`), by how much its component `m` in the
/// window is smaller than the other's, and an end. If they come out above zero, that
/// diagonal remains (bit 0), if below, the other one (bit 1), and if they are even,
/// none.
pub proof fn law_crossing_is_decided(
    g: Seq<u32>,
    w: int,
    h: int,
    bx: int,
    by: int,
    m0: Seq<(int, int)>,
    m1: Seq<(int, int)>,
    a0: Seq<(int, int)>,
    a1: Seq<(int, int)>,
    m: Set<int>,
    a: Set<int>,
)
    requires
        graph_wf(g, w, h),
        0 <= bx < w - 1,
        0 <= by < h - 1,
        raw(g, w, 2 * bx + 2, 2 * by + 2) == 3,
        !joined_around(g, w, bx, by),
        follows(g, w, m0) && m0[0] == (bx + 1, by + 1) && m0[1] == (bx, by),
        follows(g, w, m1) && m1[0] == (bx, by) && m1[1] == (bx + 1, by + 1),
        follows(g, w, a0) && a0[0] == (bx, by + 1) && a0[1] == (bx + 1, by),
        follows(g, w, a1) && a1[0] == (bx + 1, by) && a1[1] == (bx, by + 1),
        component(g, w, h, bx, by, 27, 36, m),
        component(g, w, h, bx, by, 28, 35, a),
        m.disjoint(a),
    ensures
        ({
            let points = (m0.len() + m1.len()) - (a0.len() + a1.len()) + (a.len() - m.len())
                + end_points(g, w, bx, by);
            raw(resolved_graph(g, w, h), w, 2 * bx + 2, 2 * by + 2) == if points > 0 {
                1
            } else if points < 0 {
                2
            } else {
                0int
            }
        }),
        window_pixel(bx, by, 27) == (bx, by),
        window_pixel(bx, by, 36) == (bx + 1, by + 1),
        window_pixel(bx, by, 28) == (bx + 1, by),
        window_pixel(bx, by, 35) == (bx, by + 1),
{
    lemma_corner_entry(g, w, h, bx, by);
    lemma_curve(g, w, m0, 1);
    lemma_curve(g, w, m1, 1);
    lemma_curve(g, w, a0, 1);
    lemma_curve(g, w, a1, 1);
    assert(toward(m0[1], m0[0]) == 4);
    assert(toward(m1[1], m1[0]) == 0);
    assert(toward(a0[1], a0[0]) == 2);
    assert(toward(a1[1], a1[0]) == 6);
    lemma_component_sizes(g, w, h, bx, by, m, a);
    lemma_degree(g, w, (bx, by));
    lemma_degree(g, w, (bx + 1, by + 1));
    lemma_degree(g, w, (bx + 1, by));
    lemma_degree(g, w, (bx, by + 1));
    let c = curve_votes(g, w, bx, by);
    let s = sparse_votes(g, w, h, bx, by);
    let i = island_votes(g, w, bx, by);
    assert(c.main - c.anti == (m0.len() + m1.len()) - (a0.len() + a1.len()));
    assert(s.main - s.anti == a.len() - m.len());
    assert(i.main - i.anti == end_points(g, w, bx, by));
}

/// The longer curve and the smaller component win where no end speaks against them.
pub proof fn law_longer_and_sparser_diagonal_remains(
    g: Seq<u32>,
    w: int,
    h: int,
    bx: int,
    by: int,
    m0: Seq<(int, int)>,
    m1: Seq<(int, int)>,
    a0: Seq<(int, int)>,
    a1: Seq<(int, int)>,
    m: Set<int>,
    a: Set<int>,
)
    requires
        graph_wf(g, w, h),
        0 <= bx < w - 1,
        0 <= by < h - 1,
        raw(g, w, 2 * bx + 2, 2 * by + 2) == 3,
        !joined_around(g, w, bx, by),
        follows(g, w, m0) && m0[0] == (bx + 1, by + 1) && m0[1] == (bx, by),
        follows(g, w, m1) && m1[0] == (bx, by) && m1[1] == (bx + 1, by + 1),
        follows(g, w, a0) && a0[0] == (bx, by + 1) && a0[1] == (bx + 1, by),
        follows(g, w, a1) && a1[0] == (bx + 1, by) && a1[1] == (bx, by + 1),
        component(g, w, h, bx, by, 27, 36, m),
        component(g, w, h, bx, by, 28, 35, a),
        m.disjoint(a),
    ensures
        m0.len() + m1.len() > a0.len() + a1.len() && m.len() < a.len() && degree(
            g,
            w,
            (bx + 1, by),
        ) != 1 && degree(g, w, (bx, by + 1)) != 1 ==> raw(
            resolved_graph(g, w, h),
            w,
            2 * bx + 2,
            2 * by + 2,
        ) == 1,
        m0.len() + m1.len() < a0.len() + a1.len() && m.len() > a.len() && degree(g, w, (bx, by))
            != 1 && degree(g, w, (bx + 1, by + 1)) != 1 ==> raw(
            resolved_graph(g, w, h),
            w,
            2 * bx + 2,
            2 * by + 2,
        ) == 2,
{
    law_crossing_is_decided(g, w, h, bx, by, m0, m1, a0, a1, m, a);
}

// ── The similarity graph ──

/// The similarity graph of a picture holds the colors at odd columns and rows; in
/// between it joins neighbors of equal color and no others; and nothing leads out of
/// the picture.
pub proof fn law_equal_neighbors_are_joined(
    px: Seq<u32>,
    w: int,
    h: int,
    p: (int, int),
    q: (int, int),
)
    requires
        0 <= p.0 < w,
        0 <= p.1 < h,
        neighbors(p, q),
    ensures
        raw(similarity_graph(px, w, h), w, 2 * p.0 + 1, 2 * p.1 + 1) == px[p.1 * w + p.0],
        0 <= q.0 < w && 0 <= q.1 < h ==> joined(similarity_graph(px, w, h), w, p, q) == (px[p.1 * w
            + p.0] == px[q.1 * w + q.0]),
        !(0 <= q.0 < w && 0 <= q.1 < h) ==> !joined(similarity_graph(px, w, h), w, p, q),
{
    let g = similarity_graph(px, w, h);
    let gx = p.0 + q.0 + 1;
    let gy = p.1 + q.1 + 1;
    lemma_similarity_entry(px, w, h, 2 * p.0 + 1, 2 * p.1 + 1);
    lemma_similarity_entry(px, w, h, gx, gy);
    assert(raw(g, w, gx, gy) == entry(g, w, gx, gy));
}

/// The places of the window whose pixels have a color.
spec fn colored(px: Seq<u32>, w: int, h: int, bx: int, by: int, color: u32) -> Set<int> {
    Set::new(
        |c: int|
            {
                let p = window_pixel(bx, by, c);
                0 <= p.0 < w && 0 <= p.1 < h && px[p.1 * w + p.0] == color
            },
    )
}

proof fn lemma_colored_is_closed(
    px: Seq<u32>,
    w: int,
    h: int,
    bx: int,
    by: int,
    first: int,
    second: int,
    color: u32,
)
    requires
        colored(px, w, h, bx, by, color).contains(first),
        colored(px, w, h, bx, by, color).contains(second),
    ensures
        closed_round(
            similarity_graph(px, w, h),
            w,
            h,
            bx,
            by,
            first,
            second,
            colored(px, w, h, bx, by, color),
        ),
{
    let g = similarity_graph(px, w, h);
    let s = colored(px, w, h, bx, by, color);
    assert forall|a: int, b: int|
        s.contains(a) && #[trigger] meets(g, w, h, bx, by, a, b) implies s.contains(b) by {
        law_equal_neighbors_are_joined(
            px,
            w,
            h,
            window_pixel(bx, by, a),
            window_pixel(bx, by, b),
        );
    }
}

/// In the similarity graph of a picture the components of two crossing diagonals
/// share no pixel.
pub proof fn law_crossing_components_are_apart(
    px: Seq<u32>,
    w: int,
    h: int,
    bx: int,
    by: int,
    m: Set<int>,
    a: Set<int>,
)
    requires
        0 <= bx < w - 1,
        0 <= by < h - 1,
        raw(similarity_graph(px, w, h), w, 2 * bx + 2, 2 * by + 2) == 3,
        !joined_around(similarity_graph(px, w, h), w, bx, by),
        component(similarity_graph(px, w, h), w, h, bx, by, 27, 36, m),
        component(similarity_graph(px, w, h), w, h, bx, by, 28, 35, a),
    ensures
        m.disjoint(a),
{
    let p00 = (bx, by);
    let p10 = (bx + 1, by);
    let p01 = (bx, by + 1);
    let p11 = (bx + 1, by + 1);
    law_equal_neighbors_are_joined(px, w, h, p00, p11);
    law_equal_neighbors_are_joined(px, w, h, p10, p01);
    law_equal_neighbors_are_joined(px, w, h, p00, p10);
    law_equal_neighbors_are_joined(px, w, h, p01, p11);
    law_equal_neighbors_are_joined(px, w, h, p00, p01);
    law_equal_neighbors_are_joined(px, w, h, p10, p11);
    let cm = px[by * w + bx];
    let ca = px[by * w + (bx + 1)];
    assert(cm != ca);
    lemma_colored_is_closed(px, w, h, bx, by, 27, 36, cm);
    lemma_colored_is_closed(px, w, h, bx, by, 28, 35, ca);
    assert(m.subset_of(colored(px, w, h, bx, by, cm)));
    assert(a.subset_of(colored(px, w, h, bx, by, ca)));
}

} // verus!
