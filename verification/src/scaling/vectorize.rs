//! Vectorization of pixel art (after Kopf and Lischinski): the similarity
//! graph of a picture and the resolution of its crossing diagonals.
//!
//! A picture of `w` x `h` pixels has a graph of `(2w+1)` x `(2h+1)` entries.
//! Odd-odd entries hold the pixels' colors, entries between two pixels are 1
//! where these have the same color, and even-even entries hold the two
//! diagonals of a corner: bit 0 from top left to bottom right, bit 1 from top
//! right to bottom left. Entries on the rim are 0.

use vstd::prelude::*;
use vstd::set_lib::{lemma_int_range, lemma_len_subset, set_int_range};

use crate::grid::{cell, lemma_cell, lemma_position};

verus! {

pub open spec fn stride(w: int) -> int {
    2 * w + 1
}

// ── Similarity graph ──

pub open spec fn pixel(px: Seq<u32>, w: int, x: int, y: int) -> u32 {
    px[cell(x, y, w)]
}

pub open spec fn on_rim(w: int, h: int, gx: int, gy: int) -> bool {
    gx == 0 || gy == 0 || gx == 2 * w || gy == 2 * h
}

pub open spec fn as_bit(b: bool) -> u32 {
    if b {
        1
    } else {
        0
    }
}

/// Graph entry of a picture at `(gx, gy)`.
pub open spec fn similarity(px: Seq<u32>, w: int, h: int, gx: int, gy: int) -> u32 {
    let x = gx / 2;
    let y = gy / 2;
    if gx % 2 == 1 && gy % 2 == 1 {
        pixel(px, w, x, y)
    } else if on_rim(w, h, gx, gy) {
        0
    } else if gy % 2 == 1 {
        as_bit(pixel(px, w, x - 1, y) == pixel(px, w, x, y))
    } else if gx % 2 == 1 {
        as_bit(pixel(px, w, x, y - 1) == pixel(px, w, x, y))
    } else {
        (as_bit(pixel(px, w, x - 1, y - 1) == pixel(px, w, x, y)) + 2 * as_bit(
            pixel(px, w, x, y - 1) == pixel(px, w, x - 1, y),
        )) as u32
    }
}

/// The similarity graph of a picture.
pub open spec fn similarity_graph(px: Seq<u32>, w: int, h: int) -> Seq<u32> {
    Seq::new(
        (stride(w) * stride(h)) as nat,
        |i: int| similarity(px, w, h, i % stride(w), i / stride(w)),
    )
}

/// Each extent is bounded by the size of the whole graph.
pub proof fn lemma_strides_fit(w: int, h: int, bound: int)
    requires
        0 <= w,
        0 <= h,
        stride(w) * stride(h) <= bound,
    ensures
        stride(w) <= bound,
        stride(h) <= bound,
{
    assert(stride(w) <= bound && stride(h) <= bound) by (nonlinear_arith)
        requires
            1 <= stride(w),
            1 <= stride(h),
            stride(w) * stride(h) <= bound,
    ;
}

fn pixel_at(px: &[u32], w: usize, h: usize, x: usize, y: usize) -> (c: u32)
    requires
        px@.len() >= w * h,
        x < w,
        y < h,
    ensures
        c == pixel(px@, w as int, x as int, y as int),
{
    proof {
        lemma_cell(x as int, y as int, w as int, h as int);
    }
    let _n: usize = px.len();
    px[y * w + x]
}

/// Build the similarity graph of a picture.
pub fn build_similarity_graph(pixels: &[u32], img_w: usize, img_h: usize) -> (graph: Vec<u32>)
    requires
        stride(img_w as int) * stride(img_h as int) <= usize::MAX,
        pixels@.len() >= img_w * img_h,
    ensures
        graph@ == similarity_graph(pixels@, img_w as int, img_h as int),
{
    let w: usize = img_w;
    let h: usize = img_h;
    proof {
        lemma_strides_fit(w as int, h as int, usize::MAX as int);
    }
    let s: usize = 2 * w + 1;
    let rows: usize = 2 * h + 1;
    let total: usize = s * rows;
    let mut graph: Vec<u32> = Vec::new();
    while graph.len() < total
        invariant
            pixels@.len() >= w * h,
            s == stride(w as int),
            rows == stride(h as int),
            total == s * rows,
            graph@.len() <= total,
            forall|i: int|
                0 <= i < graph@.len() ==> #[trigger] graph@[i] == similarity(
                    pixels@,
                    w as int,
                    h as int,
                    i % stride(w as int),
                    i / stride(w as int),
                ),
        decreases total - graph@.len(),
    {
        let i: usize = graph.len();
        proof {
            lemma_position(i as int, s as int, rows as int);
        }
        let gx: usize = i % s;
        let gy: usize = i / s;
        let x: usize = gx / 2;
        let y: usize = gy / 2;
        let value: u32 = if gx % 2 == 1 && gy % 2 == 1 {
            pixel_at(pixels, w, h, x, y)
        } else if gx == 0 || gy == 0 || gx == 2 * w || gy == 2 * h {
            0
        } else if gy % 2 == 1 {
            if pixel_at(pixels, w, h, x - 1, y) == pixel_at(pixels, w, h, x, y) {
                1
            } else {
                0
            }
        } else if gx % 2 == 1 {
            if pixel_at(pixels, w, h, x, y - 1) == pixel_at(pixels, w, h, x, y) {
                1
            } else {
                0
            }
        } else {
            let main: u32 = if pixel_at(pixels, w, h, x - 1, y - 1) == pixel_at(
                pixels,
                w,
                h,
                x,
                y,
            ) {
                1
            } else {
                0
            };
            let anti: u32 = if pixel_at(pixels, w, h, x, y - 1) == pixel_at(
                pixels,
                w,
                h,
                x - 1,
                y,
            ) {
                2
            } else {
                0
            };
            main + anti
        };
        graph.push(value);
    }
    assert(graph@ =~= similarity_graph(pixels@, w as int, h as int));
    graph
}

// ── Crossing diagonals ──

/// Graph entry at `(gx, gy)`.
pub open spec fn entry(g: Seq<u32>, w: int, gx: int, gy: int) -> u32 {
    g[cell(gx, gy, stride(w))]
}

/// A graph of the right size whose rim is empty.
pub open spec fn graph_wf(g: Seq<u32>, w: int, h: int) -> bool {
    &&& 0 <= w
    &&& 0 <= h
    &&& g.len() == stride(w) * stride(h)
    &&& forall|gx: int, gy: int|
        0 <= gx <= 2 * w && 0 <= gy <= 2 * h && on_rim(w, h, gx, gy) ==> #[trigger] entry(
            g,
            w,
            gx,
            gy,
        ) == 0
}

/// The eight directions NW, W, SW, S, SE, E, NE, N as column and row steps.
pub open spec fn step_x(d: int) -> int {
    if d == 0 || d == 1 || d == 2 {
        -1
    } else if d == 3 || d == 7 {
        0
    } else {
        1
    }
}

pub open spec fn step_y(d: int) -> int {
    if d == 0 || d == 6 || d == 7 {
        -1
    } else if d == 1 || d == 5 {
        0
    } else {
        1
    }
}

pub open spec fn opposite8(d: int) -> int {
    (d + 4) % 8
}

/// Pixel `(x, y)` is connected to its neighbor in direction `d`.
pub open spec fn linked(g: Seq<u32>, w: int, x: int, y: int, d: int) -> bool {
    let e = entry(g, w, 2 * x + 1 + step_x(d), 2 * y + 1 + step_y(d));
    if d % 4 == 0 {
        e % 2 == 1
    } else if d % 4 == 2 {
        e / 2 % 2 == 1
    } else {
        e != 0
    }
}

pub open spec fn link_count(g: Seq<u32>, w: int, x: int, y: int, n: nat) -> int
    decreases n,
{
    if n == 0 {
        0
    } else {
        link_count(g, w, x, y, (n - 1) as nat) + if linked(g, w, x, y, n - 1) {
            1int
        } else {
            0int
        }
    }
}

/// Number of connections of a pixel.
pub open spec fn valence(g: Seq<u32>, w: int, x: int, y: int) -> int {
    link_count(g, w, x, y, 8)
}

/// The first connection of a pixel, from direction `d` on, other than `not`.
pub open spec fn other_link(g: Seq<u32>, w: int, x: int, y: int, not: int, d: int) -> int
    decreases 8 - d,
{
    if d >= 8 {
        8
    } else if d != not && linked(g, w, x, y, d) {
        d
    } else {
        other_link(g, w, x, y, not, d + 1)
    }
}

/// Length of the curve through `(x, y)` that came from direction `from`: it
/// goes on as long as pixels have exactly two connections, for at most `n`
/// more pixels.
pub open spec fn curve_length(g: Seq<u32>, w: int, x: int, y: int, from: int, n: nat) -> int
    decreases n,
{
    if n == 0 || valence(g, w, x, y) != 2 || !linked(g, w, x, y, from) {
        1
    } else {
        let d = other_link(g, w, x, y, from, 0);
        1 + curve_length(g, w, x + step_x(d), y + step_y(d), opposite8(d), (n - 1) as nat)
    }
}

/// Flood fill of the 8x8 window around a corner: the label of each cell (1 for
/// the main diagonal, 2 for the other, 0 for neither), the cells found so far
/// in order, and how many were found beyond the four at the corner.
pub struct Flood {
    pub labels: Seq<u8>,
    pub queue: Seq<usize>,
    pub main: int,
    pub anti: int,
}

/// The four pixels at the corner are cells 27, 28, 35 and 36 of the window.
pub open spec fn flood_start() -> Flood {
    Flood {
        labels: Seq::new(
            64,
            |i: int|
                if i == 27 || i == 36 {
                    1u8
                } else if i == 28 || i == 35 {
                    2u8
                } else {
                    0u8
                },
        ),
        queue: seq![27usize, 28usize, 36usize, 35usize],
        main: 0,
        anti: 0,
    }
}

pub open spec fn in_picture(w: int, h: int, x: int, y: int) -> bool {
    0 <= x < w && 0 <= y < h
}

/// Picture coordinates of a cell of the window at corner `(bx, by)`.
pub open spec fn cell_x(bx: int, c: int) -> int {
    bx + c % 8 - 3
}

pub open spec fn cell_y(by: int, c: int) -> int {
    by + c / 8 - 3
}

/// Spread the label of cell `c` in direction `d`.
pub open spec fn flood_dir(
    f: Flood,
    g: Seq<u32>,
    w: int,
    h: int,
    bx: int,
    by: int,
    c: int,
    d: int,
) -> Flood {
    let col = c % 8 + step_x(d);
    let row = c / 8 + step_y(d);
    let n = 8 * row + col;
    if linked(g, w, cell_x(bx, c), cell_y(by, c), d) && 0 <= col < 8 && 0 <= row < 8
        && f.labels[n] == 0 && in_picture(w, h, cell_x(bx, n), cell_y(by, n)) {
        Flood {
            labels: f.labels.update(n, f.labels[c]),
            queue: f.queue.push(n as usize),
            main: f.main + if f.labels[c] == 1 {
                1int
            } else {
                0int
            },
            anti: f.anti + if f.labels[c] == 1 {
                0int
            } else {
                1int
            },
        }
    } else {
        f
    }
}

/// Spread the label of cell `c` in the first `n` directions.
pub open spec fn flood_cell(
    f: Flood,
    g: Seq<u32>,
    w: int,
    h: int,
    bx: int,
    by: int,
    c: int,
    n: nat,
) -> Flood
    decreases n,
{
    if n == 0 {
        f
    } else {
        flood_dir(flood_cell(f, g, w, h, bx, by, c, (n - 1) as nat), g, w, h, bx, by, c, n - 1)
    }
}

/// Process the queue from position `head` on, for at most `fuel` cells.
pub open spec fn flooded(
    f: Flood,
    g: Seq<u32>,
    w: int,
    h: int,
    bx: int,
    by: int,
    head: int,
    fuel: nat,
) -> Flood
    decreases fuel,
{
    if fuel == 0 || head >= f.queue.len() {
        f
    } else {
        let c = f.queue[head] as int;
        let f1 = if in_picture(w, h, cell_x(bx, c), cell_y(by, c)) {
            flood_cell(f, g, w, h, bx, by, c, 8)
        } else {
            f
        };
        flooded(f1, g, w, h, bx, by, head + 1, (fuel - 1) as nat)
    }
}

/// What speaks for one of two crossing diagonals.
pub struct Votes {
    pub main: int,
    pub anti: int,
}

/// The longer curve speaks for its diagonal, by the difference in length.
pub open spec fn curve_votes(g: Seq<u32>, w: int, bx: int, by: int) -> Votes {
    let main = curve_length(g, w, bx, by, 4, 200) + curve_length(g, w, bx + 1, by + 1, 0, 200);
    let anti = curve_length(g, w, bx + 1, by, 2, 200) + curve_length(g, w, bx, by + 1, 6, 200);
    Votes {
        main: if main > anti {
            main - anti
        } else {
            0
        },
        anti: if anti > main {
            anti - main
        } else {
            0
        },
    }
}

/// The sparser component speaks for its diagonal, by the difference in size.
pub open spec fn sparse_votes(g: Seq<u32>, w: int, h: int, bx: int, by: int) -> Votes {
    let f = flooded(flood_start(), g, w, h, bx, by, 0, 64);
    Votes {
        main: if f.main < f.anti {
            f.anti - f.main
        } else {
            0
        },
        anti: if f.anti < f.main {
            f.main - f.anti
        } else {
            0
        },
    }
}

/// An end that would become an island speaks for its diagonal, by five.
pub open spec fn island_votes(g: Seq<u32>, w: int, bx: int, by: int) -> Votes {
    if valence(g, w, bx, by) == 1 || valence(g, w, bx + 1, by + 1) == 1 {
        Votes { main: 5, anti: 0 }
    } else if valence(g, w, bx + 1, by) == 1 || valence(g, w, bx, by + 1) == 1 {
        Votes { main: 0, anti: 5 }
    } else {
        Votes { main: 0, anti: 0 }
    }
}

/// All four pixels at a corner are connected around it.
pub open spec fn fully_connected(g: Seq<u32>, w: int, bx: int, by: int) -> bool {
    let gx = 2 * bx + 2;
    let gy = 2 * by + 2;
    entry(g, w, gx, gy - 1) != 0 && entry(g, w, gx, gy + 1) != 0 && entry(g, w, gx - 1, gy) != 0
        && entry(g, w, gx + 1, gy) != 0
}

/// Diagonals that remain at the corner between `(bx, by)` and `(bx+1, by+1)`.
pub open spec fn resolved_corner(g: Seq<u32>, w: int, h: int, bx: int, by: int) -> u32 {
    let flags = entry(g, w, 2 * bx + 2, 2 * by + 2);
    if flags == 0 || fully_connected(g, w, bx, by) {
        0
    } else if flags == 1 || flags == 2 {
        flags
    } else {
        let c = curve_votes(g, w, bx, by);
        let s = sparse_votes(g, w, h, bx, by);
        let i = island_votes(g, w, bx, by);
        let main = c.main + s.main + i.main;
        let anti = c.anti + s.anti + i.anti;
        if main > anti {
            1
        } else if anti > main {
            2
        } else {
            0
        }
    }
}

/// Graph entry after the crossings were resolved.
pub open spec fn resolved_entry(g: Seq<u32>, w: int, h: int, gx: int, gy: int) -> u32 {
    if gx % 2 == 0 && gy % 2 == 0 && !on_rim(w, h, gx, gy) {
        resolved_corner(g, w, h, gx / 2 - 1, gy / 2 - 1)
    } else {
        entry(g, w, gx, gy)
    }
}

/// The graph after its crossings were resolved.
pub open spec fn resolved_graph(g: Seq<u32>, w: int, h: int) -> Seq<u32> {
    Seq::new(
        (stride(w) * stride(h)) as nat,
        |i: int| resolved_entry(g, w, h, i % stride(w), i / stride(w)),
    )
}

// ── Resolving, executable ──

fn entry_at(g: &[u32], w: usize, h: usize, gx: usize, gy: usize) -> (v: u32)
    requires
        g@.len() == stride(w as int) * stride(h as int),
        gx <= 2 * w,
        gy <= 2 * h,
    ensures
        v == entry(g@, w as int, gx as int, gy as int),
{
    let _n: usize = g.len();
    proof {
        lemma_strides_fit(w as int, h as int, usize::MAX as int);
        lemma_cell(gx as int, gy as int, stride(w as int), stride(h as int));
    }
    let s: usize = 2 * w + 1;
    g[gy * s + gx]
}

fn exec_step_x(d: usize) -> (r: i32)
    requires
        d < 8,
    ensures
        r == step_x(d as int),
{
    match d {
        0 | 1 | 2 => -1,
        3 | 7 => 0,
        _ => 1,
    }
}

fn exec_step_y(d: usize) -> (r: i32)
    requires
        d < 8,
    ensures
        r == step_y(d as int),
{
    match d {
        0 | 6 | 7 => -1,
        1 | 5 => 0,
        _ => 1,
    }
}

/// `base` moved by a step of -1, 0 or 1.
fn moved(base: usize, by: i32) -> (r: usize)
    requires
        -1 <= by <= 1,
        0 <= base + by <= usize::MAX,
    ensures
        r == base + by,
{
    if by < 0 {
        base - 1
    } else if by > 0 {
        base + 1
    } else {
        base
    }
}

fn is_linked(g: &[u32], w: usize, h: usize, x: usize, y: usize, d: usize) -> (r: bool)
    requires
        g@.len() == stride(w as int) * stride(h as int),
        x < w,
        y < h,
        d < 8,
    ensures
        r == linked(g@, w as int, x as int, y as int, d as int),
{
    let _n: usize = g.len();
    proof {
        lemma_strides_fit(w as int, h as int, usize::MAX as int);
    }
    let gx: usize = moved(2 * x + 1, exec_step_x(d));
    let gy: usize = moved(2 * y + 1, exec_step_y(d));
    let e: u32 = entry_at(g, w, h, gx, gy);
    match d % 4 {
        0 => e % 2 == 1,
        2 => e / 2 % 2 == 1,
        _ => e != 0,
    }
}

fn valence_of(g: &[u32], w: usize, h: usize, x: usize, y: usize) -> (r: u32)
    requires
        g@.len() == stride(w as int) * stride(h as int),
        x < w,
        y < h,
    ensures
        r == valence(g@, w as int, x as int, y as int),
{
    let mut r: u32 = 0;
    let mut d: usize = 0;
    while d < 8
        invariant
            d <= 8,
            g@.len() == stride(w as int) * stride(h as int),
            x < w,
            y < h,
            r == link_count(g@, w as int, x as int, y as int, d as nat),
            r <= d,
        decreases 8 - d,
    {
        if is_linked(g, w, h, x, y, d) {
            r = r + 1;
        }
        d = d + 1;
    }
    r
}

/// A connection leads to a pixel of the picture.
proof fn lemma_link_stays_inside(g: Seq<u32>, w: int, h: int, x: int, y: int, d: int)
    requires
        graph_wf(g, w, h),
        in_picture(w, h, x, y),
        0 <= d < 8,
        linked(g, w, x, y, d),
    ensures
        in_picture(w, h, x + step_x(d), y + step_y(d)),
{
    let gx = 2 * x + 1 + step_x(d);
    let gy = 2 * y + 1 + step_y(d);
    if !in_picture(w, h, x + step_x(d), y + step_y(d)) {
        assert(on_rim(w, h, gx, gy));
        assert(entry(g, w, gx, gy) == 0);
    }
}

/// A pixel with two connections has one besides the given one.
proof fn lemma_other_link_exists(g: Seq<u32>, w: int, x: int, y: int, not: int, d: int)
    requires
        0 <= d <= 8,
        0 <= not < 8,
        linked(g, w, x, y, not),
        valence(g, w, x, y) - link_count(g, w, x, y, d as nat) >= (if d <= not {
            2int
        } else {
            1int
        }),
    ensures
        d <= other_link(g, w, x, y, not, d) < 8,
        linked(g, w, x, y, other_link(g, w, x, y, not, d)),
        other_link(g, w, x, y, not, d) != not,
    decreases 8 - d,
{
    if d < 8 {
        assert(link_count(g, w, x, y, (d + 1) as nat) == link_count(g, w, x, y, d as nat) + if linked(
            g,
            w,
            x,
            y,
            d,
        ) {
            1int
        } else {
            0int
        });
        if d != not && linked(g, w, x, y, d) {
        } else {
            lemma_other_link_exists(g, w, x, y, not, d + 1);
        }
    }
}

fn other_link_of(g: &[u32], w: usize, h: usize, x: usize, y: usize, not: usize) -> (r: usize)
    requires
        g@.len() == stride(w as int) * stride(h as int),
        x < w,
        y < h,
        not < 8,
    ensures
        r == other_link(g@, w as int, x as int, y as int, not as int, 0),
        r <= 8,
{
    let mut d: usize = 0;
    while d < 8
        invariant
            d <= 8,
            g@.len() == stride(w as int) * stride(h as int),
            x < w,
            y < h,
            other_link(g@, w as int, x as int, y as int, not as int, 0) == other_link(
                g@,
                w as int,
                x as int,
                y as int,
                not as int,
                d as int,
            ),
        decreases 8 - d,
    {
        if d != not && is_linked(g, w, h, x, y, d) {
            return d;
        }
        d = d + 1;
    }
    8
}

/// Length of the curve through a pixel that came from direction `from`.
fn walk_chain(g: &[u32], w: usize, h: usize, sx: usize, sy: usize, from: usize) -> (len: u32)
    requires
        graph_wf(g@, w as int, h as int),
        sx < w,
        sy < h,
        from < 8,
    ensures
        len == curve_length(g@, w as int, sx as int, sy as int, from as int, 200),
        1 <= len <= 201,
{
    let mut x: usize = sx;
    let mut y: usize = sy;
    let mut pred: usize = from;
    let mut len: u32 = 1;
    let mut left: u32 = 200;
    while left > 0
        invariant_except_break
            curve_length(g@, w as int, sx as int, sy as int, from as int, 200) == len - 1
                + curve_length(g@, w as int, x as int, y as int, pred as int, left as nat),
        invariant
            graph_wf(g@, w as int, h as int),
            x < w,
            y < h,
            pred < 8,
            left <= 200,
            len == 201 - left,
        ensures
            curve_length(g@, w as int, sx as int, sy as int, from as int, 200) == len,
        decreases left,
    {
        if valence_of(g, w, h, x, y) != 2 {
            break;
        }
        if !is_linked(g, w, h, x, y, pred) {
            break;
        }
        let d: usize = other_link_of(g, w, h, x, y, pred);
        proof {
            lemma_other_link_exists(g@, w as int, x as int, y as int, pred as int, 0);
            lemma_link_stays_inside(g@, w as int, h as int, x as int, y as int, d as int);
        }
        x = moved(x, exec_step_x(d));
        y = moved(y, exec_step_y(d));
        pred = (d + 4) % 8;
        len = len + 1;
        left = left - 1;
    }
    len
}

/// Cells are found at most once.
pub open spec fn flood_wf(f: Flood) -> bool {
    &&& f.labels.len() == 64
    &&& forall|i: int| 0 <= i < f.queue.len() ==> (#[trigger] f.queue[i]) < 64
    &&& forall|i: int|
        0 <= i < f.queue.len() ==> f.labels[(#[trigger] f.queue[i]) as int] != 0
    &&& f.queue.no_duplicates()
    &&& f.main + f.anti == f.queue.len() - 4
    &&& 0 <= f.main
    &&& 0 <= f.anti
}

/// A window of 64 cells cannot queue more than 64.
pub proof fn lemma_queue_bound(f: Flood)
    requires
        flood_wf(f),
    ensures
        f.queue.len() <= 64,
{
    let q = f.queue.map_values(|c: usize| c as int);
    assert(q.no_duplicates()) by {
        assert forall|i: int, j: int|
            0 <= i < q.len() && 0 <= j < q.len() && i != j implies q[i] != q[j] by {
            assert(f.queue[i] != f.queue[j]);
        }
    }
    q.unique_seq_to_set();
    let all = set_int_range(0, 64);
    lemma_int_range(0, 64);
    assert(q.to_set().subset_of(all)) by {
        assert forall|c: int| q.to_set().contains(c) implies all.contains(c) by {
            let i = choose|i: int| 0 <= i < q.len() && q[i] == c;
            assert(f.queue[i] < 64);
        }
    }
    lemma_len_subset(q.to_set(), all);
}

/// Sizes of the two components in the window around a corner.
fn sparse_pixel_sizes(g: &[u32], w: usize, h: usize, bx: usize, by: usize) -> (r: (u32, u32))
    requires
        graph_wf(g@, w as int, h as int),
        bx + 1 < w,
        by + 1 < h,
    ensures
        ({
            let f = flooded(
                flood_start(),
                g@,
                w as int,
                h as int,
                bx as int,
                by as int,
                0,
                64,
            );
            r.0 == f.main && r.1 == f.anti
        }),
        r.0 <= 60,
        r.1 <= 60,
{
    let _n: usize = g.len();
    proof {
        lemma_strides_fit(w as int, h as int, usize::MAX as int);
    }
    let mut labels: [u8; 64] = [0u8;64];
    labels[27] = 1;
    labels[28] = 2;
    labels[35] = 2;
    labels[36] = 1;
    let mut queue: Vec<usize> = Vec::new();
    queue.push(27);
    queue.push(28);
    queue.push(36);
    queue.push(35);
    let mut size_a: u32 = 0;
    let mut size_b: u32 = 0;
    let mut head: usize = 0;
    let ghost mut f = flood_start();
    assert(labels@ =~= f.labels);
    assert(queue@ =~= f.queue);
    proof {
        lemma_queue_bound(f);
    }
    while head < queue.len()
        invariant
            graph_wf(g@, w as int, h as int),
            2 * w + 1 <= usize::MAX,
            2 * h + 1 <= usize::MAX,
            bx + 1 < w,
            by + 1 < h,
            head <= queue@.len() <= 64,
            f == (Flood {
                labels: labels@,
                queue: queue@,
                main: size_a as int,
                anti: size_b as int,
            }),
            flood_wf(f),
            flooded(flood_start(), g@, w as int, h as int, bx as int, by as int, 0, 64) == flooded(
                f,
                g@,
                w as int,
                h as int,
                bx as int,
                by as int,
                head as int,
                (64 - head) as nat,
            ),
        decreases 64 - head,
    {
        let c: usize = queue[head];
        let sum_x: usize = bx + c % 8;
        let sum_y: usize = by + c / 8;
        let ghost f0 = f;
        if sum_x >= 3 && sum_x - 3 < w && sum_y >= 3 && sum_y - 3 < h {
            let px: usize = sum_x - 3;
            let py: usize = sum_y - 3;
            let mut d: usize = 0;
            while d < 8
                invariant
                    d <= 8,
                    graph_wf(g@, w as int, h as int),
                    2 * w + 1 <= usize::MAX,
                    2 * h + 1 <= usize::MAX,
                    c < 64,
                    bx + 1 < w,
                    by + 1 < h,
                    px == cell_x(bx as int, c as int),
                    py == cell_y(by as int, c as int),
                    px < w,
                    py < h,
                    queue@.len() <= 64,
                    f == (Flood {
                        labels: labels@,
                        queue: queue@,
                        main: size_a as int,
                        anti: size_b as int,
                    }),
                    flood_wf(f),
                    f0.queue.len() <= queue@.len(),
                    labels@[c as int] != 0,
                    f == flood_cell(
                        f0,
                        g@,
                        w as int,
                        h as int,
                        bx as int,
                        by as int,
                        c as int,
                        d as nat,
                    ),
                decreases 8 - d,
            {
                let col: i32 = (c % 8) as i32 + exec_step_x(d);
                let row: i32 = (c / 8) as i32 + exec_step_y(d);
                let ghost before = f;
                if is_linked(g, w, h, px, py, d) && 0 <= col && col < 8 && 0 <= row && row < 8 {
                    let n: usize = 8 * (row as usize) + col as usize;
                    let nx: usize = bx + col as usize;
                    let ny: usize = by + row as usize;
                    if labels[n] == 0 && nx >= 3 && nx - 3 < w && ny >= 3 && ny - 3 < h {
                        let label: u8 = labels[c];
                        labels[n] = label;
                        queue.push(n);
                        if label == 1 {
                            size_a = size_a + 1;
                        } else {
                            size_b = size_b + 1;
                        }
                        proof {
                            f = flood_dir(
                                f,
                                g@,
                                w as int,
                                h as int,
                                bx as int,
                                by as int,
                                c as int,
                                d as int,
                            );
                            assert(n % 8 == col && n / 8 == row);
                            assert(f.labels == labels@);
                            assert(f.queue == queue@);
                            assert(flood_wf(f)) by {
                                assert forall|i: int, j: int|
                                    0 <= i < f.queue.len() && 0 <= j < f.queue.len() && i
                                        != j implies f.queue[i] != f.queue[j] by {
                                    if i < before.queue.len() && j < before.queue.len() {
                                        assert(before.queue[i] != before.queue[j]);
                                    } else if i < before.queue.len() {
                                        assert(before.labels[before.queue[i] as int] != 0);
                                    } else {
                                        assert(before.labels[before.queue[j] as int] != 0);
                                    }
                                }
                                assert forall|i: int| 0 <= i < f.queue.len() implies f.labels[(
                                #[trigger] f.queue[i]) as int] != 0 by {
                                    if i < before.queue.len() {
                                        assert(before.labels[before.queue[i] as int] != 0);
                                    }
                                }
                            }
                            lemma_queue_bound(f);
                        }
                    }
                }
                assert(f == flood_dir(
                    before,
                    g@,
                    w as int,
                    h as int,
                    bx as int,
                    by as int,
                    c as int,
                    d as int,
                ));
                d = d + 1;
            }
        }
        head = head + 1;
    }
    (size_a, size_b)
}

/// Diagonals that remain at a corner.
fn resolve_corner(g: &[u32], w: usize, h: usize, bx: usize, by: usize) -> (r: u32)
    requires
        graph_wf(g@, w as int, h as int),
        bx + 1 < w,
        by + 1 < h,
    ensures
        r == resolved_corner(g@, w as int, h as int, bx as int, by as int),
{
    let _n: usize = g.len();
    proof {
        lemma_strides_fit(w as int, h as int, usize::MAX as int);
    }
    let gx: usize = 2 * bx + 2;
    let gy: usize = 2 * by + 2;
    let flags: u32 = entry_at(g, w, h, gx, gy);
    if flags == 0 {
        return 0;
    }
    let top: u32 = entry_at(g, w, h, gx, gy - 1);
    let bottom: u32 = entry_at(g, w, h, gx, gy + 1);
    let left: u32 = entry_at(g, w, h, gx - 1, gy);
    let right: u32 = entry_at(g, w, h, gx + 1, gy);
    if top != 0 && bottom != 0 && left != 0 && right != 0 {
        return 0;
    }
    if flags == 1 || flags == 2 {
        return flags;
    }
    let mut main_vote: u32 = 0;
    let mut anti_vote: u32 = 0;
    let main_len: u32 = walk_chain(g, w, h, bx, by, 4) + walk_chain(g, w, h, bx + 1, by + 1, 0);
    let anti_len: u32 = walk_chain(g, w, h, bx + 1, by, 2) + walk_chain(g, w, h, bx, by + 1, 6);
    if main_len > anti_len {
        main_vote = main_vote + (main_len - anti_len);
    } else if anti_len > main_len {
        anti_vote = anti_vote + (anti_len - main_len);
    }
    let (main_size, anti_size) = sparse_pixel_sizes(g, w, h, bx, by);
    if main_size < anti_size {
        main_vote = main_vote + (anti_size - main_size);
    } else if anti_size < main_size {
        anti_vote = anti_vote + (main_size - anti_size);
    }
    if valence_of(g, w, h, bx, by) == 1 || valence_of(g, w, h, bx + 1, by + 1) == 1 {
        main_vote = main_vote + 5;
    } else if valence_of(g, w, h, bx + 1, by) == 1 || valence_of(g, w, h, bx, by + 1) == 1 {
        anti_vote = anti_vote + 5;
    }
    if main_vote > anti_vote {
        1
    } else if anti_vote > main_vote {
        2
    } else {
        0
    }
}

/// Resolve the crossing diagonals of a graph.
pub fn resolve_crossings(graph_in: &[u32], img_w: usize, img_h: usize) -> (graph: Vec<u32>)
    requires
        graph_wf(graph_in@, img_w as int, img_h as int),
    ensures
        graph@ == resolved_graph(graph_in@, img_w as int, img_h as int),
{
    let w: usize = img_w;
    let h: usize = img_h;
    let total: usize = graph_in.len();
    proof {
        lemma_strides_fit(w as int, h as int, usize::MAX as int);
    }
    let s: usize = 2 * w + 1;
    let mut graph: Vec<u32> = Vec::new();
    while graph.len() < total
        invariant
            graph_wf(graph_in@, w as int, h as int),
            total == stride(w as int) * stride(h as int),
            s == stride(w as int),
            2 * h + 1 <= usize::MAX,
            total == graph_in@.len(),
            graph@.len() <= total,
            forall|i: int|
                0 <= i < graph@.len() ==> #[trigger] graph@[i] == resolved_entry(
                    graph_in@,
                    w as int,
                    h as int,
                    i % stride(w as int),
                    i / stride(w as int),
                ),
        decreases total - graph@.len(),
    {
        let i: usize = graph.len();
        proof {
            lemma_position(i as int, s as int, stride(h as int));
        }
        let gx: usize = i % s;
        let gy: usize = i / s;
        let value: u32 = if gx % 2 == 0 && gy % 2 == 0 && gx != 0 && gy != 0 && gx != 2 * w && gy
            != 2 * h {
            resolve_corner(graph_in, w, h, gx / 2 - 1, gy / 2 - 1)
        } else {
            graph_in[i]
        };
        graph.push(value);
    }
    assert(graph@ =~= resolved_graph(graph_in@, w as int, h as int));
    graph
}

// ── Laws ──

pub proof fn lemma_similarity_entry(px: Seq<u32>, w: int, h: int, gx: int, gy: int)
    requires
        0 <= gx <= 2 * w,
        0 <= gy <= 2 * h,
    ensures
        entry(similarity_graph(px, w, h), w, gx, gy) == similarity(px, w, h, gx, gy),
{
    lemma_cell(gx, gy, stride(w), stride(h));
}

/// The similarity graph of a picture is well-formed.
pub proof fn law_similarity_graph_is_wf(px: Seq<u32>, w: int, h: int)
    requires
        0 <= w,
        0 <= h,
    ensures
        graph_wf(similarity_graph(px, w, h), w, h),
{
    let g = similarity_graph(px, w, h);
    assert(stride(w) * stride(h) >= 0) by (nonlinear_arith)
        requires
            0 <= w,
            0 <= h,
            stride(w) == 2 * w + 1,
            stride(h) == 2 * h + 1,
    ;
    assert forall|gx: int, gy: int|
        0 <= gx <= 2 * w && 0 <= gy <= 2 * h && on_rim(w, h, gx, gy) implies #[trigger] entry(
        g,
        w,
        gx,
        gy,
    ) == 0 by {
        lemma_similarity_entry(px, w, h, gx, gy);
    }
}

/// Connections are symmetric: a pixel is connected to a neighbor exactly when
/// the neighbor is connected to it.
pub proof fn law_links_are_symmetric(g: Seq<u32>, w: int, x: int, y: int, d: int)
    requires
        0 <= d < 8,
    ensures
        linked(g, w, x, y, d) == linked(g, w, x + step_x(d), y + step_y(d), opposite8(d)),
        step_x(opposite8(d)) == -step_x(d),
        step_y(opposite8(d)) == -step_y(d),
{
}

/// In the similarity graph two adjacent pixels are connected exactly when they
/// have the same color.
pub proof fn law_links_join_equal_colors(px: Seq<u32>, w: int, h: int, x: int, y: int, d: int)
    requires
        in_picture(w, h, x, y),
        0 <= d < 8,
        in_picture(w, h, x + step_x(d), y + step_y(d)),
    ensures
        linked(similarity_graph(px, w, h), w, x, y, d) == (pixel(px, w, x, y) == pixel(
            px,
            w,
            x + step_x(d),
            y + step_y(d),
        )),
{
    lemma_similarity_entry(px, w, h, 2 * x + 1 + step_x(d), 2 * y + 1 + step_y(d));
}

/// Resolving leaves a well-formed graph in which no corner has both diagonals,
/// and touches nothing but the corners.
pub proof fn law_resolved_graph_has_no_crossings(g: Seq<u32>, w: int, h: int, gx: int, gy: int)
    requires
        graph_wf(g, w, h),
        0 <= gx <= 2 * w,
        0 <= gy <= 2 * h,
    ensures
        graph_wf(resolved_graph(g, w, h), w, h),
        gx % 2 == 0 && gy % 2 == 0 ==> entry(resolved_graph(g, w, h), w, gx, gy) <= 2,
        gx % 2 == 1 || gy % 2 == 1 ==> entry(resolved_graph(g, w, h), w, gx, gy) == entry(
            g,
            w,
            gx,
            gy,
        ),
{
    let r = resolved_graph(g, w, h);
    assert forall|x: int, y: int| 0 <= x <= 2 * w && 0 <= y <= 2 * h implies #[trigger] entry(
        r,
        w,
        x,
        y,
    ) == resolved_entry(g, w, h, x, y) by {
        lemma_cell(x, y, stride(w), stride(h));
    }
    assert forall|x: int, y: int|
        0 <= x <= 2 * w && 0 <= y <= 2 * h && on_rim(w, h, x, y) implies #[trigger] entry(
        r,
        w,
        x,
        y,
    ) == 0 by {
        assert(entry(g, w, x, y) == 0);
    }
    if on_rim(w, h, gx, gy) {
        assert(entry(g, w, gx, gy) == 0);
    }
}

/// Resolving never adds a diagonal: what remains of a corner with at most two
/// diagonals is one of them or nothing.
pub proof fn law_resolving_only_removes(g: Seq<u32>, w: int, h: int, bx: int, by: int)
    requires
        entry(g, w, 2 * bx + 2, 2 * by + 2) <= 3,
    ensures
        ({
            let before = entry(g, w, 2 * bx + 2, 2 * by + 2);
            let after = resolved_corner(g, w, h, bx, by);
            &&& after % 2 == 1 ==> before % 2 == 1
            &&& after / 2 % 2 == 1 ==> before / 2 % 2 == 1
        }),
{
}

} // verus!
