//! Drawing on enlarged pictures. A canvas holds red, green, blue and alpha
//! bytes, row by row.

use vstd::prelude::*;

use crate::grid::{cell, lemma_cell, lemma_position};

verus! {

// ── Enlarging ──

/// A canvas has four bytes for each pixel.
pub open spec fn canvas_wf(buf: Seq<u8>, w: int, h: int) -> bool {
    1 <= w && 1 <= h && buf.len() == 4 * (w * h)
}

/// Byte `b` of an enlarged picture: every pixel becomes a square, and all are
/// opaque.
pub open spec fn enlarged_byte(src: Seq<u8>, w: int, n: int, b: int) -> u8 {
    let i = b / 4;
    let x = i % (w * n) / n;
    let y = i / (w * n) / n;
    if b % 4 == 3 {
        255
    } else {
        src[4 * cell(x, y, w) + b % 4]
    }
}

/// Enlarge a picture `n` times.
pub fn enlarge(src: &[u8], w: usize, h: usize, n: usize) -> (r: Vec<u8>)
    requires
        canvas_wf(src@, w as int, h as int),
        1 <= n,
        4 * ((w * n) * (h * n)) <= usize::MAX,
    ensures
        canvas_wf(r@, w * n, h * n),
        r@ == Seq::new(
            (4 * ((w * n) * (h * n))) as nat,
            |b: int| enlarged_byte(src@, w as int, n as int, b),
        ),
{
    let _n: usize = src.len();
    assert(1 <= w * n && 1 <= h * n && w * n <= (w * n) * (h * n) && h * n <= (w * n) * (h * n))
        by (nonlinear_arith)
        requires
            1 <= w,
            1 <= h,
            1 <= n,
    ;
    let fw: usize = w * n;
    let fh: usize = h * n;
    let total: usize = 4 * (fw * fh);
    let mut r: Vec<u8> = Vec::new();
    while r.len() < total
        invariant
            canvas_wf(src@, w as int, h as int),
            src@.len() <= usize::MAX,
            1 <= n,
            fw == w * n,
            fh == h * n,
            1 <= fw,
            total == 4 * (fw * fh),
            r@.len() <= total,
            forall|b: int|
                0 <= b < r@.len() ==> #[trigger] r@[b] == enlarged_byte(
                    src@,
                    w as int,
                    n as int,
                    b,
                ),
        decreases total - r@.len(),
    {
        let b: usize = r.len();
        let i: usize = b / 4;
        proof {
            lemma_position(i as int, fw as int, fh as int);
            assert(w * n == n * w && h * n == n * h) by (nonlinear_arith);
            lemma_position(i as int % fw as int, n as int, w as int);
            lemma_position(i as int / fw as int, n as int, h as int);
            lemma_cell(
                i as int % fw as int / n as int,
                i as int / fw as int / n as int,
                w as int,
                h as int,
            );
        }
        let x: usize = i % fw / n;
        let y: usize = i / fw / n;
        if b % 4 == 3 {
            r.push(255);
        } else {
            r.push(src[4 * (y * w + x) + b % 4]);
        }
    }
    assert(r@ =~= Seq::new(
        (4 * ((w * n) * (h * n))) as nat,
        |b: int| enlarged_byte(src@, w as int, n as int, b),
    ));
    r
}

/// Byte `b` of an enlarged square region whose top left pixel is `(x0, y0)`:
/// black beyond the picture.
pub open spec fn region_byte(
    src: Seq<u8>,
    w: int,
    h: int,
    x0: int,
    y0: int,
    size: int,
    mag: int,
    b: int,
) -> u8 {
    let i = b / 4;
    let x = x0 + i % size / mag;
    let y = y0 + i / size / mag;
    if b % 4 == 3 {
        255
    } else if 0 <= x < w && 0 <= y < h {
        src[4 * cell(x, y, w) + b % 4]
    } else {
        0
    }
}

/// Enlarge the square region of `span` pixels from `(x0, y0)` on.
pub fn enlarge_region(
    src: &[u8],
    w: usize,
    h: usize,
    x0: i32,
    y0: i32,
    span: usize,
    mag: usize,
) -> (r: Vec<u8>)
    requires
        canvas_wf(src@, w as int, h as int),
        w <= i32::MAX,
        h <= i32::MAX,
        1 <= span <= i32::MAX,
        1 <= mag,
        4 * ((span * mag) * (span * mag)) <= usize::MAX,
    ensures
        r@ == Seq::new(
            (4 * ((span * mag) * (span * mag))) as nat,
            |b: int|
                region_byte(
                    src@,
                    w as int,
                    h as int,
                    x0 as int,
                    y0 as int,
                    span * mag,
                    mag as int,
                    b,
                ),
        ),
{
    let _n: usize = src.len();
    assert(1 <= span * mag && span * mag <= (span * mag) * (span * mag)) by (nonlinear_arith)
        requires
            1 <= span,
            1 <= mag,
    ;
    let size: usize = span * mag;
    let total: usize = 4 * (size * size);
    let mut r: Vec<u8> = Vec::new();
    while r.len() < total
        invariant
            canvas_wf(src@, w as int, h as int),
            src@.len() <= usize::MAX,
            w <= i32::MAX,
            h <= i32::MAX,
            1 <= span <= i32::MAX,
            1 <= mag,
            size == span * mag,
            1 <= size,
            total == 4 * (size * size),
            r@.len() <= total,
            forall|b: int|
                0 <= b < r@.len() ==> #[trigger] r@[b] == region_byte(
                    src@,
                    w as int,
                    h as int,
                    x0 as int,
                    y0 as int,
                    size as int,
                    mag as int,
                    b,
                ),
        decreases total - r@.len(),
    {
        let b: usize = r.len();
        let i: usize = b / 4;
        proof {
            lemma_position(i as int, size as int, size as int);
            assert(span * mag == mag * span) by (nonlinear_arith);
            lemma_position(i as int % size as int, mag as int, span as int);
            lemma_position(i as int / size as int, mag as int, span as int);
        }
        let x: i64 = x0 as i64 + (i % size / mag) as i64;
        let y: i64 = y0 as i64 + (i / size / mag) as i64;
        if b % 4 == 3 {
            r.push(255);
        } else if 0 <= x && x < w as i64 && 0 <= y && y < h as i64 {
            proof {
                lemma_cell(x as int, y as int, w as int, h as int);
            }
            r.push(src[4 * (y as usize * w + x as usize) + b % 4]);
        } else {
            r.push(0);
        }
    }
    assert(r@ =~= Seq::new(
        (4 * ((span * mag) * (span * mag))) as nat,
        |b: int|
            region_byte(
                src@,
                w as int,
                h as int,
                x0 as int,
                y0 as int,
                span * mag,
                mag as int,
                b,
            ),
    ));
    r
}

// ── Points ──

/// A canvas with one pixel mixed halfway with a color; pixels off the canvas
/// are left out.
pub open spec fn plotted(buf: Seq<u8>, w: int, h: int, x: int, y: int, c: Seq<u8>) -> Seq<u8> {
    if 0 <= x < w && 0 <= y < h {
        let i = 4 * cell(x, y, w);
        buf.update(i, ((c[0] + buf[i]) / 2) as u8).update(
            i + 1,
            ((c[1] + buf[i + 1]) / 2) as u8,
        ).update(i + 2, ((c[2] + buf[i + 2]) / 2) as u8)
    } else {
        buf
    }
}

/// Mix one pixel halfway with a color.
pub fn plot(buf: &mut Vec<u8>, w: usize, h: usize, x: i32, y: i32, c: [u8; 3])
    requires
        canvas_wf(old(buf)@, w as int, h as int),
        w <= i32::MAX,
        h <= i32::MAX,
    ensures
        final(buf)@ == plotted(old(buf)@, w as int, h as int, x as int, y as int, c@),
        canvas_wf(final(buf)@, w as int, h as int),
{
    if x < 0 || y < 0 || x >= w as i32 || y >= h as i32 {
        return;
    }
    let _n: usize = buf.len();
    proof {
        lemma_cell(x as int, y as int, w as int, h as int);
    }
    let i: usize = 4 * (y as usize * w + x as usize);
    let r: u8 = ((c[0] as u16 + buf[i] as u16) / 2) as u8;
    let g: u8 = ((c[1] as u16 + buf[i + 1] as u16) / 2) as u8;
    let b: u8 = ((c[2] as u16 + buf[i + 2] as u16) / 2) as u8;
    buf[i] = r;
    buf[i + 1] = g;
    buf[i + 2] = b;
}

// ── Lines ──

pub open spec fn absolute(v: int) -> int {
    if v < 0 {
        -v
    } else {
        v
    }
}

/// One step towards a coordinate.
pub open spec fn towards(from: int, to: int) -> int {
    if from < to {
        1
    } else {
        -1
    }
}

/// Where a line stands: the pixel, and how far it is off, as a multiple of the
/// extents.
#[derive(Clone, Copy, PartialEq, Eq, Structural)]
pub struct Pen {
    pub x: i64,
    pub y: i64,
    pub err: i64,
}

/// The pixel after this one on a line with extents `dx` and `dy` and steps `sx`
/// and `sy`.
pub open spec fn pen_step(p: Pen, dx: int, dy: int, sx: int, sy: int) -> Pen {
    let along = 2 * p.err >= -dy;
    let across = 2 * p.err <= dx;
    Pen {
        x: (p.x + if along {
            sx
        } else {
            0
        }) as i64,
        y: (p.y + if across {
            sy
        } else {
            0
        }) as i64,
        err: (p.err + (if along {
            -dy
        } else {
            0
        }) + (if across {
            dx
        } else {
            0
        })) as i64,
    }
}

/// The pens of a line from one on, `n` of them.
pub open spec fn pens(p: Pen, dx: int, dy: int, sx: int, sy: int, n: nat) -> Seq<Pen>
    decreases n,
{
    if n == 0 {
        seq![]
    } else {
        seq![p] + pens(pen_step(p, dx, dy, sx, sy), dx, dy, sx, sy, (n - 1) as nat)
    }
}

/// The pen stands on the line: after `a` steps along and `b` steps across.
pub open spec fn on_line(
    p: Pen,
    x0: int,
    y0: int,
    dx: int,
    dy: int,
    sx: int,
    sy: int,
    a: int,
    b: int,
) -> bool {
    &&& 0 <= a <= dx
    &&& 0 <= b <= dy
    &&& p.x == x0 + sx * a
    &&& p.y == y0 + sy * b
    &&& p.err == dx - dy - dy * a + dx * b
    &&& -2 * (dx + dy) <= p.err <= 2 * (dx + dy)
}

/// A step keeps to the line and does not overshoot its end.
proof fn lemma_step(
    p: Pen,
    x0: int,
    y0: int,
    dx: int,
    dy: int,
    sx: int,
    sy: int,
    a: int,
    b: int,
) -> (r: (int, int))
    requires
        on_line(p, x0, y0, dx, dy, sx, sy, a, b),
        0 <= dx <= 0x1_0000_0000,
        0 <= dy <= 0x1_0000_0000,
        -0x1_0000_0000 <= x0 <= 0x1_0000_0000,
        -0x1_0000_0000 <= y0 <= 0x1_0000_0000,
        sx == 1 || sx == -1,
        sy == 1 || sy == -1,
        a < dx || b < dy,
    ensures
        on_line(pen_step(p, dx, dy, sx, sy), x0, y0, dx, dy, sx, sy, r.0, r.1),
        a <= r.0 <= a + 1,
        b <= r.1 <= b + 1,
        r.0 + r.1 > a + b,
{
    let err = p.err as int;
    let along = 2 * err >= -dy;
    let across = 2 * err <= dx;
    // The line has come to its end along one axis: only the other is left.
    if a == dx {
        assert(err == -dy - dx * (dy - 1 - b)) by (nonlinear_arith)
            requires
                err == dx - dy - dy * a + dx * b,
                a == dx,
        ;
        assert(dx * (dy - 1 - b) >= 0) by (nonlinear_arith)
            requires
                dx >= 0,
                b < dy,
        ;
        assert(!along);
    }
    if b == dy {
        assert(err == dx + dy * (dx - 1 - a)) by (nonlinear_arith)
            requires
                err == dx - dy - dy * a + dx * b,
                b == dy,
        ;
        assert(dy * (dx - 1 - a) >= 0) by (nonlinear_arith)
            requires
                dy >= 0,
                a < dx,
        ;
        assert(!across);
    }
    let a2 = a + if along {
        1int
    } else {
        0
    };
    let b2 = b + if across {
        1int
    } else {
        0
    };
    assert(dy * (a + 1) == dy * a + dy) by (nonlinear_arith);
    assert(dx * (b + 1) == dx * b + dx) by (nonlinear_arith);
    assert(sx * (a + 1) == sx * a + sx) by (nonlinear_arith);
    assert(sy * (b + 1) == sy * b + sy) by (nonlinear_arith);
    assert(-a2 <= sx * a2 <= a2) by (nonlinear_arith)
        requires
            sx == 1 || sx == -1,
            a2 >= 0,
    ;
    assert(-b2 <= sy * b2 <= b2) by (nonlinear_arith)
        requires
            sy == 1 || sy == -1,
            b2 >= 0,
    ;
    (a2, b2)
}

/// Coordinates whose differences have room to spare.
pub open spec fn is_drawable(v: i32) -> bool {
    -0x4000_0000 <= v <= 0x4000_0000
}

/// The first pen of a line.
pub open spec fn first_pen(x0: int, y0: int, x1: int, y1: int) -> Pen {
    Pen { x: x0 as i64, y: y0 as i64, err: (absolute(x1 - x0) - absolute(y1 - y0)) as i64 }
}

/// The pixels of a line from one pixel to another: they are those of its pens,
/// up to the first that stands on the last pixel.
pub fn line_pens(x0: i32, y0: i32, x1: i32, y1: i32) -> (r: Vec<Pen>)
    requires
        is_drawable(x0),
        is_drawable(y0),
        is_drawable(x1),
        is_drawable(y1),
    ensures
        r@.len() >= 1,
        r@ == pens(
            first_pen(x0 as int, y0 as int, x1 as int, y1 as int),
            absolute(x1 - x0),
            absolute(y1 - y0),
            towards(x0 as int, x1 as int),
            towards(y0 as int, y1 as int),
            r@.len(),
        ),
        r@.last().x == x1 && r@.last().y == y1,
        forall|i: int|
            0 <= i < r@.len() - 1 ==> (#[trigger] r@[i]).x != x1 || r@[i].y != y1,
{
    let dx: i64 = if x1 >= x0 {
        x1 as i64 - x0 as i64
    } else {
        x0 as i64 - x1 as i64
    };
    let dy: i64 = if y1 >= y0 {
        y1 as i64 - y0 as i64
    } else {
        y0 as i64 - y1 as i64
    };
    let sx: i64 = if x0 < x1 {
        1
    } else {
        -1
    };
    let sy: i64 = if y0 < y1 {
        1
    } else {
        -1
    };
    let mut p = Pen { x: x0 as i64, y: y0 as i64, err: dx - dy };
    let ghost start = p;
    let ghost mut a: int = 0;
    let ghost mut b: int = 0;
    let mut r: Vec<Pen> = Vec::new();
    assert(pens(start, dx as int, dy as int, sx as int, sy as int, 0) =~= r@);
    loop
        invariant_except_break
            is_drawable(x0),
            is_drawable(y0),
            is_drawable(x1),
            is_drawable(y1),
            dx == absolute(x1 - x0),
            dy == absolute(y1 - y0),
            sx == towards(x0 as int, x1 as int),
            sy == towards(y0 as int, y1 as int),
            on_line(
                p,
                x0 as int,
                y0 as int,
                dx as int,
                dy as int,
                sx as int,
                sy as int,
                a,
                b,
            ),
            r@ == pens(start, dx as int, dy as int, sx as int, sy as int, r@.len()),
            p == pen_at(start, dx as int, dy as int, sx as int, sy as int, r@.len()),
            forall|i: int|
                0 <= i < r@.len() ==> (#[trigger] r@[i]).x != x1 || r@[i].y != y1,
        ensures
            r@.len() >= 1,
            r@ == pens(start, dx as int, dy as int, sx as int, sy as int, r@.len()),
            r@.last().x == x1 && r@.last().y == y1,
            forall|i: int|
                0 <= i < r@.len() - 1 ==> (#[trigger] r@[i]).x != x1 || r@[i].y != y1,
        decreases (dx - a) + (dy - b),
    {
        let ghost before = r@;
        proof {
            lemma_pens_grow(start, dx as int, dy as int, sx as int, sy as int, r@.len());
        }
        r.push(p);
        if p.x == x1 as i64 && p.y == y1 as i64 {
            break;
        }
        proof {
            lemma_ends(
                p,
                x0 as int,
                y0 as int,
                x1 as int,
                y1 as int,
                dx as int,
                dy as int,
                sx as int,
                sy as int,
                a,
                b,
            );
            let q = lemma_step(
                p,
                x0 as int,
                y0 as int,
                dx as int,
                dy as int,
                sx as int,
                sy as int,
                a,
                b,
            );
            a = q.0;
            b = q.1;
        }
        let e2: i64 = 2 * p.err;
        let along: bool = e2 >= -dy;
        let across: bool = e2 <= dx;
        let ghost last = p;
        if along {
            p.err = p.err - dy;
            p.x = p.x + sx;
        }
        if across {
            p.err = p.err + dx;
            p.y = p.y + sy;
        }
        assert(p == pen_step(last, dx as int, dy as int, sx as int, sy as int));
    }
    r
}

/// The pen after `n` steps.
pub open spec fn pen_at(p: Pen, dx: int, dy: int, sx: int, sy: int, n: nat) -> Pen
    decreases n,
{
    if n == 0 {
        p
    } else {
        pen_step(pen_at(p, dx, dy, sx, sy, (n - 1) as nat), dx, dy, sx, sy)
    }
}

proof fn lemma_pen_at_shift(p: Pen, dx: int, dy: int, sx: int, sy: int, n: nat)
    ensures
        pen_at(pen_step(p, dx, dy, sx, sy), dx, dy, sx, sy, n) == pen_at(
            p,
            dx,
            dy,
            sx,
            sy,
            n + 1,
        ),
    decreases n,
{
    if n > 0 {
        lemma_pen_at_shift(p, dx, dy, sx, sy, (n - 1) as nat);
    } else {
        reveal_with_fuel(pen_at, 2);
    }
}

proof fn lemma_pens_grow(p: Pen, dx: int, dy: int, sx: int, sy: int, n: nat)
    ensures
        pens(p, dx, dy, sx, sy, n + 1) == pens(p, dx, dy, sx, sy, n).push(
            pen_at(p, dx, dy, sx, sy, n),
        ),
    decreases n,
{
    if n > 0 {
        let q = pen_step(p, dx, dy, sx, sy);
        lemma_pens_grow(q, dx, dy, sx, sy, (n - 1) as nat);
        lemma_pen_at_shift(p, dx, dy, sx, sy, (n - 1) as nat);
        assert(pens(p, dx, dy, sx, sy, n + 1) =~= pens(p, dx, dy, sx, sy, n).push(
            pen_at(p, dx, dy, sx, sy, n),
        ));
    } else {
        reveal_with_fuel(pens, 2);
        assert(pens(p, dx, dy, sx, sy, 1) =~= seq![p]);
        assert(pens(p, dx, dy, sx, sy, 0).push(p) =~= seq![p]);
    }
}

/// The line is not over before both axes are.
proof fn lemma_ends(
    p: Pen,
    x0: int,
    y0: int,
    x1: int,
    y1: int,
    dx: int,
    dy: int,
    sx: int,
    sy: int,
    a: int,
    b: int,
)
    requires
        on_line(p, x0, y0, dx, dy, sx, sy, a, b),
        dx == absolute(x1 - x0),
        dy == absolute(y1 - y0),
        sx == towards(x0, x1),
        sy == towards(y0, y1),
        p.x != x1 || p.y != y1,
    ensures
        a < dx || b < dy,
{
    if a == dx && b == dy {
        assert(sx * a == x1 - x0) by (nonlinear_arith)
            requires
                a == dx,
                sx == 1 && dx == x1 - x0 || sx == -1 && dx == x0 - x1,
        ;
        assert(sy * b == y1 - y0) by (nonlinear_arith)
            requires
                b == dy,
                sy == 1 && dy == y1 - y0 || sy == -1 && dy == y0 - y1,
        ;
    }
}

/// The pixels of a line are connected: each is beside the one before it or
/// diagonal to it.
pub proof fn law_lines_are_connected(
    p: Pen,
    dx: int,
    dy: int,
    sx: int,
    sy: int,
)
    requires
        sx == 1 || sx == -1,
        sy == 1 || sy == -1,
        -0x1_0000_0000 <= p.x <= 0x1_0000_0000,
        -0x1_0000_0000 <= p.y <= 0x1_0000_0000,
    ensures
        ({
            let q = pen_step(p, dx, dy, sx, sy);
            &&& -1 <= q.x - p.x <= 1
            &&& -1 <= q.y - p.y <= 1
        }),
{
}

// ── Marks ──

/// A pixel of the mark on a control point.
#[derive(Clone, Copy, PartialEq, Eq, Structural)]
pub enum Dot {
    Outside,
    Rim,
    Inside,
}

/// A pixel of a dot with a radius, by its offset from the center: the rim is
/// one pixel wide.
pub fn dot_at(ox: i32, oy: i32, radius: i32) -> (r: Dot)
    requires
        -1000 <= ox <= 1000,
        -1000 <= oy <= 1000,
        0 <= radius <= 1000,
    ensures
        r == if ox * ox + oy * oy <= radius * radius {
            Dot::Inside
        } else if ox * ox + oy * oy <= (radius + 1) * (radius + 1) {
            Dot::Rim
        } else {
            Dot::Outside
        },
{
    assert(0 <= ox * ox <= 1_000_000 && 0 <= oy * oy <= 1_000_000) by (nonlinear_arith)
        requires
            -1000 <= ox <= 1000,
            -1000 <= oy <= 1000,
    ;
    assert(0 <= radius * radius <= 1_000_000 && 0 <= (radius + 1) * (radius + 1) <= 1_002_001)
        by (nonlinear_arith)
        requires
            0 <= radius <= 1000,
    ;
    let d2: i32 = ox * ox + oy * oy;
    if d2 <= radius * radius {
        Dot::Inside
    } else if d2 <= (radius + 1) * (radius + 1) {
        Dot::Rim
    } else {
        Dot::Outside
    }
}

} // verus!
