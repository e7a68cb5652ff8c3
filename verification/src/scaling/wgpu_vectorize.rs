//! Plan of the vectorizer on a graphics processor: sizes of its buffers, what
//! each stage binds, in which order the stages run, and how the picture comes
//! back. Recording the plan is left to the caller.

use vstd::prelude::*;

use crate::grid::lemma_position;

verus! {

/// Buffers that the stages share. `Positions` and `OptOut` take turns as input
/// and output of the optimizer's passes.
#[derive(Clone, Copy, PartialEq, Eq, Structural)]
pub enum Buf {
    Pixels,
    Graph,
    GraphSnapshot,
    Valence,
    Positions,
    Neighbors,
    Flags,
    OptOut,
    Picard,
    OrigPositions,
    CrossingT,
    Output,
}

#[derive(Clone, Copy, PartialEq, Eq, Structural)]
pub enum Stage {
    Similarity,
    Resolve,
    CellGraph,
    /// First half of optimizer pass `pass`.
    PicardStep { pass: u32 },
    /// Second half of optimizer pass `pass`.
    Gradient { pass: u32 },
    TJunction,
    CrossingPack,
    Rasterizer,
}

/// One thing to record.
#[derive(Clone, Copy, PartialEq, Eq, Structural)]
pub enum Step {
    Dispatch { stage: Stage, x: u32, y: u32 },
    Copy { from: Buf, to: Buf, size: u64 },
}

// ── Sizes ──

/// Sizes that follow from the extent of the picture.
#[derive(Clone, Copy, PartialEq, Eq, Structural)]
pub struct VecSizes {
    pub corners_w: u32,
    pub corners_h: u32,
    pub num_cps: u32,
    pub graph_stride: u32,
    pub tiles_w: u32,
    pub tiles_h: u32,
    /// Bytes of the buffers.
    pub px: u64,
    pub graph: u64,
    pub pos: u64,
    pub nbr: u64,
    pub flag: u64,
}

/// The largest buffer of the picture has a 32-bit size.
pub open spec fn extent_fits(w: int, h: int) -> bool {
    0 <= w && 0 <= h && 32 * ((w + 1) * (h + 1)) <= u32::MAX
}

pub open spec fn corner_count(w: int, h: int) -> int {
    (w + 1) * (h + 1)
}

pub open spec fn sizes(w: int, h: int) -> VecSizes {
    let n = 2 * corner_count(w, h);
    VecSizes {
        corners_w: (w + 1) as u32,
        corners_h: (h + 1) as u32,
        num_cps: n as u32,
        graph_stride: (2 * w + 1) as u32,
        tiles_w: ((w + 1) / 2) as u32,
        tiles_h: ((h + 1) / 2) as u32,
        px: (4 * (w * h)) as u64,
        graph: (4 * ((2 * w + 1) * (2 * h + 1))) as u64,
        pos: (8 * n) as u64,
        nbr: (16 * n) as u64,
        flag: (4 * n) as u64,
    }
}

proof fn lemma_extent(w: int, h: int)
    requires
        extent_fits(w, h),
    ensures
        w + 1 <= corner_count(w, h),
        h + 1 <= corner_count(w, h),
        0 <= w * h <= corner_count(w, h),
        0 <= (2 * w + 1) * (2 * h + 1) <= 4 * corner_count(w, h),
        32 * corner_count(w, h) <= u32::MAX,
        0 <= ((w + 1) / 2) * ((h + 1) / 2) <= corner_count(w, h),
{
    assert(w + 1 <= (w + 1) * (h + 1) && h + 1 <= (w + 1) * (h + 1) && 0 <= w * h <= (w + 1) * (h
        + 1) && 0 <= (2 * w + 1) * (2 * h + 1) <= 4 * ((w + 1) * (h + 1))) by (nonlinear_arith)
        requires
            0 <= w,
            0 <= h,
    ;
    let a = (w + 1) / 2;
    let b = (h + 1) / 2;
    assert(0 <= a * b <= (w + 1) * (h + 1)) by (nonlinear_arith)
        requires
            0 <= a <= w + 1,
            0 <= b <= h + 1,
    ;
}

/// Sizes for a picture.
pub fn vec_sizes(img_w: u32, img_h: u32) -> (r: VecSizes)
    requires
        extent_fits(img_w as int, img_h as int),
    ensures
        r == sizes(img_w as int, img_h as int),
{
    proof {
        lemma_extent(img_w as int, img_h as int);
    }
    let corners_w: u32 = img_w + 1;
    let corners_h: u32 = img_h + 1;
    let num_cps: u32 = corners_w * corners_h * 2;
    let graph_stride: u32 = 2 * img_w + 1;
    VecSizes {
        corners_w,
        corners_h,
        num_cps,
        graph_stride,
        tiles_w: (img_w + 1) / 2,
        tiles_h: (img_h + 1) / 2,
        px: (img_w * img_h * 4) as u64,
        graph: (graph_stride * (2 * img_h + 1) * 4) as u64,
        pos: (num_cps * 2 * 4) as u64,
        nbr: (num_cps * 4 * 4) as u64,
        flag: (num_cps * 4) as u64,
    }
}

/// Bytes to allocate for a buffer; none is smaller than a word. The output is
/// a texture and has no size of its own.
pub open spec fn buffer_size(s: VecSizes, b: Buf) -> u64 {
    let n = match b {
        Buf::Pixels | Buf::Valence => s.px,
        Buf::Graph | Buf::GraphSnapshot => s.graph,
        Buf::Positions | Buf::OptOut | Buf::Picard | Buf::OrigPositions => s.pos,
        Buf::Neighbors => s.nbr,
        Buf::Flags | Buf::CrossingT => s.flag,
        Buf::Output => 0,
    };
    if n < 4 {
        4
    } else {
        n
    }
}

/// Bytes to allocate for a buffer.
pub fn bytes_of(s: &VecSizes, b: Buf) -> (r: u64)
    ensures
        r == buffer_size(*s, b),
{
    let n: u64 = match b {
        Buf::Pixels | Buf::Valence => s.px,
        Buf::Graph | Buf::GraphSnapshot => s.graph,
        Buf::Positions | Buf::OptOut | Buf::Picard | Buf::OrigPositions => s.pos,
        Buf::Neighbors => s.nbr,
        Buf::Flags | Buf::CrossingT => s.flag,
        Buf::Output => 0,
    };
    if n < 4 {
        4
    } else {
        n
    }
}

/// Extents of the picture and of the output.
#[derive(Clone, Copy, PartialEq, Eq, Structural)]
pub struct Extents {
    pub img_w: u32,
    pub img_h: u32,
    pub out_w: u32,
    pub out_h: u32,
}

/// Whether the buffers have to be made, or made anew because an extent changed.
pub fn needs_buffers(have: Option<Extents>, want: Extents) -> (r: bool)
    ensures
        r == (have != Some(want)),
{
    match have {
        Some(e) => e != want,
        None => true,
    }
}

// ── Bindings ──

/// The slot that optimizer pass `pass` reads.
pub open spec fn input_slot(pass: int) -> Buf {
    if pass % 2 == 0 {
        Buf::Positions
    } else {
        Buf::OptOut
    }
}

/// The slot that optimizer pass `pass` writes.
pub open spec fn output_slot(pass: int) -> Buf {
    if pass % 2 == 0 {
        Buf::OptOut
    } else {
        Buf::Positions
    }
}

/// Buffers that a stage only reads, in the order of their bindings.
pub open spec fn reads(stage: Stage) -> Seq<Buf> {
    match stage {
        Stage::Similarity => seq![Buf::Pixels],
        Stage::Resolve => seq![Buf::GraphSnapshot, Buf::Valence],
        Stage::CellGraph => seq![Buf::Graph],
        Stage::PicardStep { pass } => seq![
            input_slot(pass as int),
            Buf::OrigPositions,
            Buf::Neighbors,
            Buf::Flags,
        ],
        Stage::Gradient { pass } => seq![
            Buf::Picard,
            Buf::OrigPositions,
            Buf::Neighbors,
            Buf::Flags,
        ],
        Stage::TJunction => seq![Buf::Neighbors, Buf::Flags],
        Stage::CrossingPack => seq![Buf::Neighbors, Buf::Flags, Buf::Positions],
        Stage::Rasterizer => seq![
            Buf::Pixels,
            Buf::Positions,
            Buf::OrigPositions,
            Buf::Flags,
            Buf::Neighbors,
        ],
    }
}

/// Buffers that are bound to a stage for writing, in the order of their
/// bindings.
pub open spec fn writes(stage: Stage) -> Seq<Buf> {
    match stage {
        Stage::Similarity => seq![Buf::Graph, Buf::Valence],
        Stage::Resolve => seq![Buf::Graph],
        Stage::CellGraph => seq![Buf::Positions, Buf::Neighbors, Buf::Flags],
        Stage::PicardStep { pass } => seq![Buf::Picard],
        Stage::Gradient { pass } => seq![output_slot(pass as int)],
        Stage::TJunction => seq![Buf::Positions],
        Stage::CrossingPack => seq![Buf::CrossingT],
        Stage::Rasterizer => seq![Buf::Output, Buf::CrossingT],
    }
}

/// Buffers bound to a stage: those it only reads, and the others.
pub fn bindings(stage: Stage) -> (r: (Vec<Buf>, Vec<Buf>))
    ensures
        r.0@ == reads(stage),
        r.1@ == writes(stage),
{
    match stage {
        Stage::Similarity => (vec![Buf::Pixels], vec![Buf::Graph, Buf::Valence]),
        Stage::Resolve => (vec![Buf::GraphSnapshot, Buf::Valence], vec![Buf::Graph]),
        Stage::CellGraph => (
            vec![Buf::Graph],
            vec![Buf::Positions, Buf::Neighbors, Buf::Flags],
        ),
        Stage::PicardStep { pass } => {
            let slot = if pass % 2 == 0 {
                Buf::Positions
            } else {
                Buf::OptOut
            };
            (vec![slot, Buf::OrigPositions, Buf::Neighbors, Buf::Flags], vec![Buf::Picard])
        },
        Stage::Gradient { pass } => {
            let slot = if pass % 2 == 0 {
                Buf::OptOut
            } else {
                Buf::Positions
            };
            (vec![Buf::Picard, Buf::OrigPositions, Buf::Neighbors, Buf::Flags], vec![slot])
        },
        Stage::TJunction => (vec![Buf::Neighbors, Buf::Flags], vec![Buf::Positions]),
        Stage::CrossingPack => (
            vec![Buf::Neighbors, Buf::Flags, Buf::Positions],
            vec![Buf::CrossingT],
        ),
        Stage::Rasterizer => (
            vec![
                Buf::Pixels,
                Buf::Positions,
                Buf::OrigPositions,
                Buf::Flags,
                Buf::Neighbors,
            ],
            vec![Buf::Output, Buf::CrossingT],
        ),
    }
}

/// Parameters of a frame; real numbers by their bit patterns.
#[derive(Clone, Copy)]
pub struct FrameParams {
    pub extents: Extents,
    pub scale_bits: u32,
    pub eta_bits: u32,
    pub max_step_bits: u32,
}

/// The words of a stage's uniform buffer.
pub open spec fn uniform_words(stage: Stage, p: FrameParams) -> Seq<u32> {
    let e = p.extents;
    let s = sizes(e.img_w as int, e.img_h as int);
    match stage {
        Stage::Similarity | Stage::Resolve => seq![e.img_w, e.img_h, s.graph_stride, 0],
        Stage::CellGraph => seq![e.img_w, e.img_h, s.graph_stride, s.corners_w],
        Stage::Gradient { pass } => seq![s.num_cps, p.eta_bits, p.max_step_bits, 0],
        Stage::Rasterizer => seq![
            e.img_w,
            e.img_h,
            e.out_w,
            e.out_h,
            p.scale_bits,
            s.corners_w,
            s.tiles_w,
            s.tiles_h,
        ],
        Stage::PicardStep { .. } | Stage::TJunction | Stage::CrossingPack => seq![s.num_cps, 0, 0, 0],
    }
}

/// The words of a stage's uniform buffer.
pub fn uniforms(stage: Stage, p: &FrameParams) -> (r: Vec<u32>)
    requires
        extent_fits(p.extents.img_w as int, p.extents.img_h as int),
    ensures
        r@ == uniform_words(stage, *p),
{
    let e: Extents = p.extents;
    let s: VecSizes = vec_sizes(e.img_w, e.img_h);
    match stage {
        Stage::Similarity | Stage::Resolve => vec![e.img_w, e.img_h, s.graph_stride, 0],
        Stage::CellGraph => vec![e.img_w, e.img_h, s.graph_stride, s.corners_w],
        Stage::Gradient { .. } => vec![s.num_cps, p.eta_bits, p.max_step_bits, 0],
        Stage::Rasterizer => vec![
            e.img_w,
            e.img_h,
            e.out_w,
            e.out_h,
            p.scale_bits,
            s.corners_w,
            s.tiles_w,
            s.tiles_h,
        ],
        Stage::PicardStep { .. } | Stage::TJunction | Stage::CrossingPack => vec![s.num_cps, 0, 0, 0],
    }
}

// ── Order of the stages ──

/// Workgroups that cover `n` items, `size` at a time.
pub open spec fn groups(n: int, size: int) -> u32 {
    ((n + size - 1) / size) as u32
}

pub open spec fn minus_one(n: int) -> int {
    if n > 0 {
        n - 1
    } else {
        0
    }
}

/// The stages up to the control points.
pub open spec fn graph_steps(w: int, h: int) -> Seq<Step> {
    let s = sizes(w, h);
    seq![
        Step::Dispatch { stage: Stage::Similarity, x: groups(w, 16), y: groups(h, 16) },
        Step::Copy { from: Buf::Graph, to: Buf::GraphSnapshot, size: s.graph },
        Step::Dispatch {
            stage: Stage::Resolve,
            x: groups(minus_one(w), 16),
            y: groups(minus_one(h), 16),
        },
        Step::Dispatch { stage: Stage::CellGraph, x: groups(w + 1, 16), y: groups(h + 1, 16) },
        Step::Copy { from: Buf::Positions, to: Buf::OrigPositions, size: s.pos },
    ]
}

/// The first `passes` passes of the optimizer.
pub open spec fn pass_steps(w: int, h: int, passes: nat) -> Seq<Step>
    decreases passes,
{
    if passes == 0 {
        seq![]
    } else {
        let x = groups(2 * corner_count(w, h), 256);
        let pass = (passes - 1) as u32;
        pass_steps(w, h, (passes - 1) as nat).push(
            Step::Dispatch { stage: Stage::PicardStep { pass }, x, y: 1 },
        ).push(Step::Dispatch { stage: Stage::Gradient { pass }, x, y: 1 })
    }
}

/// What brings the optimizer's result to where the later stages read it: a
/// copy, if the last pass wrote to the other slot. Passes count from 0 and the
/// even ones write to the other slot, so the copy is there after an odd number
/// of passes, and only then: after an even number it would put back the
/// positions of the pass before the last, and one pass fewer than was asked for
/// would count.
pub open spec fn settle_steps(w: int, h: int, passes: nat) -> Seq<Step> {
    if passes > 0 && output_slot(passes - 1) != Buf::Positions {
        seq![Step::Copy { from: Buf::OptOut, to: Buf::Positions, size: sizes(w, h).pos }]
    } else {
        seq![]
    }
}

/// Moving the stems, thrice, packing the crossings, and drawing.
pub open spec fn draw_steps(w: int, h: int) -> Seq<Step> {
    let s = sizes(w, h);
    let x = groups(2 * corner_count(w, h), 256);
    let snap = Step::Dispatch { stage: Stage::TJunction, x, y: 1 };
    seq![
        snap,
        snap,
        snap,
        Step::Dispatch { stage: Stage::CrossingPack, x, y: 1 },
        Step::Dispatch { stage: Stage::Rasterizer, x: (s.tiles_w * s.tiles_h) as u32, y: 1 },
    ]
}

/// Everything to record for a frame.
pub open spec fn frame_steps(w: int, h: int, passes: nat) -> Seq<Step> {
    graph_steps(w, h) + pass_steps(w, h, passes) + settle_steps(w, h, passes) + draw_steps(w, h)
}

fn count_groups(n: u32, size: u32) -> (r: u32)
    requires
        1 <= size <= 256,
        n <= 0xFFFF_FF00,
    ensures
        r == groups(n as int, size as int),
{
    (n + (size - 1)) / size
}

fn less_one(n: u32) -> (r: u32)
    ensures
        r == minus_one(n as int),
{
    if n > 0 {
        n - 1
    } else {
        0
    }
}

/// Everything to record for a frame, in order. The copy behind the optimizer is
/// there after an odd number of passes, and only then; `settle_steps` says why.
pub fn encode_plan(img_w: u32, img_h: u32, outer_passes: u32) -> (steps: Vec<Step>)
    requires
        extent_fits(img_w as int, img_h as int),
    ensures
        steps@ == frame_steps(img_w as int, img_h as int, outer_passes as nat),
{
    let s: VecSizes = vec_sizes(img_w, img_h);
    let ghost w = img_w as int;
    let ghost h = img_h as int;
    proof {
        lemma_extent(w, h);
    }
    let mut steps: Vec<Step> = vec![
        Step::Dispatch {
            stage: Stage::Similarity,
            x: count_groups(img_w, 16),
            y: count_groups(img_h, 16),
        },
        Step::Copy { from: Buf::Graph, to: Buf::GraphSnapshot, size: s.graph },
        Step::Dispatch {
            stage: Stage::Resolve,
            x: count_groups(less_one(img_w), 16),
            y: count_groups(less_one(img_h), 16),
        },
        Step::Dispatch {
            stage: Stage::CellGraph,
            x: count_groups(s.corners_w, 16),
            y: count_groups(s.corners_h, 16),
        },
        Step::Copy { from: Buf::Positions, to: Buf::OrigPositions, size: s.pos },
    ];
    let x: u32 = count_groups(s.num_cps, 256);
    assert(steps@ =~= graph_steps(w, h) + pass_steps(w, h, 0));
    let mut pass: u32 = 0;
    while pass < outer_passes
        invariant
            pass <= outer_passes,
            w == img_w,
            h == img_h,
            x == groups(2 * corner_count(w, h), 256),
            steps@ == graph_steps(w, h) + pass_steps(w, h, pass as nat),
        decreases outer_passes - pass,
    {
        let ghost before = pass_steps(w, h, pass as nat);
        let ghost a = Step::Dispatch { stage: Stage::PicardStep { pass }, x, y: 1 };
        let ghost b = Step::Dispatch { stage: Stage::Gradient { pass }, x, y: 1 };
        steps.push(Step::Dispatch { stage: Stage::PicardStep { pass }, x, y: 1 });
        steps.push(Step::Dispatch { stage: Stage::Gradient { pass }, x, y: 1 });
        assert(pass_steps(w, h, (pass + 1) as nat) == before.push(a).push(b));
        assert(steps@ =~= graph_steps(w, h) + before.push(a).push(b));
        pass += 1;
    }
    let ghost run = graph_steps(w, h) + pass_steps(w, h, outer_passes as nat);
    if outer_passes % 2 == 1 {
        steps.push(Step::Copy { from: Buf::OptOut, to: Buf::Positions, size: s.pos });
    }
    assert(steps@ =~= run + settle_steps(w, h, outer_passes as nat));
    let snap = Step::Dispatch { stage: Stage::TJunction, x, y: 1 };
    let ghost settled = steps@;
    steps.push(snap);
    steps.push(snap);
    steps.push(snap);
    steps.push(Step::Dispatch { stage: Stage::CrossingPack, x, y: 1 });
    steps.push(Step::Dispatch { stage: Stage::Rasterizer, x: s.tiles_w * s.tiles_h, y: 1 });
    assert(steps@ =~= settled + draw_steps(w, h));
    steps
}

// ── What the optimizer's buffers hold ──

/// How many passes went into the positions that a buffer holds.
pub type Passes = Map<Buf, int>;

/// What a step does to the positions that the buffers hold.
pub open spec fn after_step(m: Passes, step: Step) -> Passes {
    match step {
        Step::Copy { from, to, .. } => m.insert(to, m[from]),
        Step::Dispatch { stage, .. } => match stage {
            Stage::CellGraph => m.insert(Buf::Positions, 0),
            Stage::PicardStep { pass } => m.insert(Buf::Picard, m[reads(stage)[0]]),
            Stage::Gradient { pass } => m.insert(writes(stage)[0], m[reads(stage)[0]] + 1),
            _ => m,
        },
    }
}

pub open spec fn after_steps(m: Passes, steps: Seq<Step>) -> Passes
    decreases steps.len(),
{
    if steps.len() == 0 {
        m
    } else {
        after_step(after_steps(m, steps.drop_last()), steps.last())
    }
}

proof fn lemma_after_steps_split(m: Passes, a: Seq<Step>, b: Seq<Step>)
    ensures
        after_steps(m, a + b) == after_steps(after_steps(m, a), b),
    decreases b.len(),
{
    if b.len() == 0 {
        assert(a + b =~= a);
    } else {
        assert((a + b).drop_last() =~= a + b.drop_last());
        lemma_after_steps_split(m, a, b.drop_last());
    }
}

proof fn lemma_passes(m: Passes, w: int, h: int, passes: nat)
    requires
        m[Buf::Positions] == 0,
        passes <= u32::MAX,
    ensures
        ({
            let r = after_steps(m, pass_steps(w, h, passes));
            if passes == 0 {
                r[Buf::Positions] == 0
            } else {
                r[output_slot(passes - 1)] == passes
            }
        }),
    decreases passes,
{
    if passes > 0 {
        let p = (passes - 1) as nat;
        lemma_passes(m, w, h, p);
        let before = pass_steps(w, h, p);
        let x = groups(2 * corner_count(w, h), 256);
        let a = Step::Dispatch { stage: Stage::PicardStep { pass: p as u32 }, x, y: 1 };
        let b = Step::Dispatch { stage: Stage::Gradient { pass: p as u32 }, x, y: 1 };
        assert(before.push(a).push(b).drop_last() =~= before.push(a));
        assert(before.push(a).drop_last() =~= before);
        let m0 = after_steps(m, before);
        let m1 = after_steps(m, before.push(a));
        let m2 = after_steps(m, before.push(a).push(b));
        assert(m1 == after_step(m0, a));
        assert(m2 == after_step(m1, b));
        assert(m0[input_slot(p as int)] == p);
        assert(m1[Buf::Picard] == p);
        assert(m2[output_slot(p as int)] == p + 1);
    }
}

/// When the later stages start, the positions that they read have gone
/// through all passes of the optimizer, whatever their number.
pub proof fn law_later_stages_see_every_pass(m: Passes, w: int, h: int, passes: nat)
    requires
        passes <= u32::MAX,
    ensures
        after_steps(
            m,
            graph_steps(w, h) + pass_steps(w, h, passes) + settle_steps(w, h, passes),
        )[Buf::Positions] == passes,
{
    let g = graph_steps(w, h);
    let p = pass_steps(w, h, passes);
    let t = settle_steps(w, h, passes);
    lemma_after_steps_split(m, g + p, t);
    lemma_after_steps_split(m, g, p);
    let m1 = after_steps(m, g);
    reveal_with_fuel(after_steps, 6);
    assert(g.drop_last().last() == g[3]);
    assert(g.last() == g[4]);
    assert(m1[Buf::Positions] == 0);
    lemma_passes(m1, w, h, passes);
    if t.len() > 0 {
        assert(t.drop_last() =~= Seq::<Step>::empty());
    }
}

// ── Reading the picture back ──

/// Bytes of a row of the output, padded to a multiple of 256.
pub open spec fn padded_row(w: int) -> int {
    (4 * w + 255) / 256 * 256
}

/// Bytes of a row of the output, padded to a multiple of 256.
pub fn padded_row_bytes(w: u32) -> (r: u32)
    requires
        4 * w + 255 <= u32::MAX,
    ensures
        r == padded_row(w as int),
        r % 256 == 0,
        4 * w <= r < 4 * w + 256,
{
    (w * 4 + 255) / 256 * 256
}

/// The pixel at column `x` of row `y`: red, green and blue, the alpha left out.
pub open spec fn picture_pixel(data: Seq<u8>, w: int, x: int, y: int) -> u32 {
    let i = y * padded_row(w) + 4 * x;
    (data[i] * 0x1_0000 + data[i + 1] * 0x100 + data[i + 2]) as u32
}

/// The pixels of a picture that was read back with padded rows.
pub fn unpack_picture(data: &[u8], w: u32, h: u32) -> (px: Vec<u32>)
    requires
        4 * w + 255 <= u32::MAX,
        padded_row(w as int) * h <= data@.len(),
        w * h <= u32::MAX,
    ensures
        px@ == Seq::new(
            (w * h) as nat,
            |i: int| picture_pixel(data@, w as int, i % (w as int), i / (w as int)),
        ),
{
    let _n: usize = data.len();
    let row: usize = padded_row_bytes(w) as usize;
    let mut px: Vec<u32> = Vec::new();
    let total: u32 = w * h;
    let mut i: u32 = 0;
    while i < total
        invariant
            i <= total == w * h,
            data@.len() <= usize::MAX,
            row == padded_row(w as int),
            4 * w <= row,
            padded_row(w as int) * h <= data@.len(),
            px@.len() == i,
            forall|k: int|
                0 <= k < i ==> #[trigger] px@[k] == picture_pixel(
                    data@,
                    w as int,
                    k % (w as int),
                    k / (w as int),
                ),
        decreases total - i,
    {
        assert(w > 0) by (nonlinear_arith)
            requires
                0 <= i < w * h,
        ;
        proof {
            lemma_position(i as int, w as int, h as int);
        }
        let x: usize = (i % w) as usize;
        let y: usize = (i / w) as usize;
        assert(0 <= y * row && y * row + row <= row * h) by (nonlinear_arith)
            requires
                0 <= y < h,
                0 <= row,
        ;
        let at: usize = y * row + 4 * x;
        let r: u32 = data[at] as u32;
        let g: u32 = data[at + 1] as u32;
        let b: u32 = data[at + 2] as u32;
        px.push(r * 0x1_0000 + g * 0x100 + b);
        i += 1;
    }
    px
}

} // verus!
