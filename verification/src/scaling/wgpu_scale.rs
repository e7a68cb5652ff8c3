//! Plan of the scaling filters on a graphics processor: which dispatches a
//! filter takes, from which pixels to which, and how large the buffers are.

use vstd::prelude::*;

verus! {

/// How a filter's shader is dispatched.
#[derive(Clone, Copy, Debug, PartialEq, Eq, Structural)]
pub enum GpuPass {
    /// Once, over the output.
    Single,
    /// Three times over the output, with a buffer in between.
    SuperXbr,
    /// Four times over the source and once over the threefold output; chained,
    /// all of that twice.
    ScaleFx { chained: bool },
}

/// A scaling filter, and how it runs on a graphics processor, if it does.
#[derive(Clone, Copy, Debug, PartialEq, Eq, Structural)]
pub struct ScaleFilter {
    pub id: u32,
    pub gpu: Option<GpuPass>,
}

/// A scaling filter that has a compute path.
#[derive(Clone, Copy, Debug, PartialEq, Eq, Structural)]
pub struct WgpuScaleFilter(pub ScaleFilter);

impl WgpuScaleFilter {
    /// The compute path of a filter, if it has one.
    pub fn from_scale_filter(f: ScaleFilter) -> (r: Option<Self>)
        ensures
            r == if f.gpu is Some {
                Some(WgpuScaleFilter(f))
            } else {
                None
            },
    {
        match f.gpu {
            Some(_) => Some(WgpuScaleFilter(f)),
            None => None,
        }
    }

    /// The filter that this compute path renders.
    pub fn filter(self) -> (r: ScaleFilter)
        ensures
            r == self.0,
    {
        self.0
    }
}

#[derive(Clone, Copy, PartialEq, Eq, Structural)]
pub struct Size {
    pub w: u32,
    pub h: u32,
}

/// Buffers of pixels.
#[derive(Clone, Copy, PartialEq, Eq, Structural)]
pub enum PixelBuf {
    /// The uploaded picture.
    Source,
    /// The packed output of the first chain.
    First,
    /// The packed output of the second chain.
    Second,
    /// No packed output.
    Nothing,
}

/// One dispatch: the pixels it reads and writes, the extents and the number
/// of the pass that its uniforms hold, and its workgroups.
#[derive(Clone, Copy, PartialEq, Eq, Structural)]
pub struct Dispatch {
    pub input: PixelBuf,
    pub output: PixelBuf,
    pub src: Size,
    pub out: Size,
    pub pass: u32,
    pub workgroups: Size,
}

/// Workgroups of 16 by 16 that cover an area.
pub open spec fn covering(e: Size) -> Size {
    Size { w: ((e.w + 15) / 16) as u32, h: ((e.h + 15) / 16) as u32 }
}

fn ceil16(n: u32) -> (r: u32)
    ensures
        r == (n + 15) / 16,
{
    if n % 16 == 0 {
        n / 16
    } else {
        n / 16 + 1
    }
}

/// Workgroups of 16 by 16 that cover an area.
pub fn workgroups(w: u32, h: u32) -> (r: Size)
    ensures
        r == covering((Size { w, h })),
        16 * r.w >= w,
        16 * r.h >= h,
{
    Size { w: ceil16(w), h: ceil16(h) }
}

pub open spec fn tripled(e: Size) -> Size {
    Size { w: (3 * e.w) as u32, h: (3 * e.h) as u32 }
}

/// A dispatch of the filters that run over the output.
pub open spec fn output_dispatch(src: Size, out: Size, pass: u32) -> Dispatch {
    Dispatch {
        input: PixelBuf::Source,
        output: PixelBuf::Nothing,
        src,
        out,
        pass,
        workgroups: covering(out),
    }
}

/// The first `n` dispatches of a chain of five: four over the source, the last
/// over the output.
pub open spec fn chain(
    input: PixelBuf,
    output: PixelBuf,
    src: Size,
    out: Size,
    n: nat,
) -> Seq<Dispatch> {
    Seq::new(
        n,
        |i: int|
            Dispatch {
                input,
                output,
                src,
                out,
                pass: i as u32,
                workgroups: covering(
                    if i < 4 {
                        src
                    } else {
                        out
                    },
                ),
            },
    )
}

/// The dispatches of a filter, in order.
pub open spec fn dispatches(gpu: GpuPass, src: Size, out: Size) -> Seq<Dispatch> {
    match gpu {
        GpuPass::Single => seq![output_dispatch(src, out, 0)],
        GpuPass::SuperXbr => seq![
            output_dispatch(src, out, 0),
            output_dispatch(src, out, 1),
            output_dispatch(src, out, 2),
        ],
        GpuPass::ScaleFx { chained } => {
            let first = chain(PixelBuf::Source, PixelBuf::First, src, tripled(src), 5);
            if chained {
                first + chain(PixelBuf::First, PixelBuf::Second, tripled(src), out, 5)
            } else {
                first
            }
        },
    }
}

/// Bytes of the buffers that a filter needs besides the picture and the output.
#[derive(Clone, Copy, PartialEq, Eq, Structural)]
pub struct ScaleSizes {
    /// Each of the intermediate buffers, and how many there are.
    pub intermediate: u64,
    pub intermediates: u32,
    /// Packed output of the first and the second chain.
    pub first: u64,
    pub second: u64,
}

/// Bytes of a filter's buffers. The intermediates of the chained filter are
/// sized for the larger of its two sources.
pub open spec fn scale_sizes(gpu: GpuPass, src: Size, out: Size) -> ScaleSizes {
    match gpu {
        GpuPass::Single => ScaleSizes { intermediate: 0, intermediates: 0, first: 0, second: 0 },
        GpuPass::SuperXbr => ScaleSizes {
            intermediate: (4 * (out.w * out.h)) as u64,
            intermediates: 1,
            first: 0,
            second: 0,
        },
        GpuPass::ScaleFx { chained } => ScaleSizes {
            intermediate: if chained {
                (16 * (tripled(src).w * tripled(src).h)) as u64
            } else {
                (16 * (src.w * src.h)) as u64
            },
            intermediates: 4,
            first: (4 * (tripled(src).w * tripled(src).h)) as u64,
            second: if chained {
                (4 * (out.w * out.h)) as u64
            } else {
                4
            },
        },
    }
}

/// Where a filter triples the source, the threefold extent is made of 32-bit
/// numbers.
pub open spec fn triple_fits(gpu: GpuPass, src: Size) -> bool {
    gpu is ScaleFx ==> 3 * src.w <= u32::MAX && 3 * src.h <= u32::MAX
}

/// The extents that a filter computes, and their areas in bytes, are 32-bit
/// numbers.
pub open spec fn scale_fits(gpu: GpuPass, src: Size, out: Size) -> bool {
    &&& triple_fits(gpu, src)
    &&& match gpu {
        GpuPass::Single => true,
        GpuPass::SuperXbr => 4 * (out.w * out.h) <= u32::MAX,
        GpuPass::ScaleFx { chained } => {
            &&& 4 * ((3 * src.w) * (3 * src.h)) <= u32::MAX
            &&& chained ==> 4 * (out.w * out.h) <= u32::MAX
        },
    }
}

fn area_fits(w: u32, h: u32) -> (r: bool)
    ensures
        r == (4 * (w * h) <= u32::MAX),
{
    assert(0 <= w * h <= 0xFFFF_FFFF * 0xFFFF_FFFF) by (nonlinear_arith)
        requires
            0 <= w <= 0xFFFF_FFFF,
            0 <= h <= 0xFFFF_FFFF,
    ;
    (w as u64) * (h as u64) <= 0x3FFF_FFFF
}

/// Whether the sizes of a filter's buffers are 32-bit numbers.
pub fn sizes_fit(gpu: GpuPass, src: Size, out: Size) -> (r: bool)
    ensures
        r == scale_fits(gpu, src, out),
{
    match gpu {
        GpuPass::Single => true,
        GpuPass::SuperXbr => area_fits(out.w, out.h),
        GpuPass::ScaleFx { chained } => src.w <= u32::MAX / 3 && src.h <= u32::MAX / 3
            && area_fits(3 * src.w, 3 * src.h) && (!chained || area_fits(out.w, out.h)),
    }
}

/// Bytes of a filter's buffers.
pub fn sizes_of(gpu: GpuPass, src: Size, out: Size) -> (r: ScaleSizes)
    requires
        scale_fits(gpu, src, out),
    ensures
        r == scale_sizes(gpu, src, out),
{
    match gpu {
        GpuPass::Single => ScaleSizes { intermediate: 0, intermediates: 0, first: 0, second: 0 },
        GpuPass::SuperXbr => ScaleSizes {
            intermediate: (out.w * out.h * 4) as u64,
            intermediates: 1,
            first: 0,
            second: 0,
        },
        GpuPass::ScaleFx { chained } => {
            assert((3 * src.w) * (3 * src.h) == 9 * (src.w * src.h)) by (nonlinear_arith);
            assert(0 <= src.w * src.h) by (nonlinear_arith);
            let mid_w: u32 = src.w * 3;
            let mid_h: u32 = src.h * 3;
            assert(mid_w * mid_h == (3 * src.w) * (3 * src.h));
            let max_pixels: u32 = if chained {
                mid_w * mid_h
            } else {
                src.w * src.h
            };
            ScaleSizes {
                intermediate: (max_pixels as u64) * 16,
                intermediates: 4,
                first: (mid_w * mid_h * 4) as u64,
                second: if chained {
                    (out.w * out.h * 4) as u64
                } else {
                    4
                },
            }
        },
    }
}

fn push_chain(
    plan: &mut Vec<Dispatch>,
    input: PixelBuf,
    output: PixelBuf,
    src: Size,
    out: Size,
)
    ensures
        final(plan)@ == old(plan)@ + chain(input, output, src, out, 5),
{
    let ghost before = plan@;
    let mut pass: u32 = 0;
    assert(before + chain(input, output, src, out, 0) =~= before);
    while pass < 5
        invariant
            pass <= 5,
            plan@ == before + chain(input, output, src, out, pass as nat),
        decreases 5 - pass,
    {
        let area: Size = if pass < 4 {
            src
        } else {
            out
        };
        plan.push(
            Dispatch { input, output, src, out, pass, workgroups: workgroups(area.w, area.h) },
        );
        pass += 1;
        assert(plan@ =~= before + chain(input, output, src, out, pass as nat));
    }
}

/// The dispatches of a filter, in order.
pub fn plan_passes(gpu: GpuPass, src: Size, out: Size) -> (plan: Vec<Dispatch>)
    requires
        triple_fits(gpu, src),
    ensures
        plan@ == dispatches(gpu, src, out),
{
    let mut plan: Vec<Dispatch> = Vec::new();
    let over_output = Dispatch {
        input: PixelBuf::Source,
        output: PixelBuf::Nothing,
        src,
        out,
        pass: 0,
        workgroups: workgroups(out.w, out.h),
    };
    match gpu {
        GpuPass::Single => {
            plan.push(over_output);
        },
        GpuPass::SuperXbr => {
            plan.push(over_output);
            plan.push(Dispatch { pass: 1, ..over_output });
            plan.push(Dispatch { pass: 2, ..over_output });
        },
        GpuPass::ScaleFx { chained } => {
            let mid = Size { w: src.w * 3, h: src.h * 3 };
            push_chain(&mut plan, PixelBuf::Source, PixelBuf::First, src, mid);
            if chained {
                push_chain(&mut plan, PixelBuf::First, PixelBuf::Second, mid, out);
            }
        },
    }
    assert(plan@ =~= dispatches(gpu, src, out));
    plan
}

/// Whether the buffers, or only the recorded passes, have to be made anew.
pub fn needs_rebuild(
    have: Option<(u32, u32, u32, u32)>,
    recorded: Option<ScaleFilter>,
    want: (u32, u32, u32, u32),
    filter: ScaleFilter,
) -> (r: (bool, bool))
    ensures
        r.0 == (have != Some(want)),
        r.1 == (r.0 || recorded != Some(filter)),
{
    let realloc: bool = match have {
        Some(e) => e.0 != want.0 || e.1 != want.1 || e.2 != want.2 || e.3 != want.3,
        None => true,
    };
    let rerecord: bool = match recorded {
        Some(f) => f != filter,
        None => true,
    };
    (realloc, realloc || rerecord)
}

/// No dispatch reads the pixels that it writes.
pub proof fn law_no_dispatch_aliases(gpu: GpuPass, src: Size, out: Size, i: int)
    requires
        0 <= i < dispatches(gpu, src, out).len(),
    ensures
        dispatches(gpu, src, out)[i].input != dispatches(gpu, src, out)[i].output,
{
}

/// The second chain starts from what the first one leaves: its pixels, and
/// their extent.
pub proof fn law_chains_connect(src: Size, out: Size)
    ensures
        ({
            let d = dispatches(GpuPass::ScaleFx { chained: true }, src, out);
            &&& d.len() == 10
            &&& d[5].input == d[4].output
            &&& d[5].src == d[4].out
            &&& d[9].out == out
        }),
{
}

} // verus!
