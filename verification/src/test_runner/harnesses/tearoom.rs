//! Verdict on programs whose picture is compared with a reference.

use vstd::prelude::*;


use crate::model::GbModel;
use crate::test_runner::harness::TestResult;
use crate::text::{chars_of, ends_with, has_suffix};

verus! {

pub const GB_FB_WIDTH: usize = 160;

pub const GB_FB_HEIGHT: usize = 144;

pub open spec fn is_cgb(model: GbModel) -> bool {
    model == GbModel::Cgb0 || model == GbModel::Cgb || model == GbModel::Agb
}

fn has_color(model: GbModel) -> (r: bool)
    ensures
        r == is_cgb(model),
{
    match model {
        GbModel::Cgb0 | GbModel::Cgb | GbModel::Agb => true,
        _ => false,
    }
}

/// The model of a run: a forced one, or the color model for programs whose name
/// asks for it, or the first one.
pub fn tearoom_model(stem: &str, force: Option<GbModel>) -> (r: GbModel)
    ensures
        r == match force {
            Some(m) => m,
            None => if ends_with(stem@, "-C"@) {
                GbModel::Cgb
            } else {
                GbModel::Dmg
            },
        },
{
    match force {
        Some(m) => m,
        None => {
            let s: Vec<char> = chars_of(stem);
            if has_suffix(&s, "-C") {
                GbModel::Cgb
            } else {
                GbModel::Dmg
            }
        },
    }
}

/// Suffixes of the reference pictures, in order of preference.
pub fn reference_suffixes(model: GbModel) -> (r: [&'static str; 2])
    ensures
        r@[0]@ == if is_cgb(model) {
            "_cgb_c.png"@
        } else {
            "_dmg_blob.png"@
        },
        r@[1]@ == if is_cgb(model) {
            "_cgb_d.png"@
        } else {
            "_dmg_b.png"@
        },
{
    if has_color(model) {
        ["_cgb_c.png", "_cgb_d.png"]
    } else {
        ["_dmg_blob.png", "_dmg_b.png"]
    }
}

/// The color without its alpha.
pub open spec fn rgb(pixel: u32) -> u32 {
    pixel % 0x100_0000
}

/// The reference gray of a shade, lightest first.
pub open spec fn reference_gray(i: int) -> u32 {
    if i == 0 {
        0x00FF_FFFF
    } else if i == 1 {
        0x00AA_AAAA
    } else if i == 2 {
        0x0055_5555
    } else {
        0
    }
}

/// The first of four shades that is a color, or 4.
pub open spec fn shade_index(shades: Seq<u32>, color: u32) -> int {
    if shades[0] == color {
        0
    } else if shades[1] == color {
        1
    } else if shades[2] == color {
        2
    } else if shades[3] == color {
        3
    } else {
        4
    }
}

/// The reference gray for a pixel. White stands for the lightest shade, as do
/// the shades of either screen for theirs; any other color is no shade, and
/// marked so that it equals no reference.
pub open spec fn to_reference(pixel: u32, dmg: Seq<u32>, mgb: Seq<u32>) -> u32 {
    let c = rgb(pixel);
    if c == 0x00FF_FFFF {
        reference_gray(0)
    } else if shade_index(dmg, c) < 4 {
        reference_gray(shade_index(dmg, c))
    } else if shade_index(mgb, c) < 4 {
        reference_gray(shade_index(mgb, c))
    } else {
        (c + 0xFF00_0000) as u32
    }
}

fn index_of_shade(shades: &[u32; 4], color: u32) -> (r: usize)
    ensures
        r == shade_index(shades@, color),
{
    if shades[0] == color {
        0
    } else if shades[1] == color {
        1
    } else if shades[2] == color {
        2
    } else if shades[3] == color {
        3
    } else {
        4
    }
}

fn gray(i: usize) -> (r: u32)
    ensures
        r == reference_gray(i as int),
{
    if i == 0 {
        0x00FF_FFFF
    } else if i == 1 {
        0x00AA_AAAA
    } else if i == 2 {
        0x0055_5555
    } else {
        0
    }
}

/// The reference gray for a pixel of a screen with these shades.
pub fn dmg_pixel_to_reference(pixel: u32, dmg: &[u32; 4], mgb: &[u32; 4]) -> (r: u32)
    ensures
        r == to_reference(pixel, dmg@, mgb@),
{
    let c: u32 = pixel % 0x100_0000;
    if c == 0x00FF_FFFF {
        return gray(0);
    }
    let i: usize = index_of_shade(dmg, c);
    if i < 4 {
        return gray(i);
    }
    let j: usize = index_of_shade(mgb, c);
    if j < 4 {
        return gray(j);
    }
    c + 0xFF00_0000
}

/// What a pixel is compared as: color screens show what the reference shows.
pub open spec fn shown(model: GbModel, pixel: u32, dmg: Seq<u32>, mgb: Seq<u32>) -> u32 {
    if is_cgb(model) {
        rgb(pixel)
    } else {
        to_reference(rgb(pixel), dmg, mgb)
    }
}

/// A pixel that differs from the reference.
#[derive(Clone, Copy, PartialEq, Eq, Structural)]
pub struct PixelMismatch {
    pub x: usize,
    pub y: usize,
    pub ours: u32,
    pub expected: u32,
}

/// How many pixels differ, and the first of them.
#[derive(Clone, Copy)]
pub struct Comparison {
    pub mismatches: u32,
    pub first: Option<PixelMismatch>,
}

/// What is compared with what at pixel `i`.
pub open spec fn pair_at(
    fb: Seq<u32>,
    reference: Seq<u32>,
    model: GbModel,
    dmg: Seq<u32>,
    mgb: Seq<u32>,
    i: int,
) -> PixelMismatch {
    PixelMismatch {
        x: (i % 160) as usize,
        y: (i / 160) as usize,
        ours: shown(model, fb[i], dmg, mgb),
        expected: reference[i],
    }
}

/// The comparison of the first `n` pixels.
pub open spec fn compared(
    fb: Seq<u32>,
    reference: Seq<u32>,
    model: GbModel,
    dmg: Seq<u32>,
    mgb: Seq<u32>,
    n: nat,
) -> (nat, Option<PixelMismatch>)
    decreases n,
{
    if n == 0 {
        (0, None)
    } else {
        let (count, first) = compared(fb, reference, model, dmg, mgb, (n - 1) as nat);
        let p = pair_at(fb, reference, model, dmg, mgb, n - 1);
        if p.ours == p.expected {
            (count, first)
        } else {
            (
                count + 1,
                if first is Some {
                    first
                } else {
                    Some(p)
                },
            )
        }
    }
}

/// Compare a screen with a reference, row by row.
pub fn compare_screens(
    fb: &[u32],
    reference: &[u32],
    model: GbModel,
    dmg: &[u32; 4],
    mgb: &[u32; 4],
) -> (r: Comparison)
    requires
        fb@.len() == 160 * 144,
        reference@.len() == 160 * 144,
    ensures
        r.mismatches == compared(fb@, reference@, model, dmg@, mgb@, 160 * 144).0,
        r.first == compared(fb@, reference@, model, dmg@, mgb@, 160 * 144).1,
{
    let color: bool = has_color(model);
    let mut r = Comparison { mismatches: 0, first: None };
    let mut i: usize = 0;
    while i < 160 * 144
        invariant
            i <= 160 * 144,
            color == is_cgb(model),
            fb@.len() == 160 * 144,
            reference@.len() == 160 * 144,
            r.mismatches <= i,
            r.mismatches == compared(fb@, reference@, model, dmg@, mgb@, i as nat).0,
            r.first == compared(fb@, reference@, model, dmg@, mgb@, i as nat).1,
        decreases 160 * 144 - i,
    {
        let pixel: u32 = fb[i] % 0x100_0000;
        let ours: u32 = if color {
            pixel
        } else {
            dmg_pixel_to_reference(pixel, dmg, mgb)
        };
        let expected: u32 = reference[i];
        if ours != expected {
            r.mismatches = r.mismatches + 1;
            if r.first.is_none() {
                r.first = Some(PixelMismatch { x: i % 160, y: i / 160, ours, expected });
            }
        }
        i += 1;
    }
    r
}

/// The verdict of a comparison.
pub fn tearoom_verdict(c: &Comparison) -> (r: TestResult)
    ensures
        r == if c.mismatches == 0 {
            TestResult::Pass
        } else {
            TestResult::Fail
        },
{
    if c.mismatches == 0 {
        TestResult::Pass
    } else {
        TestResult::Fail
    }
}

/// A comparison finds no mismatch exactly when every pixel shows what the
/// reference does.
pub proof fn law_comparison_misses_nothing(
    fb: Seq<u32>,
    reference: Seq<u32>,
    model: GbModel,
    dmg: Seq<u32>,
    mgb: Seq<u32>,
    n: nat,
)
    ensures
        compared(fb, reference, model, dmg, mgb, n).0 == 0 <==> forall|i: int|
            0 <= i < n ==> shown(model, #[trigger] fb[i], dmg, mgb) == reference[i],
        compared(fb, reference, model, dmg, mgb, n).1 is Some <==> compared(
            fb,
            reference,
            model,
            dmg,
            mgb,
            n,
        ).0 > 0,
    decreases n,
{
    if n > 0 {
        law_comparison_misses_nothing(fb, reference, model, dmg, mgb, (n - 1) as nat);
        let last = fb[n - 1];
        if forall|i: int|
            0 <= i < n ==> shown(model, #[trigger] fb[i], dmg, mgb) == reference[i] {
            assert(shown(model, last, dmg, mgb) == reference[n - 1]);
        }
    }
}

/// A color that is no shade differs from every reference color.
pub proof fn law_foreign_colors_never_match(pixel: u32, dmg: Seq<u32>, mgb: Seq<u32>, expected: u32)
    requires
        rgb(pixel) != 0x00FF_FFFF,
        shade_index(dmg, rgb(pixel)) == 4,
        shade_index(mgb, rgb(pixel)) == 4,
        expected < 0x100_0000,
    ensures
        to_reference(pixel, dmg, mgb) != expected,
{
}

} // verus!
