//! Mixing of color channels with the rounding of single-precision arithmetic,
//! computed in integers: all values are multiples of 2^-28.

use vstd::prelude::*;

use crate::scaling::picture::{channel, from_channels};

verus! {

/// The number one.
pub const UNIT: u64 = 0x1000_0000;

/// By how many bits a number is longer than 24.
pub open spec fn excess(v: int) -> nat
    decreases v,
{
    if v < 0x100_0000 {
        0
    } else {
        1 + excess(v / 2)
    }
}

pub open spec fn two_to(s: nat) -> int
    decreases s,
{
    if s == 0 {
        1
    } else {
        2 * two_to((s - 1) as nat)
    }
}

/// The nearest multiple of `unit`; of two equally near ones, the even multiple.
pub open spec fn nearest_even(v: int, unit: int) -> int {
    let q = v / unit;
    let r = v % unit;
    if 2 * r > unit || (2 * r == unit && q % 2 == 1) {
        (q + 1) * unit
    } else {
        q * unit
    }
}

/// A number rounded to 24 significant bits.
pub open spec fn rounded(v: int) -> int {
    nearest_even(v, two_to(excess(v)))
}

/// The mean of two channel values, each step rounded to 24 bits, then rounded
/// to an integer.
pub open spec fn single_mixed(a: int, b: int, weight: int) -> int {
    let rest = rounded(UNIT - weight);
    let sum = rounded(rounded(a * rest) + rounded(b * weight));
    let r = rounded(sum + UNIT / 2) / UNIT as int;
    if r > 255 {
        255
    } else {
        r
    }
}

proof fn lemma_two_to(s: nat)
    requires
        s <= 16,
    ensures
        1 <= two_to(s) <= 0x1_0000,
        s >= 1 ==> two_to(s) == 2 * two_to((s - 1) as nat),
        s <= 14 ==> two_to(s) <= 0x4000,
    decreases s,
{
    if s > 0 {
        lemma_two_to((s - 1) as nat);
    }
    reveal_with_fuel(two_to, 17);
}

proof fn lemma_excess(v: int, bound: nat)
    requires
        0 <= v,
        v < 0x100_0000 * two_to(bound),
    ensures
        excess(v) <= bound,
    decreases bound,
{
    if bound > 0 && v >= 0x100_0000 {
        lemma_excess(v / 2, (bound - 1) as nat);
    }
}

/// Rounding moves a number by at most half a unit, and its size stays.
proof fn lemma_rounded(v: int)
    requires
        0 <= v < 0x80_0000_0000,
    ensures
        excess(v) <= 15,
        1 <= two_to(excess(v)) <= 0x8000,
        -0x4000 <= rounded(v) - v <= 0x4000,
        0 <= rounded(v),
{
    assert(two_to(15) == 0x8000) by {
        reveal_with_fuel(two_to, 16);
    }
    lemma_excess(v, 15);
    let s = excess(v);
    lemma_two_to(s);
    let u = two_to(s);
    assert(u <= 0x8000) by {
        reveal_with_fuel(two_to, 16);
    }
    let q = v / u;
    let r = v % u;
    vstd::arithmetic::div_mod::lemma_fundamental_div_mod(v, u);
    assert(0 <= r < u);
    assert(v == q * u + r) by (nonlinear_arith)
        requires
            v == u * q + r,
    ;
    assert((q + 1) * u == q * u + u) by (nonlinear_arith);
    assert(q * u >= 0) by (nonlinear_arith)
        requires
            v == q * u + r,
            0 <= r < u,
            v >= 0,
            u >= 1,
    ;
}

/// Round a number to 24 significant bits.
fn round24(v: u64) -> (r: u64)
    requires
        v < 0x80_0000_0000,
    ensures
        r == rounded(v as int),
        r <= v + 0x4000,
{
    let mut unit: u64 = 1;
    let mut top: u64 = v;
    let ghost mut s: nat = 0;
    proof {
        lemma_rounded(v as int);
    }
    while top >= 0x100_0000
        invariant
            v < 0x80_0000_0000,
            unit == two_to(s),
            s + excess(top as int) == excess(v as int),
            excess(v as int) <= 15,
            unit <= 0x8000,
        decreases top,
    {
        proof {
            lemma_two_to(s + 1);
            assert(s + 1 <= 15);
            assert(two_to(s + 1) <= 0x8000) by {
                reveal_with_fuel(two_to, 16);
            }
        }
        top = top / 2;
        unit = 2 * unit;
        proof {
            s = s + 1;
        }
    }
    assert(s == excess(v as int));
    assert(unit >= 1) by {
        lemma_two_to(s);
    }
    let q: u64 = v / unit;
    let rem: u64 = v % unit;
    proof {
        vstd::arithmetic::div_mod::lemma_fundamental_div_mod(v as int, unit as int);
        assert(q * unit + rem == v) by (nonlinear_arith)
            requires
                v == unit * q + rem,
        ;
        assert((q + 1) * unit == q * unit + unit) by (nonlinear_arith);
    }
    if 2 * rem > unit || (2 * rem == unit && q % 2 == 1) {
        (q + 1) * unit
    } else {
        q * unit
    }
}

proof fn lemma_weights(a: int, b: int, weight: int)
    requires
        0 <= a <= 255,
        0 <= b <= 255,
        0 <= weight <= UNIT,
    ensures
        0 <= rounded(UNIT - weight) <= UNIT - weight + 0x4000,
        0 <= a * rounded(UNIT - weight) <= 255 * (UNIT - weight + 0x4000),
        0 <= b * weight <= 255 * weight,
{
    lemma_rounded(UNIT - weight);
    let rest = rounded(UNIT - weight);
    assert(0 <= a * rest <= 255 * rest) by (nonlinear_arith)
        requires
            0 <= a <= 255,
            0 <= rest,
    ;
    assert(0 <= b * weight <= 255 * weight) by (nonlinear_arith)
        requires
            0 <= b <= 255,
            0 <= weight,
    ;
}

fn mix(a: u32, b: u32, weight: u64) -> (r: u32)
    requires
        a <= 255,
        b <= 255,
        weight <= UNIT,
    ensures
        r == single_mixed(a as int, b as int, weight as int),
        r <= 255,
{
    proof {
        lemma_weights(a as int, b as int, weight as int);
    }
    let rest: u64 = round24(UNIT - weight);
    let x: u64 = round24(a as u64 * rest);
    let y: u64 = round24(b as u64 * weight);
    let sum: u64 = round24(x + y);
    let z: u64 = round24(sum + UNIT / 2);
    let r: u64 = z / UNIT;
    if r > 255 {
        255
    } else {
        r as u32
    }
}

/// Red, green and blue mixed; the alpha is left out.
pub open spec fn weighted(a: u32, b: u32, weight: int) -> u32 {
    from_channels(
        single_mixed(channel(a, 0), channel(b, 0), weight),
        single_mixed(channel(a, 1), channel(b, 1), weight),
        single_mixed(channel(a, 2), channel(b, 2), weight),
        0,
    )
}

/// Mix the second color into the first with a weight of multiples of 2^-28.
pub fn weighted_mix(a: u32, b: u32, weight: u64) -> (r: u32)
    requires
        weight <= UNIT,
    ensures
        r == weighted(a, b, weight as int),
{
    let c0: u32 = mix(a % 256, b % 256, weight);
    let c1: u32 = mix(a / 256 % 256, b / 256 % 256, weight);
    let c2: u32 = mix(a / 65536 % 256, b / 65536 % 256, weight);
    c0 + 256 * c1 + 65536 * c2
}

/// A color mixed with itself stays, whatever the weight: the roundings are too
/// small to matter. Only its top byte is lost.
pub proof fn law_mixing_a_color_with_itself(c: u32, weight: int)
    requires
        0 <= weight <= UNIT,
    ensures
        weighted(c, c, weight) == c as int % 0x100_0000,
{
    assert forall|a: int| 0 <= a <= 255 implies #[trigger] single_mixed(a, a, weight) == a by {
        lemma_self_mix(a, weight);
    }
}

proof fn lemma_self_mix(a: int, weight: int)
    requires
        0 <= a <= 255,
        0 <= weight <= UNIT,
    ensures
        single_mixed(a, a, weight) == a,
{
    lemma_weights(a, a, weight);
    lemma_rounded(UNIT - weight);
    let rest = rounded(UNIT - weight);
    lemma_rounded(a * rest);
    lemma_rounded(a * weight);
    let s = rounded(a * rest) + rounded(a * weight);
    lemma_rounded(s);
    lemma_rounded(rounded(s) + UNIT / 2);
    let slack = rest - (UNIT - weight);
    assert(a * rest + a * weight == a * UNIT + a * slack) by (nonlinear_arith)
        requires
            rest == UNIT - weight + slack,
    ;
    assert(-255 * 0x4000 <= a * slack <= 255 * 0x4000) by (nonlinear_arith)
        requires
            0 <= a <= 255,
            -0x4000 <= slack <= 0x4000,
    ;
}

} // verus!
