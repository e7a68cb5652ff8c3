//! Verdict on programs that leave their result in registers.

use vstd::prelude::*;

use crate::test_runner::harness::TestResult;
use crate::text::{chars_of, contains, has};

verus! {

/// Frames after which a program that reaches no breakpoint is given up.
pub const FRAME_LIMIT: u32 = 300;

/// The registers of a test that passed: B, C, D, E, H and L hold Fibonacci
/// numbers.
pub open spec fn passing_registers() -> Seq<u8> {
    seq![3, 5, 8, 13, 21, 34]
}

/// Whether the registers are those of a test that passed.
pub fn mooneye_passed(regs: [u8; 6]) -> (r: bool)
    ensures
        r == (regs@ == passing_registers()),
{
    let r: bool = regs[0] == 3 && regs[1] == 5 && regs[2] == 8 && regs[3] == 13 && regs[4] == 21
        && regs[5] == 34;
    if r {
        assert(regs@ =~= passing_registers());
    }
    r
}

/// Judgement: the registers at the breakpoint decide, and without a
/// breakpoint the time is over.
pub fn mooneye_verdict(regs: Option<[u8; 6]>) -> (r: TestResult)
    ensures
        r == match regs {
            Some(v) => if v@ == passing_registers() {
                TestResult::Pass
            } else {
                TestResult::Fail
            },
            None => TestResult::Timeout,
        },
{
    match regs {
        Some(v) => if mooneye_passed(v) {
            TestResult::Pass
        } else {
            TestResult::Fail
        },
        None => TestResult::Timeout,
    }
}

/// The boot ROM of a run: where one is used and the program's name speaks of
/// the first color model, that model's one is preferred.
pub fn boot_rom_for(stem: &str, boot_rom: Option<Vec<u8>>, cgb0: Option<Vec<u8>>) -> (r: Option<
    Vec<u8>,
>)
    ensures
        r == if boot_rom is Some && contains(stem@, "cgb0"@) && cgb0 is Some {
            cgb0
        } else {
            boot_rom
        },
{
    match boot_rom {
        None => None,
        Some(b) => {
            let text: Vec<char> = chars_of(stem);
            if has(&text, "cgb0") {
                match cgb0 {
                    Some(c) => Some(c),
                    None => Some(b),
                }
            } else {
                Some(b)
            }
        },
    }
}

/// A register that does not hold what it should after booting.
#[derive(Clone, Copy, PartialEq, Eq, Structural)]
pub struct Mismatch {
    pub addr: u16,
    pub expected: u8,
    pub got: u8,
}

/// The mismatches among the first `n` expected registers, in order.
pub open spec fn mismatches(expected: Seq<(u16, u8)>, got: Seq<u8>, n: nat) -> Seq<Mismatch>
    decreases n,
{
    if n == 0 {
        seq![]
    } else {
        let before = mismatches(expected, got, (n - 1) as nat);
        let (addr, want) = expected[n - 1];
        if got[n - 1] != want {
            before.push(Mismatch { addr, expected: want, got: got[n - 1] })
        } else {
            before
        }
    }
}

/// Compare registers with what they should hold after booting.
pub fn find_mismatches(expected: &[(u16, u8)], got: &[u8]) -> (r: Vec<Mismatch>)
    requires
        expected@.len() == got@.len(),
    ensures
        r@ == mismatches(expected@, got@, got@.len()),
{
    let mut r: Vec<Mismatch> = Vec::new();
    let mut i: usize = 0;
    while i < got.len()
        invariant
            i <= got@.len() == expected@.len(),
            r@ == mismatches(expected@, got@, i as nat),
        decreases got@.len() - i,
    {
        let (addr, want) = expected[i];
        if got[i] != want {
            r.push(Mismatch { addr, expected: want, got: got[i] });
        }
        i += 1;
    }
    r
}

} // verus!
