//! Verdict on programs that leave their result in memory.

use vstd::prelude::*;

use crate::test_runner::harness::TestResult;
use crate::text::{chars_of, same};

verus! {

/// Frames that a program gets: most are done after a few, one takes longer.
pub fn frames_for(filename: &str) -> (r: u32)
    ensures
        r == if filename@ == "is_if_set_during_ime0.gb"@ {
            30u32
        } else {
            4
        },
{
    let name: Vec<char> = chars_of(filename);
    if same(&name, "is_if_set_during_ime0.gb") {
        30
    } else {
        4
    }
}

/// Position `i` stores the accumulator at the start of video memory.
pub open spec fn stores_result(rom: Seq<u8>, i: int) -> bool {
    0 <= i && i + 6 < rom.len() && rom[i] == 0xEA && rom[i + 1] == 0x00 && rom[i + 2] == 0x80
}

/// Position `j` compares the accumulator and then branches, at most 20 bytes
/// before position `i`.
pub open spec fn compares_before(rom: Seq<u8>, i: int, j: int) -> bool {
    0 <= j && i - 20 <= j < i && rom[j] == 0xFE && rom[j + 2] == 0x28
}

/// Position `j` is the last comparison before the store at `i`, and no earlier
/// store has one.
pub open spec fn checks_result(rom: Seq<u8>, i: int, j: int) -> bool {
    &&& stores_result(rom, i)
    &&& compares_before(rom, i, j)
    &&& forall|k: int| j < k < i ==> !#[trigger] compares_before(rom, i, k)
    &&& forall|h: int, k: int|
        #![trigger stores_result(rom, h), compares_before(rom, h, k)]
        h < i && stores_result(rom, h) ==> !compares_before(rom, h, k)
}

fn comparison_before(rom: &[u8], i: usize) -> (r: Option<usize>)
    requires
        stores_result(rom@, i as int),
    ensures
        match r {
            Some(j) => compares_before(rom@, i as int, j as int) && forall|k: int|
                j < k < i ==> !#[trigger] compares_before(rom@, i as int, k),
            None => forall|k: int| !#[trigger] compares_before(rom@, i as int, k),
        },
{
    let _n: usize = rom.len();
    let lowest: usize = if i >= 20 {
        i - 20
    } else {
        0
    };
    let mut j: usize = i;
    while j > lowest
        invariant
            lowest <= j <= i,
            i + 6 < rom@.len() <= usize::MAX,
            lowest == if i >= 20 {
                i - 20
            } else {
                0
            },
            forall|k: int| j <= k < i ==> !#[trigger] compares_before(rom@, i as int, k),
        decreases j,
    {
        j -= 1;
        if rom[j] == 0xFE && rom[j + 2] == 0x28 {
            return Some(j);
        }
    }
    None
}

/// The value that a program expects in video memory: the operand of the
/// comparison that stands before the store there.
pub fn find_expected_value(rom: &[u8]) -> (r: Option<u8>)
    ensures
        match r {
            Some(v) => exists|i: int, j: int| #[trigger]
                checks_result(rom@, i, j) && v == rom@[j + 1],
            None => forall|i: int, j: int| !#[trigger] checks_result(rom@, i, j),
        },
{
    let _n: usize = rom.len();
    if rom.len() <= 6 {
        return None;
    }
    let last: usize = rom.len() - 6;
    let mut i: usize = 0;
    while i < last
        invariant
            last + 6 == rom@.len() <= usize::MAX,
            i <= last,
            forall|h: int, k: int|
                #![trigger stores_result(rom@, h), compares_before(rom@, h, k)]
                h < i && stores_result(rom@, h) ==> !compares_before(rom@, h, k),
        decreases last - i,
    {
        if rom[i] == 0xEA && rom[i + 1] == 0x00 && rom[i + 2] == 0x80 {
            assert(stores_result(rom@, i as int));
            if let Some(j) = comparison_before(rom, i) {
                assert(checks_result(rom@, i as int, j as int));
                return Some(rom[j + 1]);
            }
        }
        i += 1;
    }
    None
}

/// Judgement: the result byte in high memory decides; without one, the byte
/// in video memory does, if it was written and its expected value is known.
pub open spec fn memory_verdict(result: u8, vram: u8, expected: Option<u8>) -> TestResult {
    if result == 0x01 {
        TestResult::Pass
    } else if result == 0xFF {
        TestResult::Fail
    } else if vram != 0 {
        match expected {
            Some(v) => if vram == v {
                TestResult::Pass
            } else {
                TestResult::Fail
            },
            None => TestResult::Timeout,
        }
    } else {
        TestResult::Timeout
    }
}

/// The verdict on what a program left in memory.
pub fn gbmicrotest_verdict(result: u8, vram: u8, expected: Option<u8>) -> (r: TestResult)
    ensures
        r == memory_verdict(result, vram, expected),
{
    if result == 0x01 {
        return TestResult::Pass;
    }
    if result == 0xFF {
        return TestResult::Fail;
    }
    if vram != 0 {
        return match expected {
            Some(v) => if vram == v {
                TestResult::Pass
            } else {
                TestResult::Fail
            },
            None => TestResult::Timeout,
        };
    }
    TestResult::Timeout
}

/// A program has at most one expected value.
pub proof fn law_expected_value_is_unique(rom: Seq<u8>, i: int, j: int, h: int, k: int)
    requires
        checks_result(rom, i, j),
        checks_result(rom, h, k),
    ensures
        i == h,
        j == k,
{
    if h < i {
        assert(!compares_before(rom, h, k));
    }
    if i < h {
        assert(!compares_before(rom, i, j));
    }
    if k < j {
        assert(!compares_before(rom, h, j));
    }
    if j < k {
        assert(!compares_before(rom, i, k));
    }
}

} // verus!
