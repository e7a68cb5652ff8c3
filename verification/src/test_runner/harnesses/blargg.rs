//! Verdict on programs that print their result.

use vstd::prelude::*;

use crate::test_runner::harness::TestResult;
use crate::text::{chars_of, contains, has};

verus! {

/// Frames after which a program that prints nothing is given up.
pub const FRAME_LIMIT: u32 = 6000;

/// The verdict that a program printed.
pub open spec fn printed_verdict(output: Seq<char>) -> TestResult {
    if contains(output, "Passed"@) {
        TestResult::Pass
    } else if contains(output, "Failed"@) {
        TestResult::Fail
    } else {
        TestResult::Timeout
    }
}

/// The verdict that a program printed.
pub fn blargg_verdict(output: &str) -> (r: TestResult)
    ensures
        r == printed_verdict(output@),
{
    let text: Vec<char> = chars_of(output);
    if has(&text, "Passed") {
        TestResult::Pass
    } else if has(&text, "Failed") {
        TestResult::Fail
    } else {
        TestResult::Timeout
    }
}

} // verus!
