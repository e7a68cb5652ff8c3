//! Results of test programs and their counts.

use vstd::prelude::*;

use crate::text::{decimal, push_decimal};

verus! {

#[derive(Debug, Clone, Copy, PartialEq, Eq, Structural)]
pub enum TestResult {
    Pass,
    Fail,
    Timeout,
    Skip,
    Error,
}

impl TestResult {
    pub open spec fn name(self) -> Seq<char> {
        match self {
            TestResult::Pass => "PASS"@,
            TestResult::Fail => "FAIL"@,
            TestResult::Timeout => "TIMEOUT"@,
            TestResult::Skip => "SKIP"@,
            TestResult::Error => "ERR"@,
        }
    }

    /// The word that is printed for a result.
    pub fn label(self) -> (r: &'static str)
        ensures
            r@ == self.name(),
    {
        match self {
            TestResult::Pass => "PASS",
            TestResult::Fail => "FAIL",
            TestResult::Timeout => "TIMEOUT",
            TestResult::Skip => "SKIP",
            TestResult::Error => "ERR",
        }
    }
}

/// Counts of results. Skipped programs are not results and not part of the
/// total.
#[derive(Debug, Clone, Copy, PartialEq, Eq, Structural)]
pub struct Summary {
    pub passed: usize,
    pub failed: usize,
    pub timeout: usize,
    pub errors: usize,
    pub skipped: usize,
}

impl Default for Summary {
    /// No results yet.
    fn default() -> (r: Self)
        ensures
            r == (Summary { passed: 0, failed: 0, timeout: 0, errors: 0, skipped: 0 }),
    {
        Summary { passed: 0, failed: 0, timeout: 0, errors: 0, skipped: 0 }
    }
}

pub open spec fn count_of(results: Seq<TestResult>, r: TestResult) -> nat
    decreases results.len(),
{
    if results.len() == 0 {
        0
    } else {
        count_of(results.drop_last(), r) + if results.last() == r {
            1nat
        } else {
            0
        }
    }
}

/// The counts of a list of results.
pub open spec fn summary_of(results: Seq<TestResult>) -> Summary {
    Summary {
        passed: count_of(results, TestResult::Pass) as usize,
        failed: count_of(results, TestResult::Fail) as usize,
        timeout: count_of(results, TestResult::Timeout) as usize,
        errors: count_of(results, TestResult::Error) as usize,
        skipped: count_of(results, TestResult::Skip) as usize,
    }
}

impl Summary {
    pub open spec fn counted(self) -> int {
        self.passed + self.failed + self.timeout + self.errors
    }

    pub fn total(&self) -> (r: usize)
        requires
            self.counted() <= usize::MAX,
        ensures
            r == self.counted(),
    {
        self.passed + self.failed + self.timeout + self.errors
    }

    /// Whether every test that ran passed.
    pub fn all_passed(&self) -> (r: bool)
        requires
            self.counted() <= usize::MAX,
        ensures
            r == (self.failed == 0 && self.timeout == 0 && self.errors == 0),
    {
        self.passed == self.total()
    }

    /// The line that is printed for the counts.
    pub open spec fn text(self) -> Seq<char> {
        let counts = "--- "@ + decimal(self.passed as int) + " passed, "@ + decimal(
            self.failed as int,
        ) + " failed, "@ + decimal(self.timeout as int) + " timeout"@;
        let errors = if self.errors > 0 {
            ", "@ + decimal(self.errors as int) + " error"@
        } else {
            seq![]
        };
        let skipped = if self.skipped > 0 {
            ", "@ + decimal(self.skipped as int) + " skipped"@
        } else {
            seq![]
        };
        counts + errors + skipped + " ("@ + decimal(self.counted()) + " total) ---"@
    }

    /// The line that is printed for the counts.
    pub fn line(&self) -> (r: String)
        requires
            self.counted() <= usize::MAX,
        ensures
            r@ == self.text(),
    {
        let mut s: String = String::new();
        s.append("--- ");
        push_decimal(&mut s, self.passed as u64);
        s.append(" passed, ");
        push_decimal(&mut s, self.failed as u64);
        s.append(" failed, ");
        push_decimal(&mut s, self.timeout as u64);
        s.append(" timeout");
        let ghost counts = s@;
        assert(counts =~= "--- "@ + decimal(self.passed as int) + " passed, "@ + decimal(
            self.failed as int,
        ) + " failed, "@ + decimal(self.timeout as int) + " timeout"@);
        if self.errors > 0 {
            s.append(", ");
            push_decimal(&mut s, self.errors as u64);
            s.append(" error");
        }
        let ghost errors = s@;
        assert(errors =~= counts + if self.errors > 0 {
            ", "@ + decimal(self.errors as int) + " error"@
        } else {
            seq![]
        });
        if self.skipped > 0 {
            s.append(", ");
            push_decimal(&mut s, self.skipped as u64);
            s.append(" skipped");
        }
        assert(s@ =~= errors + if self.skipped > 0 {
            ", "@ + decimal(self.skipped as int) + " skipped"@
        } else {
            seq![]
        });
        s.append(" (");
        push_decimal(&mut s, self.total() as u64);
        s.append(" total) ---");
        s
    }
}

proof fn lemma_counts(results: Seq<TestResult>)
    ensures
        count_of(results, TestResult::Pass) + count_of(results, TestResult::Fail) + count_of(
            results,
            TestResult::Timeout,
        ) + count_of(results, TestResult::Error) + count_of(results, TestResult::Skip)
            == results.len(),
    decreases results.len(),
{
    if results.len() > 0 {
        lemma_counts(results.drop_last());
    }
}

/// Count results.
pub fn summarize(results: &[TestResult]) -> (r: Summary)
    ensures
        r == summary_of(results@),
        r.counted() + r.skipped == results@.len(),
{
    let _n: usize = results.len();
    let mut r = Summary::default();
    let mut i: usize = 0;
    while i < results.len()
        invariant
            i <= results@.len() <= usize::MAX,
            r.passed == count_of(results@.take(i as int), TestResult::Pass),
            r.failed == count_of(results@.take(i as int), TestResult::Fail),
            r.timeout == count_of(results@.take(i as int), TestResult::Timeout),
            r.errors == count_of(results@.take(i as int), TestResult::Error),
            r.skipped == count_of(results@.take(i as int), TestResult::Skip),
        decreases results@.len() - i,
    {
        proof {
            lemma_counts(results@.take(i as int));
            assert(results@.take(i + 1).drop_last() =~= results@.take(i as int));
        }
        match results[i] {
            TestResult::Pass => r.passed = r.passed + 1,
            TestResult::Fail => r.failed = r.failed + 1,
            TestResult::Timeout => r.timeout = r.timeout + 1,
            TestResult::Error => r.errors = r.errors + 1,
            TestResult::Skip => r.skipped = r.skipped + 1,
        }
        i += 1;
    }
    assert(results@.take(results@.len() as int) =~= results@);
    proof {
        lemma_counts(results@);
    }
    r
}

/// Every program is counted once, and all passed means that none that ran did
/// otherwise.
pub proof fn law_summary_counts_every_program(results: Seq<TestResult>)
    requires
        results.len() <= usize::MAX,
    ensures
        summary_of(results).counted() + summary_of(results).skipped == results.len(),
        (summary_of(results).passed == summary_of(results).counted()) <==> forall|i: int|
            0 <= i < results.len() ==> #[trigger] results[i] == TestResult::Pass || results[i]
                == TestResult::Skip,
    decreases results.len(),
{
    lemma_counts(results);
    if results.len() > 0 {
        let before = results.drop_last();
        law_summary_counts_every_program(before);
        lemma_counts(before);
        let n = results.len() - 1;
        assert forall|i: int| 0 <= i < before.len() implies before[i] == results[i] by {}
        if forall|i: int|
            0 <= i < before.len() ==> #[trigger] before[i] == TestResult::Pass || before[i]
                == TestResult::Skip {
            if results[n] == TestResult::Pass || results[n] == TestResult::Skip {
                assert forall|i: int| 0 <= i < results.len() implies #[trigger] results[i]
                    == TestResult::Pass || results[i] == TestResult::Skip by {
                    if i < n {
                        assert(before[i] == results[i]);
                    }
                }
            }
        } else {
            let i = choose|i: int|
                0 <= i < before.len() && !(#[trigger] before[i] == TestResult::Pass || before[i]
                    == TestResult::Skip);
            assert(results[i] == before[i]);
        }
    }
}

} // verus!
