//! Statistics over the outcomes of one file.

use vstd::prelude::*;
use crate::outcome::{TestStatus, TimedOutcome};

verus! {

/// The number of failed outcomes in `outcomes`.
pub open spec fn failure_count(outcomes: Seq<TimedOutcome>) -> nat
    decreases outcomes.len(),
{
    if outcomes.len() == 0 {
        0
    } else {
        failure_count(outcomes.drop_last()) + if outcomes.last().outcome is Failed {
            1nat
        } else {
            0nat
        }
    }
}

/// The sum of the durations in `outcomes`, in milliseconds.
pub open spec fn total_duration(outcomes: Seq<TimedOutcome>) -> nat
    decreases outcomes.len(),
{
    if outcomes.len() == 0 {
        0
    } else {
        total_duration(outcomes.drop_last()) + outcomes.last().duration
    }
}

/// The mean duration of a non-empty sequence, rounded down to whole
/// milliseconds.
pub open spec fn average_duration(outcomes: Seq<TimedOutcome>) -> nat
    recommends
        outcomes.len() > 0,
{
    total_duration(outcomes) / outcomes.len()
}

/// The truncated percentage of failed outcomes in a non-empty sequence.
pub open spec fn failure_percentage(outcomes: Seq<TimedOutcome>) -> nat
    recommends
        outcomes.len() > 0,
{
    failure_count(outcomes) * 100 / outcomes.len()
}

/// The failure count never exceeds the number of outcomes.
pub proof fn lemma_failure_count_bounded(outcomes: Seq<TimedOutcome>)
    ensures
        failure_count(outcomes) <= outcomes.len(),
    decreases outcomes.len(),
{
    if outcomes.len() > 0 {
        lemma_failure_count_bounded(outcomes.drop_last());
    }
}

/// Counts the failed outcomes of `results`.
pub fn count_failures(results: &[TestStatus]) -> (count: usize)
    ensures
        count == failure_count(results.deep_view()),
{
    let mut count: usize = 0;
    let mut i: usize = 0;
    while i < results.len()
        invariant
            i <= results.len(),
            count == failure_count(results.deep_view().take(i as int)),
            count <= i,
        decreases results.len() - i,
    {
        proof {
            let model = results.deep_view();
            assert(model.take(i + 1).drop_last() =~= model.take(i as int));
            assert(model.take(i + 1).last() == results[i as int]@);
        }
        if results[i].result.is_failed() {
            count = count + 1;
        }
        i = i + 1;
    }
    proof {
        assert(results.deep_view().take(i as int) =~= results.deep_view());
    }
    count
}

/// A sum of `count` durations is at most `count` times the largest `u128`.
proof fn lemma_total_duration_bounded(results: Seq<TestStatus>, count: int)
    requires
        0 <= count <= results.len(),
    ensures
        total_duration(results.map_values(|s: TestStatus| s@).take(count)) <= count * u128::MAX,
    decreases count,
{
    let model = results.map_values(|s: TestStatus| s@);
    if count > 0 {
        lemma_total_duration_bounded(results, count - 1);
        assert(model.take(count).drop_last() =~= model.take(count - 1));
        assert(model.take(count).last().duration == results[count - 1].duration);
    }
}

/// The quotient of a sum that is known as `quotient * n + remainder`.
proof fn lemma_quotient_of_parts(total: int, n: int, quotient: int, remainder: int, bound: int)
    requires
        0 < n,
        0 <= remainder < n,
        0 <= quotient,
        total == quotient * n + remainder,
        total <= n * bound,
    ensures
        quotient == total / n,
        quotient <= bound,
{
    vstd::arithmetic::div_mod::lemma_fundamental_div_mod_converse(total, n, quotient, remainder);
    assert(quotient <= bound) by (nonlinear_arith)
        requires
            0 < n,
            0 <= remainder,
            quotient * n + remainder <= n * bound,
    ;
}

/// Computes the mean duration of `results`, rounded down. The running sum
/// is kept as a quotient and a remainder, so no intermediate value leaves
/// `u128` however long the durations are.
pub fn mean_duration(results: &[TestStatus]) -> (avg: u128)
    requires
        results.len() > 0,
    ensures
        avg == average_duration(results.deep_view()),
{
    let n: u128 = results.len() as u128;
    let mut quotient: u128 = 0;
    let mut remainder: u128 = 0;
    let mut i: usize = 0;
    while i < results.len()
        invariant
            n == results.len(),
            0 < n,
            i <= results.len(),
            remainder < n,
            quotient * n + remainder == total_duration(results.deep_view().take(i as int)),
        decreases results.len() - i,
    {
        let duration = results[i].duration;
        let whole = duration / n;
        let part = duration % n;
        let carried: u128 = if remainder + part >= n { 1 } else { 0 };
        proof {
            let model = results.deep_view();
            assert(model =~= results@.map_values(|s: TestStatus| s@));
            assert(model.take(i + 1).drop_last() =~= model.take(i as int));
            assert(model.take(i + 1).last().duration == duration);
            let total = total_duration(model.take(i + 1)) as int;
            lemma_total_duration_bounded(results@, i + 1);
            vstd::arithmetic::div_mod::lemma_fundamental_div_mod(duration as int, n as int);
            let next = quotient + whole + carried;
            let rest = remainder + part - carried * n;
            assert(total == next * n + rest) by (nonlinear_arith)
                requires
                    total == quotient * n + remainder + duration,
                    duration == n * whole + part,
                    next == quotient + whole + carried,
                    rest == remainder + part - carried * n,
            ;
            assert((i + 1) * u128::MAX <= n * u128::MAX) by (nonlinear_arith)
                requires
                    i + 1 <= n,
            ;
            lemma_quotient_of_parts(
                total,
                n as int,
                next,
                rest,
                u128::MAX as int,
            );
        }
        quotient = quotient + whole + carried;
        remainder = remainder + part - carried * n;
        i = i + 1;
    }
    proof {
        let model = results.deep_view();
        assert(model.take(i as int) =~= model);
        vstd::arithmetic::div_mod::lemma_fundamental_div_mod_converse(
            total_duration(model) as int,
            n as int,
            quotient as int,
            remainder as int,
        );
    }
    quotient
}

/// Computes the truncated percentage of failed outcomes in `results`.
pub fn failure_rate(results: &[TestStatus]) -> (percentage: usize)
    requires
        results.len() > 0,
    ensures
        percentage == failure_percentage(results.deep_view()),
        percentage <= 100,
{
    let failed = count_failures(results);
    let total = results.len();
    proof {
        lemma_failure_count_bounded(results.deep_view());
        lemma_percentage_bounded(failed as nat, total as nat);
    }
    let scaled: u128 = (failed as u128) * 100;
    (scaled / (total as u128)) as usize
}

/// A share of a non-empty whole is at most one hundred percent.
proof fn lemma_percentage_bounded(part: nat, whole: nat)
    requires
        part <= whole,
        0 < whole,
    ensures
        part * 100 / whole <= 100,
{
    vstd::arithmetic::div_mod::lemma_div_is_ordered(
        (part * 100) as int,
        (whole * 100) as int,
        whole as int,
    );
    vstd::arithmetic::div_mod::lemma_div_multiples_vanish(100, whole as int);
}

/// Model of a [`FileReport`].
pub struct Summary {
    pub test_file: Seq<char>,
    pub avg_duration: nat,
    pub failure_percentage: nat,
}

/// What is reported of one file: its name, the mean duration of its
/// invocations in milliseconds, and the percentage of them that failed.
#[derive(Debug, Clone, PartialEq, Eq)]
pub struct FileReport {
    pub test_file: String,
    pub avg_duration: u128,
    pub failure_percentage: usize,
}

impl View for FileReport {
    type V = Summary;

    open spec fn view(&self) -> Summary {
        Summary {
            test_file: self.test_file@,
            avg_duration: self.avg_duration as nat,
            failure_percentage: self.failure_percentage as nat,
        }
    }
}

impl Summary {
    /// A file counts as stable exactly when its failure percentage is zero.
    pub open spec fn is_success(self) -> bool {
        self.failure_percentage == 0
    }
}

impl FileReport {
    /// Whether the file counts as stable: its failure percentage is zero.
    pub fn is_success(&self) -> (success: bool)
        ensures
            success == self@.is_success(),
    {
        self.failure_percentage == 0
    }
}

/// The summary of a non-empty sequence of outcomes. The file is named after
/// the first outcome.
pub open spec fn summary_of(outcomes: Seq<TimedOutcome>) -> Summary
    recommends
        outcomes.len() > 0,
{
    Summary {
        test_file: outcomes[0].test_file,
        avg_duration: average_duration(outcomes),
        failure_percentage: failure_percentage(outcomes),
    }
}

/// Summarises the outcomes of one file.
pub fn report_results(results: &[TestStatus]) -> (report: FileReport)
    requires
        results.len() > 0,
    ensures
        report@ == summary_of(results.deep_view()),
        report@.failure_percentage <= 100,
{
    FileReport {
        test_file: results[0].test_file.clone(),
        avg_duration: mean_duration(results),
        failure_percentage: failure_rate(results),
    }
}

/// Every outcome in the sequence is a failure.
pub open spec fn all_failed(outcomes: Seq<TimedOutcome>) -> bool {
    forall|i: int| 0 <= i < outcomes.len() ==> (#[trigger] outcomes[i]).outcome is Failed
}

/// Every outcome in the sequence is a pass.
pub open spec fn all_passed(outcomes: Seq<TimedOutcome>) -> bool {
    forall|i: int| 0 <= i < outcomes.len() ==> (#[trigger] outcomes[i]).outcome is Passed
}

/// Where every invocation failed, the failure count is the number of
/// invocations; where every invocation passed, it is zero.
pub proof fn lemma_uniform_failure_count(outcomes: Seq<TimedOutcome>)
    ensures
        all_failed(outcomes) ==> failure_count(outcomes) == outcomes.len(),
        all_passed(outcomes) ==> failure_count(outcomes) == 0,
    decreases outcomes.len(),
{
    if outcomes.len() > 0 {
        let front = outcomes.drop_last();
        lemma_uniform_failure_count(front);
        assert(outcomes.last() == outcomes[outcomes.len() - 1]);
        if all_failed(outcomes) {
            assert forall|i: int| 0 <= i < front.len() implies (#[trigger] front[i]).outcome
                is Failed by {
                assert(front[i] == outcomes[i]);
            }
        }
        if all_passed(outcomes) {
            assert forall|i: int| 0 <= i < front.len() implies (#[trigger] front[i]).outcome
                is Passed by {
                assert(front[i] == outcomes[i]);
            }
        }
    }
}

/// A file whose invocations all failed has a failure percentage of one
/// hundred, whatever the number of invocations, and does not count as
/// stable.
pub proof fn lemma_all_failed_is_hundred_percent(outcomes: Seq<TimedOutcome>)
    requires
        outcomes.len() >= 1,
        all_failed(outcomes),
    ensures
        failure_percentage(outcomes) == 100,
        !summary_of(outcomes).is_success(),
{
    lemma_uniform_failure_count(outcomes);
    vstd::arithmetic::div_mod::lemma_div_multiples_vanish(100, outcomes.len() as int);
}

/// A file whose invocations all passed has a failure percentage of zero and
/// counts as stable.
pub proof fn lemma_all_passed_is_zero_percent(outcomes: Seq<TimedOutcome>)
    requires
        outcomes.len() >= 1,
        all_passed(outcomes),
    ensures
        failure_percentage(outcomes) == 0,
        summary_of(outcomes).is_success(),
{
    lemma_uniform_failure_count(outcomes);
}

/// The failure percentage of `r` invocations of which `k` failed is
/// `k * 100 / r` rounded down, and it never falls when `k` grows: of two
/// files with the same number of invocations, the one with at least as many
/// failures has at least as high a percentage.
pub proof fn lemma_failure_percentage_monotonic(fewer: Seq<TimedOutcome>, more: Seq<TimedOutcome>)
    requires
        fewer.len() == more.len(),
        fewer.len() >= 1,
        failure_count(fewer) <= failure_count(more),
    ensures
        failure_percentage(fewer) == failure_count(fewer) * 100 / fewer.len(),
        failure_percentage(more) == failure_count(more) * 100 / more.len(),
        failure_percentage(fewer) <= failure_percentage(more),
{
    vstd::arithmetic::div_mod::lemma_div_is_ordered(
        (failure_count(fewer) * 100) as int,
        (failure_count(more) * 100) as int,
        fewer.len() as int,
    );
}

} // verus!
