//! The whole run: what is reported of each file, and how the files add up
//! to the verdict of the run.

use vstd::prelude::*;
use crate::command::command_line;
use crate::driver::{
    all_exited,
    initial_stage,
    lemma_run_records_every_repetition,
    recorded,
    Event,
    RunError,
    Stage,
};
use crate::outcome::{TestStatus, TimedOutcome};
use crate::report::{
    all_failed,
    all_passed,
    failure_percentage,
    lemma_all_failed_is_hundred_percent,
    lemma_all_passed_is_zero_percent,
    report_results,
    summary_of,
    FileReport,
    Summary,
};

verus! {

/// Model of the way the run of one file ended.
pub open spec fn run_view(run: Result<Vec<TestStatus>, RunError>) -> Result<
    Seq<TimedOutcome>,
    RunError,
> {
    match run {
        Ok(outcomes) => Ok(outcomes.deep_view()),
        Err(error) => Err(error),
    }
}

/// Model of what is reported of one file.
pub open spec fn report_view(result: Result<FileReport, RunError>) -> Result<Summary, RunError> {
    match result {
        Ok(report) => Ok(report@),
        Err(error) => Err(error),
    }
}

/// What is reported of a file whose run ended as `run`: the summary of its
/// outcomes, or the error that ended it.
pub open spec fn file_result(run: Result<Seq<TimedOutcome>, RunError>) -> Result<
    Summary,
    RunError,
> {
    match run {
        Ok(outcomes) => Ok(summary_of(outcomes)),
        Err(error) => Err(error),
    }
}

/// Whether a file counts against the run: its run ended with an error, or
/// its failure percentage is not zero.
pub open spec fn counts_as_failure(result: Result<Summary, RunError>) -> bool {
    match result {
        Ok(summary) => !summary.is_success(),
        Err(_) => true,
    }
}

/// Model of what is reported of the files of a run, in their order.
pub open spec fn reports_view(results: Seq<Result<FileReport, RunError>>) -> Seq<
    Result<Summary, RunError>,
> {
    results.map_values(|result: Result<FileReport, RunError>| report_view(result))
}

/// Whether any of the files counts against the run.
pub open spec fn any_failures(results: Seq<Result<Summary, RunError>>) -> bool {
    exists|i: int| 0 <= i < results.len() && counts_as_failure(#[trigger] results[i])
}

/// Reports on one file from the way its run ended.
pub fn report_file(run: &Result<Vec<TestStatus>, RunError>) -> (result: Result<
    FileReport,
    RunError,
>)
    requires
        run matches Ok(outcomes) ==> outcomes.len() > 0,
    ensures
        report_view(result) == file_result(run_view(*run)),
{
    match run {
        Ok(outcomes) => Ok(report_results(outcomes.as_slice())),
        Err(error) => Err(*error),
    }
}

/// Tells whether one file counts against the run.
pub fn is_failure(result: &Result<FileReport, RunError>) -> (failure: bool)
    ensures
        failure == counts_as_failure(report_view(*result)),
{
    match result {
        Ok(report) => !report.is_success(),
        Err(_) => true,
    }
}

/// The whole run in three values: how many files were analysed, how long
/// the run took in milliseconds, and whether no file counts against it.
#[derive(Debug, Clone, Copy, PartialEq, Eq)]
pub struct RunSummary {
    pub files_analyzed: usize,
    pub elapsed_ms: u128,
    pub success: bool,
}

/// Adds the files up: the run succeeds exactly when no file counts against
/// it. A run without files succeeds.
pub fn summarize(results: &[Result<FileReport, RunError>], elapsed_ms: u128) -> (summary:
    RunSummary)
    ensures
        summary.files_analyzed == results.len(),
        summary.elapsed_ms == elapsed_ms,
        summary.success == !any_failures(reports_view(results@)),
{
    let ghost model = reports_view(results@);
    let mut failures = false;
    let mut i: usize = 0;
    while i < results.len()
        invariant
            i <= results.len(),
            model == reports_view(results@),
            failures == any_failures(model.take(i as int)),
        decreases results.len() - i,
    {
        let failed = is_failure(&results[i]);
        proof {
            let before = model.take(i as int);
            let now = model.take(i + 1);
            assert(now[i as int] == report_view(results[i as int]));
            if failures {
                let k = choose|k: int| 0 <= k < before.len() && counts_as_failure(
                    #[trigger] before[k],
                );
                assert(counts_as_failure(now[k]));
            }
            if any_failures(now) && !failed {
                let k = choose|k: int| 0 <= k < now.len() && counts_as_failure(#[trigger] now[k]);
                assert(counts_as_failure(before[k]));
            }
        }
        if failed {
            failures = true;
        }
        i = i + 1;
    }
    proof {
        assert(model.take(i as int) =~= model);
    }
    RunSummary { files_analyzed: results.len(), elapsed_ms, success: !failures }
}

/// The exit code of the run: `0` where it succeeded, `1` where a file
/// counts against it.
pub fn exit_code(summary: &RunSummary) -> (code: i32)
    ensures
        code == if summary.success { 0int } else { 1int },
{
    if summary.success {
        0
    } else {
        1
    }
}

/// Every event in the sequence is an execution whose exit status reports
/// failure.
pub open spec fn all_unsuccessful(events: Seq<Event>) -> bool {
    forall|i: int|
        0 <= i < events.len() ==> (#[trigger] events[i]) is Exited && !events[i]->Exited_0.success
}

/// Every event in the sequence is an execution whose exit status reports
/// success.
pub open spec fn all_successful(events: Seq<Event>) -> bool {
    forall|i: int|
        0 <= i < events.len() ==> (#[trigger] events[i]) is Exited && events[i]->Exited_0.success
}

/// A command that fails at every one of its `repeat` invocations, `repeat`
/// at least one, gives exactly `repeat` outcomes and a failure percentage
/// of one hundred, and the file counts against the run.
pub proof fn lemma_failing_command_is_hundred_percent(
    template: Seq<char>,
    test_file: Seq<char>,
    repeat: nat,
    events: Seq<Event>,
)
    requires
        command_line(template, test_file) is Some,
        repeat >= 1,
        events.len() == repeat,
        all_unsuccessful(events),
    ensures
        initial_stage(template, test_file, repeat).after_all(events) == Stage::Completed(
            recorded(events, test_file),
        ),
        recorded(events, test_file).len() == repeat,
        failure_percentage(recorded(events, test_file)) == 100,
        counts_as_failure(file_result(Ok(recorded(events, test_file)))),
{
    let outcomes = recorded(events, test_file);
    assert(all_exited(events));
    lemma_run_records_every_repetition(template, test_file, repeat, events);
    assert(all_failed(outcomes)) by {
        assert forall|i: int| 0 <= i < outcomes.len() implies (#[trigger] outcomes[i]).outcome
            is Failed by {
            assert(events[i] is Exited);
        }
    }
    lemma_all_failed_is_hundred_percent(outcomes);
}

/// A command that passes at every one of its `repeat` invocations, `repeat`
/// at least one, gives exactly `repeat` outcomes and a failure percentage
/// of zero, and the file does not count against the run.
pub proof fn lemma_passing_command_is_zero_percent(
    template: Seq<char>,
    test_file: Seq<char>,
    repeat: nat,
    events: Seq<Event>,
)
    requires
        command_line(template, test_file) is Some,
        repeat >= 1,
        events.len() == repeat,
        all_successful(events),
    ensures
        initial_stage(template, test_file, repeat).after_all(events) == Stage::Completed(
            recorded(events, test_file),
        ),
        recorded(events, test_file).len() == repeat,
        failure_percentage(recorded(events, test_file)) == 0,
        !counts_as_failure(file_result(Ok(recorded(events, test_file)))),
{
    let outcomes = recorded(events, test_file);
    assert(all_exited(events));
    lemma_run_records_every_repetition(template, test_file, repeat, events);
    assert(all_passed(outcomes)) by {
        assert forall|i: int| 0 <= i < outcomes.len() implies (#[trigger] outcomes[i]).outcome
            is Passed by {
            assert(events[i] is Exited);
        }
    }
    lemma_all_passed_is_zero_percent(outcomes);
}

} // verus!
