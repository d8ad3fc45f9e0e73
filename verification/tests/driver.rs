use deflake::command::Invocation;
use deflake::driver::{Event, Progress, Repetition, RunError};
use deflake::outcome::{Execution, TestResult, TestStatus};

fn exited(success: bool, duration: u128) -> Event {
    Event::Exited(Execution { success, stdout: b"out".to_vec(), stderr: b"err".to_vec(), duration })
}

fn waiting(progress: Progress) -> Repetition {
    match progress {
        Progress::Launch(state) => state,
        Progress::Finished(run) => panic!("the run has ended: {:?}", run),
    }
}

fn finished(progress: Progress) -> Result<Vec<TestStatus>, RunError> {
    match progress {
        Progress::Finished(run) => run,
        Progress::Launch(state) => panic!("a launch is due: {:?}", state),
    }
}

#[test]
fn begin_asks_for_a_launch() {
    let state = waiting(Repetition::begin("run {}", "a.test", 3));
    assert_eq!(state.test_file(), "a.test");
    assert_eq!(state.remaining(), 3);
    assert_eq!(
        state.invocation(),
        &Invocation { binary: "run".to_string(), args: vec!["a.test".to_string()] }
    );
}

#[test]
fn begin_with_a_command_without_words_ends_the_run() {
    assert_eq!(finished(Repetition::begin("", "a.test", 3)), Err(RunError::EmptyCommand));
    assert_eq!(finished(Repetition::begin("  ", "a.test", 1)), Err(RunError::EmptyCommand));
    assert_eq!(finished(Repetition::begin("{}", "", 10)), Err(RunError::EmptyCommand));
    assert_eq!(finished(Repetition::begin("", "a.test", 0)), Err(RunError::EmptyCommand));
}

#[test]
fn begin_with_no_repetitions_ends_with_no_outcomes() {
    assert_eq!(finished(Repetition::begin("run {}", "a.test", 0)), Ok(vec![]));
}

#[test]
fn step_records_the_execution_and_asks_for_the_next_launch() {
    let state = waiting(Repetition::begin("run {}", "a.test", 2));
    let state = waiting(state.step(exited(true, 5)));
    assert_eq!(state.remaining(), 1);
    let outcomes = finished(state.step(exited(false, 7))).unwrap();
    assert_eq!(
        outcomes,
        vec![
            TestStatus { test_file: "a.test".to_string(), duration: 5, result: TestResult::Passed },
            TestStatus {
                test_file: "a.test".to_string(),
                duration: 7,
                result: TestResult::Failed { stdout: "out".to_string(), stderr: "err".to_string() },
            },
        ]
    );
}

#[test]
fn a_run_of_r_repetitions_takes_r_executions() {
    for repeat in 1..=20usize {
        let mut progress = Repetition::begin("false", "a.test", repeat);
        let mut launches = 0;
        let outcomes = loop {
            match progress {
                Progress::Launch(state) => {
                    assert_eq!(state.remaining(), repeat - launches);
                    launches += 1;
                    progress = state.step(exited(false, 1));
                }
                Progress::Finished(run) => break run.unwrap(),
            }
        };
        assert_eq!(launches, repeat);
        assert_eq!(outcomes.len(), repeat);
        assert!(outcomes.iter().all(|status| status.result.is_failed()));
    }
}

#[test]
fn a_failure_does_not_end_the_run() {
    let state = waiting(Repetition::begin("run {}", "a.test", 3));
    let state = waiting(state.step(exited(false, 1)));
    let state = waiting(state.step(exited(true, 2)));
    let outcomes = finished(state.step(exited(true, 3))).unwrap();
    let failed: Vec<bool> = outcomes.iter().map(|status| status.result.is_failed()).collect();
    assert_eq!(failed, vec![true, false, false]);
    let durations: Vec<u128> = outcomes.iter().map(|status| status.duration).collect();
    assert_eq!(durations, vec![1, 2, 3]);
}

#[test]
fn the_command_is_the_same_at_every_repetition() {
    let mut state = waiting(Repetition::begin("sh {} --flag", "tests/a.sh", 4));
    let first = state.invocation().clone();
    assert_eq!(first.binary, "sh");
    assert_eq!(first.args, vec!["tests/a.sh".to_string(), "--flag".to_string()]);
    for success in [false, true, false] {
        state = waiting(state.step(exited(success, 1)));
        assert_eq!(state.invocation(), &first);
        assert_eq!(state.test_file(), "tests/a.sh");
    }
}

#[test]
fn every_outcome_carries_the_file_of_the_run() {
    let mut progress = Repetition::begin("run {}", "tests/b.rs", 5);
    let outcomes = loop {
        match progress {
            Progress::Launch(state) => progress = state.step(exited(true, 1)),
            Progress::Finished(run) => break run.unwrap(),
        }
    };
    assert_eq!(outcomes.len(), 5);
    assert!(outcomes.iter().all(|status| status.test_file == "tests/b.rs"));
}

#[test]
fn a_refused_launch_ends_the_run_with_an_error() {
    let state = waiting(Repetition::begin("missing-program {}", "a.test", 3));
    assert_eq!(finished(state.step(Event::LaunchFailed)), Err(RunError::LaunchFailed));
}

#[test]
fn a_refused_launch_is_not_counted_as_an_outcome() {
    let state = waiting(Repetition::begin("run {}", "a.test", 3));
    let state = waiting(state.step(exited(true, 1)));
    let state = waiting(state.step(exited(false, 1)));
    assert_eq!(finished(state.step(Event::LaunchFailed)), Err(RunError::LaunchFailed));
}
