use deflake::driver::RunError;
use deflake::outcome::{TestResult, TestStatus};
use deflake::report::FileReport;
use deflake::run::{exit_code, is_failure, report_file, summarize, RunSummary};

fn status(file: &str, failed: bool, duration: u128) -> TestStatus {
    let result = if failed {
        TestResult::Failed { stdout: String::new(), stderr: String::new() }
    } else {
        TestResult::Passed
    };
    TestStatus { test_file: file.to_string(), duration, result }
}

fn report(file: &str, failure_percentage: usize) -> Result<FileReport, RunError> {
    Ok(FileReport { test_file: file.to_string(), avg_duration: 1, failure_percentage })
}

#[test]
fn report_file_summarises_the_outcomes() {
    let run = Ok(vec![status("a", false, 10), status("a", true, 20), status("a", true, 30)]);
    assert_eq!(
        report_file(&run),
        Ok(FileReport { test_file: "a".to_string(), avg_duration: 20, failure_percentage: 66 })
    );
}

#[test]
fn report_file_hands_the_error_on() {
    assert_eq!(report_file(&Err(RunError::LaunchFailed)), Err(RunError::LaunchFailed));
    assert_eq!(report_file(&Err(RunError::EmptyCommand)), Err(RunError::EmptyCommand));
}

#[test]
fn is_failure_of_reports_and_errors() {
    assert!(!is_failure(&report("a", 0)));
    assert!(is_failure(&report("a", 1)));
    assert!(is_failure(&report("a", 100)));
    assert!(is_failure(&Err(RunError::LaunchFailed)));
    assert!(is_failure(&Err(RunError::EmptyCommand)));
}

#[test]
fn summarize_without_files_is_a_success() {
    let summary = summarize(&[], 12);
    assert_eq!(summary, RunSummary { files_analyzed: 0, elapsed_ms: 12, success: true });
    assert_eq!(exit_code(&summary), 0);
}

#[test]
fn summarize_of_stable_files_is_a_success() {
    let summary = summarize(&[report("a", 0), report("b", 0), report("c", 0)], 345);
    assert_eq!(summary, RunSummary { files_analyzed: 3, elapsed_ms: 345, success: true });
    assert_eq!(exit_code(&summary), 0);
}

#[test]
fn summarize_with_one_failing_file_is_a_failure() {
    for position in 0..3 {
        let mut results = vec![report("a", 0), report("b", 0), report("c", 0)];
        results[position] = report("x", 1);
        let summary = summarize(&results, 1);
        assert_eq!(summary.files_analyzed, 3);
        assert!(!summary.success);
        assert_eq!(exit_code(&summary), 1);
    }
}

#[test]
fn summarize_with_a_launch_error_is_a_failure() {
    let summary = summarize(&[report("a", 0), Err(RunError::LaunchFailed)], 1);
    assert_eq!(summary, RunSummary { files_analyzed: 2, elapsed_ms: 1, success: false });
    assert_eq!(exit_code(&summary), 1);
    let summary = summarize(&[Err(RunError::EmptyCommand)], 1);
    assert!(!summary.success);
}

#[test]
fn exit_code_is_zero_for_success_and_one_for_failure() {
    assert_eq!(exit_code(&RunSummary { files_analyzed: 9, elapsed_ms: 9, success: true }), 0);
    assert_eq!(exit_code(&RunSummary { files_analyzed: 0, elapsed_ms: 0, success: false }), 1);
}
