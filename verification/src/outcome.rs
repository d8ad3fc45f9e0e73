//! The outcome of one invocation of the test command, and its model.

use vstd::prelude::*;
use vstd::utf8::{decode_utf8, valid_utf8};

verus! {

/// Model of a [`TestResult`]: what one invocation ended in.
pub enum Outcome {
    Passed,
    Failed { stdout: Seq<char>, stderr: Seq<char> },
}

/// Model of a [`TestStatus`]: an outcome with the file it belongs to and the
/// time it took, in milliseconds.
pub struct TimedOutcome {
    pub test_file: Seq<char>,
    pub duration: nat,
    pub outcome: Outcome,
}

/// What one invocation of the test command ended in. A failed invocation
/// keeps what the process wrote to its two output streams.
#[derive(Debug, Clone, PartialEq, Eq)]
pub enum TestResult {
    Passed,
    Failed { stdout: String, stderr: String },
}

/// One invocation of the test command: the file it ran for, how long it took
/// in milliseconds, and how it ended.
#[derive(Debug, Clone, PartialEq, Eq)]
pub struct TestStatus {
    pub test_file: String,
    pub duration: u128,
    pub result: TestResult,
}

impl View for TestResult {
    type V = Outcome;

    open spec fn view(&self) -> Outcome {
        match self {
            TestResult::Passed => Outcome::Passed,
            TestResult::Failed { stdout, stderr } => Outcome::Failed {
                stdout: stdout@,
                stderr: stderr@,
            },
        }
    }
}

impl View for TestStatus {
    type V = TimedOutcome;

    open spec fn view(&self) -> TimedOutcome {
        TimedOutcome {
            test_file: self.test_file@,
            duration: self.duration as nat,
            outcome: self.result@,
        }
    }
}

impl DeepView for TestStatus {
    type V = TimedOutcome;

    open spec fn deep_view(&self) -> TimedOutcome {
        self@
    }
}

/// The text that `String::from_utf8_lossy` makes of `bytes`: every invalid
/// sequence in them stands as U+FFFD.
pub uninterp spec fn lossy_text(bytes: Seq<u8>) -> Seq<char>;

/// Decodes `bytes` with `String::from_utf8_lossy`. The text depends on the
/// bytes alone; bytes that are valid UTF-8 come back as the text they
/// encode. Trusted, not proved.
#[verifier::external_body]
fn decode_lossy(bytes: &[u8]) -> (text: String)
    ensures
        text@ == lossy_text(bytes@),
        valid_utf8(bytes@) ==> text@ == decode_utf8(bytes@),
{
    String::from_utf8_lossy(bytes).into_owned()
}

/// What a finished process left behind: whether its exit status reports
/// success, the bytes it wrote to its two output streams, and the time from
/// just before its launch to just after its end, in milliseconds.
#[derive(Debug, Clone, PartialEq, Eq)]
pub struct Execution {
    pub success: bool,
    pub stdout: Vec<u8>,
    pub stderr: Vec<u8>,
    pub duration: u128,
}

/// The outcome of a process with the given exit status and captured text.
/// The text of a successful process is dropped.
pub open spec fn outcome_of(success: bool, stdout: Seq<char>, stderr: Seq<char>) -> Outcome {
    if success {
        Outcome::Passed
    } else {
        Outcome::Failed { stdout, stderr }
    }
}

impl Execution {
    /// The outcome that this execution stands for.
    pub open spec fn outcome(&self) -> Outcome {
        outcome_of(self.success, lossy_text(self.stdout@), lossy_text(self.stderr@))
    }

    /// Whether the outcome of this execution, where it failed, holds the
    /// text that its output encodes wherever that output is valid UTF-8.
    pub open spec fn keeps_valid_text(&self) -> bool {
        &&& !self.success && valid_utf8(self.stdout@) ==> self.outcome()->stdout == decode_utf8(
            self.stdout@,
        )
        &&& !self.success && valid_utf8(self.stderr@) ==> self.outcome()->stderr == decode_utf8(
            self.stderr@,
        )
    }

    /// The timed outcome that this execution stands for when it ran for
    /// `test_file`.
    pub open spec fn timed(&self, test_file: Seq<char>) -> TimedOutcome {
        TimedOutcome { test_file, duration: self.duration as nat, outcome: self.outcome() }
    }
}

impl TestResult {
    /// The result of a process with the given exit status and captured
    /// text: passed on success, failed with the text otherwise.
    pub fn from_exit(success: bool, stdout: String, stderr: String) -> (result: TestResult)
        ensures
            result@ == outcome_of(success, stdout@, stderr@),
    {
        if success {
            TestResult::Passed
        } else {
            TestResult::Failed { stdout, stderr }
        }
    }

    /// The result that `execution` stands for. The output of a failed
    /// process is decoded as text, invalid bytes replaced; output that is
    /// valid UTF-8 is kept as the text that it encodes.
    pub fn from_execution(execution: &Execution) -> (result: TestResult)
        ensures
            result@ == execution.outcome(),
            !execution.success && valid_utf8(execution.stdout@) ==> result@->stdout
                == decode_utf8(execution.stdout@),
            !execution.success && valid_utf8(execution.stderr@) ==> result@->stderr
                == decode_utf8(execution.stderr@),
    {
        if execution.success {
            TestResult::Passed
        } else {
            let stdout = decode_lossy(execution.stdout.as_slice());
            let stderr = decode_lossy(execution.stderr.as_slice());
            TestResult::from_exit(false, stdout, stderr)
        }
    }

    /// Whether the invocation failed.
    pub fn is_failed(&self) -> (failed: bool)
        ensures
            failed == (self@ is Failed),
    {
        match self {
            TestResult::Passed => false,
            TestResult::Failed { .. } => true,
        }
    }
}

impl TestStatus {
    /// The status of one invocation for `test_file` that ended as
    /// `execution` says. Output of a failed process that is valid UTF-8 is
    /// kept as the text that it encodes.
    pub fn from_execution(test_file: &str, execution: &Execution) -> (status: TestStatus)
        ensures
            status@ == execution.timed(test_file@),
            !execution.success && valid_utf8(execution.stdout@) ==> status@.outcome->stdout
                == decode_utf8(execution.stdout@),
            !execution.success && valid_utf8(execution.stderr@) ==> status@.outcome->stderr
                == decode_utf8(execution.stderr@),
    {
        TestStatus {
            test_file: test_file.to_owned(),
            duration: execution.duration,
            result: TestResult::from_execution(execution),
        }
    }
}

} // verus!
