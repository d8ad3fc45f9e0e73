//! The repetitions of one test file, as a state machine.
//!
//! The command of a file is run a fixed number of times, one run after the
//! other. The machine never starts a process itself: it says when a launch
//! is due, the caller launches the command and reports what happened, and
//! the machine records it. Every repetition runs, whether earlier ones
//! failed or not; only a launch that the system refuses ends the run early.

use vstd::prelude::*;
use crate::command::{command_line, prepare, CommandLine, Invocation};
use crate::outcome::{Execution, TestStatus, TimedOutcome};

verus! {

/// Why the run of a file ended without its outcomes.
#[derive(Debug, Clone, Copy, PartialEq, Eq)]
pub enum RunError {
    /// The instantiated command holds no word, so nothing was launched.
    EmptyCommand,
    /// The system could not start the program.
    LaunchFailed,
}

/// What the caller reports after a launch that was due.
#[derive(Debug, Clone, PartialEq, Eq)]
pub enum Event {
    /// The process ran and ended.
    Exited(Execution),
    /// The process could not be started.
    LaunchFailed,
}

/// Model of a [`Repetition`]: a run that waits for the result of a launch.
pub struct Pending {
    pub test_file: Seq<char>,
    pub command: CommandLine,
    pub repeat: nat,
    pub outcomes: Seq<TimedOutcome>,
}

/// Model of a [`Progress`]: where the run of one file stands.
pub enum Stage {
    /// A launch is due.
    Launch(Pending),
    /// Every repetition has run; these are the outcomes, in order.
    Completed(Seq<TimedOutcome>),
    /// The run ended early.
    Aborted(RunError),
}

/// Every outcome in the sequence belongs to `test_file`.
pub open spec fn same_file(outcomes: Seq<TimedOutcome>, test_file: Seq<char>) -> bool {
    forall|i: int| 0 <= i < outcomes.len() ==> (#[trigger] outcomes[i]).test_file == test_file
}

impl Pending {
    /// Fewer outcomes are recorded than repetitions are asked for, and all
    /// of them belong to the file of the run.
    pub open spec fn wf(self) -> bool {
        &&& self.outcomes.len() < self.repeat
        &&& same_file(self.outcomes, self.test_file)
    }

    /// Where the run stands once `outcomes` are recorded: complete when
    /// there are as many as repetitions were asked for, waiting for the next
    /// launch otherwise.
    pub open spec fn with_outcomes(self, outcomes: Seq<TimedOutcome>) -> Stage {
        if outcomes.len() >= self.repeat {
            Stage::Completed(outcomes)
        } else {
            Stage::Launch(Pending { outcomes, ..self })
        }
    }

    /// Where the run stands after `event`. An execution is recorded behind
    /// the earlier ones, whether it passed or failed; a refused launch ends
    /// the run.
    pub open spec fn after(self, event: Event) -> Stage {
        match event {
            Event::Exited(execution) => self.with_outcomes(
                self.outcomes.push(execution.timed(self.test_file)),
            ),
            Event::LaunchFailed => Stage::Aborted(RunError::LaunchFailed),
        }
    }
}

/// Where the run of `test_file` stands before anything is launched. A
/// template that gives no command ends it at once.
pub open spec fn initial_stage(template: Seq<char>, test_file: Seq<char>, repeat: nat) -> Stage {
    match command_line(template, test_file) {
        Some(command) => Pending { test_file, command, repeat, outcomes: Seq::empty() }.with_outcomes(
            Seq::empty(),
        ),
        None => Stage::Aborted(RunError::EmptyCommand),
    }
}

impl Stage {
    /// Where the run stands after the events of `events`, taken in order.
    /// Events that arrive after the run has ended change nothing.
    pub open spec fn after_all(self, events: Seq<Event>) -> Stage
        decreases events.len(),
    {
        if events.len() == 0 {
            self
        } else {
            match self {
                Stage::Launch(pending) => pending.after(events[0]).after_all(events.skip(1)),
                _ => self,
            }
        }
    }
}

/// Every event in the sequence is a finished execution.
pub open spec fn all_exited(events: Seq<Event>) -> bool {
    forall|i: int| 0 <= i < events.len() ==> #[trigger] events[i] is Exited
}

/// The outcomes that the executions in `events` stand for when they ran for
/// `test_file`, in the order of the events.
pub open spec fn recorded(events: Seq<Event>, test_file: Seq<char>) -> Seq<TimedOutcome> {
    Seq::new(events.len(), |i: int| events[i]->Exited_0.timed(test_file))
}

/// Taking events one part after the other is taking them all.
pub proof fn lemma_after_all_split(stage: Stage, first: Seq<Event>, second: Seq<Event>)
    ensures
        stage.after_all(first + second) == stage.after_all(first).after_all(second),
    decreases first.len(),
{
    let events = first + second;
    if first.len() == 0 {
        assert(events =~= second);
    } else {
        assert(events[0] == first[0]);
        assert(events.skip(1) =~= first.skip(1) + second);
        match stage {
            Stage::Launch(pending) => {
                lemma_after_all_split(pending.after(first[0]), first.skip(1), second);
            },
            _ => {
                lemma_after_all_ended(stage, second);
            },
        }
    }
}

/// A run that has ended stays as it is.
pub proof fn lemma_after_all_ended(stage: Stage, events: Seq<Event>)
    requires
        !(stage is Launch),
    ensures
        stage.after_all(events) == stage,
{
}

/// While executions come in and repetitions are left, each execution is
/// recorded behind the earlier ones and nothing else changes.
pub proof fn lemma_after_executions(pending: Pending, events: Seq<Event>)
    requires
        pending.outcomes.len() < pending.repeat,
        pending.outcomes.len() + events.len() <= pending.repeat,
        all_exited(events),
    ensures
        Stage::Launch(pending).after_all(events) == pending.with_outcomes(
            pending.outcomes + recorded(events, pending.test_file),
        ),
    decreases events.len(),
{
    let file = pending.test_file;
    if events.len() == 0 {
        assert(pending.outcomes + recorded(events, file) =~= pending.outcomes);
    } else {
        let first = events[0]->Exited_0.timed(file);
        let rest = events.skip(1);
        let grown = pending.outcomes.push(first);
        assert(events[0] is Exited);
        assert(all_exited(rest)) by {
            assert forall|i: int| 0 <= i < rest.len() implies #[trigger] rest[i] is Exited by {
                assert(rest[i] == events[i + 1]);
            }
        }
        assert(grown + recorded(rest, file) =~= pending.outcomes + recorded(events, file));
        match pending.after(events[0]) {
            Stage::Launch(next) => {
                lemma_after_executions(next, rest);
            },
            _ => {
                assert(rest.len() == 0);
                assert(grown + recorded(rest, file) =~= grown);
            },
        }
    }
}

/// A run whose command can be made and whose launches all succeed ends
/// after exactly `repeat` executions, with one outcome for each of them, in
/// their order and under the name of the file, whichever of them failed.
pub proof fn lemma_run_records_every_repetition(
    template: Seq<char>,
    test_file: Seq<char>,
    repeat: nat,
    events: Seq<Event>,
)
    requires
        command_line(template, test_file) is Some,
        events.len() == repeat,
        all_exited(events),
    ensures
        initial_stage(template, test_file, repeat).after_all(events) == Stage::Completed(
            recorded(events, test_file),
        ),
        recorded(events, test_file).len() == repeat,
        same_file(recorded(events, test_file), test_file),
{
    let command = command_line(template, test_file)->0;
    let pending = Pending { test_file, command, repeat, outcomes: Seq::empty() };
    if repeat > 0 {
        lemma_after_executions(pending, events);
        assert(pending.outcomes + recorded(events, test_file) =~= recorded(events, test_file));
    } else {
        assert(recorded(events, test_file) =~= Seq::<TimedOutcome>::empty());
    }
}

/// Before `repeat` executions have come in, a launch is due, and the
/// command to launch is the one that the template stands for: no outcome
/// changes what runs next.
pub proof fn lemma_run_launches_same_command(
    template: Seq<char>,
    test_file: Seq<char>,
    repeat: nat,
    events: Seq<Event>,
)
    requires
        command_line(template, test_file) is Some,
        events.len() < repeat,
        all_exited(events),
    ensures
        initial_stage(template, test_file, repeat).after_all(events) == Stage::Launch(
            Pending {
                test_file,
                command: command_line(template, test_file)->0,
                repeat,
                outcomes: recorded(events, test_file),
            },
        ),
{
    let command = command_line(template, test_file)->0;
    let pending = Pending { test_file, command, repeat, outcomes: Seq::empty() };
    lemma_after_executions(pending, events);
    assert(pending.outcomes + recorded(events, test_file) =~= recorded(events, test_file));
}

/// A launch that the system refuses ends the run with an error, whatever
/// was recorded before and whatever is reported after: it is never counted
/// as an outcome.
pub proof fn lemma_refused_launch_aborts(
    template: Seq<char>,
    test_file: Seq<char>,
    repeat: nat,
    events: Seq<Event>,
    refused: int,
)
    requires
        command_line(template, test_file) is Some,
        0 <= refused < events.len(),
        refused < repeat,
        all_exited(events.take(refused)),
        events[refused] is LaunchFailed,
    ensures
        initial_stage(template, test_file, repeat).after_all(events) == Stage::Aborted(
            RunError::LaunchFailed,
        ),
{
    let start = initial_stage(template, test_file, repeat);
    let before = events.take(refused);
    let from = events.skip(refused);
    assert(events =~= before + from);
    lemma_after_all_split(start, before, from);
    lemma_run_launches_same_command(template, test_file, repeat, before);
    let waiting = start.after_all(before);
    assert(from[0] == events[refused]);
    assert(waiting.after_all(from) == Stage::Aborted(RunError::LaunchFailed).after_all(
        from.skip(1),
    ));
    lemma_after_all_ended(Stage::Aborted(RunError::LaunchFailed), from.skip(1));
}

/// The run of one test file while a launch is due.
#[derive(Debug)]
pub struct Repetition {
    test_file: String,
    invocation: Invocation,
    repeat: usize,
    outcomes: Vec<TestStatus>,
}

/// Where the run of one test file stands.
#[derive(Debug)]
pub enum Progress {
    /// A launch is due: the caller runs the invocation of the state once
    /// and hands what happened to [`Repetition::step`].
    Launch(Repetition),
    /// The run has ended, with the outcomes of all repetitions or with the
    /// reason why there are none.
    Finished(Result<Vec<TestStatus>, RunError>),
}

impl View for Repetition {
    type V = Pending;

    closed spec fn view(&self) -> Pending {
        Pending {
            test_file: self.test_file@,
            command: self.invocation@,
            repeat: self.repeat as nat,
            outcomes: self.outcomes.deep_view(),
        }
    }
}

impl View for Progress {
    type V = Stage;

    open spec fn view(&self) -> Stage {
        match self {
            Progress::Launch(state) => Stage::Launch(state@),
            Progress::Finished(Ok(outcomes)) => Stage::Completed(outcomes.deep_view()),
            Progress::Finished(Err(error)) => Stage::Aborted(*error),
        }
    }
}

impl Repetition {
    #[verifier::type_invariant]
    spec fn inv(self) -> bool {
        self@.wf()
    }

    /// Starts the run of `test_file`: `repeat` repetitions of the command
    /// that `test_command` stands for.
    pub fn begin(test_command: &str, test_file: &str, repeat: usize) -> (progress: Progress)
        ensures
            progress@ == initial_stage(test_command@, test_file@, repeat as nat),
    {
        match prepare(test_command, test_file) {
            Err(_) => Progress::Finished(Err(RunError::EmptyCommand)),
            Ok(invocation) => {
                let outcomes: Vec<TestStatus> = Vec::new();
                proof {
                    assert(outcomes.deep_view() =~= Seq::<TimedOutcome>::empty());
                }
                if repeat == 0 {
                    Progress::Finished(Ok(outcomes))
                } else {
                    Progress::Launch(
                        Repetition { test_file: test_file.to_owned(), invocation, repeat, outcomes },
                    )
                }
            },
        }
    }

    /// The command to launch now. It is the same at every repetition.
    pub fn invocation(&self) -> (invocation: &Invocation)
        ensures
            invocation@ == self@.command,
    {
        &self.invocation
    }

    /// The number of repetitions that are still to run, the one that is due
    /// included.
    pub fn remaining(&self) -> (remaining: usize)
        ensures
            self@.wf(),
            remaining == self@.repeat - self@.outcomes.len(),
            remaining >= 1,
    {
        proof {
            use_type_invariant(self);
        }
        self.repeat - self.outcomes.len()
    }

    /// The file that this run is about.
    pub fn test_file(&self) -> (test_file: &str)
        ensures
            test_file@ == self@.test_file,
    {
        self.test_file.as_str()
    }

    /// Takes what happened at the launch that was due and says where the
    /// run stands now. Of a failed execution, output that is valid UTF-8 is
    /// recorded as the text that it encodes.
    pub fn step(self, event: Event) -> (progress: Progress)
        ensures
            progress@ == self@.after(event),
            progress@ matches Stage::Launch(next) ==> next.wf(),
            progress@ matches Stage::Completed(outcomes) ==> outcomes.len() == self@.repeat
                && same_file(outcomes, self@.test_file),
            event matches Event::Exited(execution) ==> execution.keeps_valid_text(),
    {
        proof {
            use_type_invariant(&self);
        }
        match event {
            Event::LaunchFailed => Progress::Finished(Err(RunError::LaunchFailed)),
            Event::Exited(execution) => {
                let Repetition { test_file, invocation, repeat, mut outcomes } = self;
                let ghost before = outcomes.deep_view();
                let status = TestStatus::from_execution(test_file.as_str(), &execution);
                outcomes.push(status);
                proof {
                    assert(outcomes.deep_view() =~= before.push(execution.timed(test_file@)));
                }
                if outcomes.len() >= repeat {
                    Progress::Finished(Ok(outcomes))
                } else {
                    Progress::Launch(Repetition { test_file, invocation, repeat, outcomes })
                }
            },
        }
    }
}

} // verus!
