//! The lines that a run shows: notices while the files run, the report of
//! each file, and the summary of the run.
//!
//! The functions here make text and print nothing. Names and percentages
//! are coloured by `crossterm`, which puts a control sequence before and
//! behind them. Which sequences it takes rests on the settings of the
//! terminal; [`keeps_text`] lists what a coloured part can be.

use vstd::prelude::*;
use vstd::string::StringExecFns;
use crossterm::style::Stylize;
use crate::driver::RunError;
use crate::report::FileReport;
use crate::text::{decimal, push_decimal};

verus! {

/// How a part of a line is set off from the rest.
#[derive(Debug, Clone, Copy, PartialEq, Eq)]
pub enum Emphasis {
    /// For a file with failures.
    Alert,
    /// For a file without failures.
    Calm,
    /// For the name of a file in a notice.
    Notice,
}

/// `text` in red, as `Stylize::red` of `crossterm` shows it: the text
/// between the sequence that switches red on, or the bare one, and the
/// sequence that switches the colour off, or the bare one; nothing where
/// the console takes no such sequences. Trusted, not proved.
#[verifier::external_body]
fn paint_red(text: &str) -> (styled: String)
    ensures
        is_emphasized(styled@, text@, Emphasis::Alert),
{
    text.red().to_string()
}

/// `text` in green, as `Stylize::green` of `crossterm` shows it: the text
/// between the sequence that switches green on, or the bare one, and the
/// sequence that switches the colour off, or the bare one; nothing where
/// the console takes no such sequences. Trusted, not proved.
#[verifier::external_body]
fn paint_green(text: &str) -> (styled: String)
    ensures
        is_emphasized(styled@, text@, Emphasis::Calm),
{
    text.green().to_string()
}

/// `text` in yellow, as `Stylize::yellow` of `crossterm` shows it: the
/// text between the sequence that switches yellow on, or the bare one, and
/// the sequence that switches the colour off, or the bare one; nothing
/// where the console takes no such sequences. Trusted, not proved.
#[verifier::external_body]
fn paint_yellow(text: &str) -> (styled: String)
    ensures
        is_emphasized(styled@, text@, Emphasis::Notice),
{
    text.yellow().to_string()
}

/// The control sequence that switches the colour of `emphasis` on: red for
/// an alert, green for calm, yellow for a notice.
pub open spec fn colour_on(emphasis: Emphasis) -> Seq<char> {
    match emphasis {
        Emphasis::Alert => "\x1b[38;5;9m"@,
        Emphasis::Calm => "\x1b[38;5;10m"@,
        Emphasis::Notice => "\x1b[38;5;11m"@,
    }
}

/// Sets `text` off: red for an alert, green for calm, yellow for a notice.
pub fn emphasize(text: &str, emphasis: Emphasis) -> (styled: String)
    ensures
        keeps_text(styled@, text@, emphasis),
{
    let styled = match emphasis {
        Emphasis::Alert => paint_red(text),
        Emphasis::Calm => paint_green(text),
        Emphasis::Notice => paint_yellow(text),
    };
    if styled.as_str().is_empty() {
        // Nothing was made for this console: the text is shown as it is.
        text.to_owned()
    } else {
        styled
    }
}

/// The control sequence that switches the colour of the text off.
pub open spec fn colour_off() -> Seq<char> {
    "\x1b[39m"@
}

/// The control sequence that names no colour. It stands in place of the
/// other two where colours are switched off for the whole process.
pub open spec fn colour_bare() -> Seq<char> {
    "\x1b[m"@
}

/// Whether `styled` is `text` between two control sequences. Colours may be
/// switched off for the process, and the setting is read once before the
/// text and once behind it, so each of the two sequences is either the one
/// of the colour or the bare one.
pub open spec fn is_wrapped(styled: Seq<char>, text: Seq<char>, emphasis: Emphasis) -> bool {
    ||| styled == colour_on(emphasis) + text + colour_off()
    ||| styled == colour_on(emphasis) + text + colour_bare()
    ||| styled == colour_bare() + text + colour_off()
    ||| styled == colour_bare() + text + colour_bare()
}

/// Whether `styled` is what `crossterm` makes of `text` with the colour of
/// `emphasis`: the text between two control sequences, or nothing at all
/// for a console that takes no control sequences.
pub open spec fn is_emphasized(styled: Seq<char>, text: Seq<char>, emphasis: Emphasis) -> bool {
    is_wrapped(styled, text, emphasis) || styled == Seq::<char>::empty()
}

/// Whether `styled` shows `text` with `emphasis`: the text between two
/// control sequences, or the text as it is. The text is never lost.
pub open spec fn keeps_text(styled: Seq<char>, text: Seq<char>, emphasis: Emphasis) -> bool {
    is_wrapped(styled, text, emphasis) || styled == text
}

/// The emphasis of the report of a file with the given failure percentage.
pub open spec fn emphasis_of(failure_percentage: nat) -> Emphasis {
    if failure_percentage > 0 {
        Emphasis::Alert
    } else {
        Emphasis::Calm
    }
}

/// Picks the emphasis of the report of a file with the given failure
/// percentage.
pub fn pick_emphasis(failure_percentage: usize) -> (emphasis: Emphasis)
    ensures
        emphasis == emphasis_of(failure_percentage as nat),
{
    if failure_percentage > 0 {
        Emphasis::Alert
    } else {
        Emphasis::Calm
    }
}

/// The notice that the run of a file starts.
pub open spec fn start_notice(file: Seq<char>) -> Seq<char> {
    "Running tests in file: "@ + file
}

/// The notice that the run of a file has ended after `elapsed_ms`
/// milliseconds.
pub open spec fn finish_notice(file: Seq<char>, elapsed_ms: nat) -> Seq<char> {
    "Finished running tests in file: "@ + file + " in "@ + decimal(elapsed_ms) + " ms"@
}

/// The first line of the report of a file: its name and the mean duration
/// of its invocations in milliseconds.
pub open spec fn runtime_line(name: Seq<char>, avg_duration: nat) -> Seq<char> {
    "Test: "@ + name + " [avg runtime: "@ + decimal(avg_duration) + " ms]"@
}

/// A percentage as it is shown: the number and a percent sign.
pub open spec fn percent(failure_percentage: nat) -> Seq<char> {
    decimal(failure_percentage) + "%"@
}

/// The second line of the report of a file: the share of failed
/// invocations.
pub open spec fn failure_line(percentage: Seq<char>) -> Seq<char> {
    "Fail percentage: "@ + percentage
}

/// The last lines of a run: an empty one, then the number of files and the
/// time that the run took in milliseconds.
pub open spec fn summary_line(files_analyzed: nat, elapsed_ms: nat) -> Seq<char> {
    "\nAnalyzed "@ + decimal(files_analyzed) + " tests in "@ + decimal(elapsed_ms) + " ms"@
}

/// The notice that the run of a file ended without outcomes, and why.
pub open spec fn failure_notice(file: Seq<char>, error: RunError) -> Seq<char> {
    match error {
        RunError::EmptyCommand => "Cannot run tests in file: "@ + file
            + ": the test command is empty"@,
        RunError::LaunchFailed => "Cannot run tests in file: "@ + file
            + ": the test command could not be started"@,
    }
}

/// Makes the notice that the run of `styled_file` ended with `error`.
pub fn format_failure_notice(styled_file: &str, error: RunError) -> (line: String)
    ensures
        line@ == failure_notice(styled_file@, error),
{
    let mut line = String::from_str("Cannot run tests in file: ");
    line.append(styled_file);
    match error {
        RunError::EmptyCommand => line.append(": the test command is empty"),
        RunError::LaunchFailed => line.append(": the test command could not be started"),
    }
    line
}

/// Makes the notice that the run of `styled_file` starts.
pub fn format_start_notice(styled_file: &str) -> (line: String)
    ensures
        line@ == start_notice(styled_file@),
{
    let mut line = String::from_str("Running tests in file: ");
    line.append(styled_file);
    line
}

/// Makes the notice that the run of `styled_file` has ended.
pub fn format_finish_notice(styled_file: &str, elapsed_ms: u128) -> (line: String)
    ensures
        line@ == finish_notice(styled_file@, elapsed_ms as nat),
{
    let mut line = String::from_str("Finished running tests in file: ");
    line.append(styled_file);
    line.append(" in ");
    push_decimal(&mut line, elapsed_ms);
    line.append(" ms");
    line
}

/// Makes the first line of the report of a file.
pub fn format_runtime_line(styled_name: &str, avg_duration: u128) -> (line: String)
    ensures
        line@ == runtime_line(styled_name@, avg_duration as nat),
{
    let mut line = String::from_str("Test: ");
    line.append(styled_name);
    line.append(" [avg runtime: ");
    push_decimal(&mut line, avg_duration);
    line.append(" ms]");
    line
}

/// Makes the text of a percentage.
pub fn format_percent(failure_percentage: usize) -> (text: String)
    ensures
        text@ == percent(failure_percentage as nat),
{
    let mut text = String::new();
    push_decimal(&mut text, failure_percentage as u128);
    text.append("%");
    text
}

/// Makes the second line of the report of a file.
pub fn format_failure_line(styled_percentage: &str) -> (line: String)
    ensures
        line@ == failure_line(styled_percentage@),
{
    let mut line = String::from_str("Fail percentage: ");
    line.append(styled_percentage);
    line
}

/// Makes the last lines of a run.
pub fn format_summary_line(files_analyzed: usize, elapsed_ms: u128) -> (line: String)
    ensures
        line@ == summary_line(files_analyzed as nat, elapsed_ms as nat),
{
    let mut line = String::from_str("\nAnalyzed ");
    push_decimal(&mut line, files_analyzed as u128);
    line.append(" tests in ");
    push_decimal(&mut line, elapsed_ms);
    line.append(" ms");
    line
}

/// The notice that the run of `test_file` starts, the name in yellow.
pub fn render_start_notice(test_file: &str) -> (line: String)
    ensures
        exists|styled: Seq<char>|
            keeps_text(styled, test_file@, Emphasis::Notice) && line@ == start_notice(styled),
{
    let styled = emphasize(test_file, Emphasis::Notice);
    format_start_notice(styled.as_str())
}

/// The notice that the run of `test_file` has ended after `elapsed_ms`
/// milliseconds, the name in yellow.
pub fn render_finish_notice(test_file: &str, elapsed_ms: u128) -> (line: String)
    ensures
        exists|styled: Seq<char>|
            keeps_text(styled, test_file@, Emphasis::Notice) && line@ == finish_notice(
                styled,
                elapsed_ms as nat,
            ),
{
    let styled = emphasize(test_file, Emphasis::Notice);
    format_finish_notice(styled.as_str(), elapsed_ms)
}

/// The notice that the run of `test_file` ended with `error`, the name in
/// red.
pub fn render_failure_notice(test_file: &str, error: RunError) -> (line: String)
    ensures
        exists|styled: Seq<char>|
            keeps_text(styled, test_file@, Emphasis::Alert) && line@ == failure_notice(
                styled,
                error,
            ),
{
    let styled = emphasize(test_file, Emphasis::Alert);
    format_failure_notice(styled.as_str(), error)
}

/// The two lines of the report of a file. Name and percentage are red
/// where the file has failures and green where it has none.
pub fn render_report(report: &FileReport) -> (lines: (String, String))
    ensures
        exists|name: Seq<char>|
            keeps_text(name, report@.test_file, emphasis_of(report@.failure_percentage))
                && lines.0@ == runtime_line(name, report@.avg_duration),
        exists|percentage: Seq<char>|
            keeps_text(
                percentage,
                percent(report@.failure_percentage),
                emphasis_of(report@.failure_percentage),
            ) && lines.1@ == failure_line(percentage),
{
    let emphasis = pick_emphasis(report.failure_percentage);
    let name = emphasize(report.test_file.as_str(), emphasis);
    let plain = format_percent(report.failure_percentage);
    let percentage = emphasize(plain.as_str(), emphasis);
    let first = format_runtime_line(name.as_str(), report.avg_duration);
    let second = format_failure_line(percentage.as_str());
    proof {
        assert(first@ == runtime_line(name@, report@.avg_duration));
    }
    (first, second)
}

} // verus!
