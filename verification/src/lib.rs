//! Flaky-test detection: a test command is run against each test file a fixed
//! number of times, and the failure rate and average runtime of each file are
//! reported.
//!
//! The crate holds the decisions of such a run and proves them with Verus.
//! Spawning processes, measuring time and printing are left to the caller,
//! which hands the measured values in and takes the next action out.

pub mod command;
pub mod driver;
pub mod outcome;
pub mod render;
pub mod report;
pub mod run;
pub mod text;
