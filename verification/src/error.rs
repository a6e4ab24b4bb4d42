//! The library's error type.
use vstd::prelude::*;

use crate::command::{CommandOutput, RunError};

verus! {

/// Why an operation of the library failed.
#[derive(Debug)]
pub enum Error {
    /// The runner could not execute a command.
    Run(RunError),
    /// A command ran and exited unsuccessfully; its output is kept.
    ExitFailure(CommandOutput),
    /// A pipeline of fewer than two commands was asked to run.
    PipelineTooShort,
    /// A line of `git log` output held no commit hash.
    MissingHash,
    /// A line of `git log` output held no commit date.
    MissingDate,
    /// A command printed no line where one was expected.
    EmptyOutput,
    /// The repository directory does not exist.
    RepositoryMissing,
    /// The repository's remote url is not the expected one.
    UrlMismatch,
    /// The repository is checked out at another commit than expected.
    HashMismatch,
    /// The checked out commit was not merged into the expected branch.
    BranchMismatch,
    /// After a checkout the repository is not at the requested commit.
    CheckoutFailed,
    /// A folder lacks the marker file that identifies it.
    MagicFileMissing,
    /// No file of the requested name was found.
    FileNotFound,
    /// Several files of the requested name were found; their number.
    AmbiguousFile(usize),
    /// A word that should be a number is not one.
    NotANumber,
    /// A commit hash does not have the expected length.
    InvalidHash,
    /// A date string is not a date of the expected form.
    MalformedDate,
    /// A path has no final component.
    NoFileName,
    /// The cmake configuration step exited unsuccessfully; its output.
    ConfigureFailed(CommandOutput),
    /// The cmake build step exited unsuccessfully; its output.
    BuildFailed(CommandOutput),
}

} // verus!
