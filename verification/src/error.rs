//! The error type shared by the crate's operations.

use vstd::prelude::*;

verus! {

/// Failures of the crate's operations.
#[derive(Debug, Clone)]
pub enum FtermError {
    /// The runner could not carry out a request (the command could not be started,
    /// timed out, or the runner was set up to fail), with its description.
    Runner(String),
    /// A command ran and exited with a non-zero code.
    CommandFailed {
        /// The command line, words joined by single spaces.
        command: String,
        /// The exit code it reported.
        exit_code: i32,
        /// Its standard error, trimmed.
        stderr: String,
    },
    /// A tmux option that should hold a count held other text (trimmed).
    InvalidCount(String),
}

/// The mathematical value of an [`FtermError`].
pub enum ErrorView {
    Runner(Seq<char>),
    CommandFailed { command: Seq<char>, exit_code: i32, stderr: Seq<char> },
    InvalidCount(Seq<char>),
}

impl View for FtermError {
    type V = ErrorView;

    open spec fn view(&self) -> ErrorView {
        match self {
            FtermError::Runner(m) => ErrorView::Runner(m@),
            FtermError::CommandFailed { command, exit_code, stderr } => ErrorView::CommandFailed {
                command: command@,
                exit_code: *exit_code,
                stderr: stderr@,
            },
            FtermError::InvalidCount(t) => ErrorView::InvalidCount(t@),
        }
    }
}

/// The value of a result whose error is an [`FtermError`].
pub open spec fn result_view<T: View>(r: Result<T, FtermError>) -> Result<T::V, ErrorView> {
    match r {
        Ok(v) => Ok(v@),
        Err(e) => Err(e@),
    }
}

} // verus!
