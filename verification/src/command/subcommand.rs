//! Running a subcommand to an exit code.

use vstd::prelude::*;

use crate::error::FtermError;

verus! {

/// The exit code for a subcommand's result: its code, or 1 for an error.
pub open spec fn exit_code_of(r: Result<i32, FtermError>) -> i32 {
    match r {
        Ok(code) => code,
        Err(_) => 1,
    }
}

/// Execute a subcommand and return its exit code; an error gives exit code 1.
pub fn run_subcommand<F: FnOnce() -> Result<i32, FtermError>>(f: F) -> (code: i32)
    requires
        f.requires(()),
    ensures
        exists|r: Result<i32, FtermError>| #[trigger] f.ensures((), r) && code == exit_code_of(r),
{
    let r = f();
    match r {
        Ok(code) => code,
        Err(_) => 1,
    }
}

} // verus!
