//! Subcommands: running them, and the SCP wrapper's log naming.

pub mod scp;
pub mod subcommand;
