//! Argument, file-name, log-content and clock utilities.

pub mod clock;
pub mod files;
pub mod log_content;
pub mod scp_args;
