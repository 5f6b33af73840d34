//! fterm: SSH/SCP session helpers with verified argument, output and state handling.

pub mod command;
pub mod error;
pub mod external;
pub mod logging;
pub mod text;
pub mod tmux;
pub mod util;
pub mod validate;
