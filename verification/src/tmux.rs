//! Tmux integration.

pub mod pane;
pub mod window;
