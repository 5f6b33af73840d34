//! Session logging.

pub mod stop;
