//! SSH configuration validation.

pub mod orchestrator;
