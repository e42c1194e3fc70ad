//! Programs that a config runs.

pub mod lines;
pub mod registry;
