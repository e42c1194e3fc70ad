//! The session lock (`mantle.lock`).

pub mod controller;
pub mod flag;
pub mod state;
