//! The decision logic of a desktop-shell supervisor.
//!
//! Everything here works on plain values: the program around it talks to the kernel, the bus and
//! the compositor, hands over what it read, and carries out what comes back.

pub mod action;
pub mod capabilities;
pub mod cli;
pub mod control_client;
pub mod generation;
pub mod instance;
pub mod json;
pub mod log;
pub mod pam_worker;
pub mod path;
pub mod process;
pub mod table;
pub mod text;
pub mod time;
