//! Machine load and temperatures (`mantle.sysinfo`).

pub mod controller;
