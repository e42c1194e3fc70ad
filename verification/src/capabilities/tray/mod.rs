//! Status notifier items (`mantle.tray`).

pub mod controller;
pub mod item;
