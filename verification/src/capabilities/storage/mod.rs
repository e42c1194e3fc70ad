//! Files that a config persists (`mantle.storage`).

pub mod controller;
