//! Keyboard layouts (`mantle.keyboard`).

use vstd::prelude::*;

pub mod layout;

verus! {

/// `mantle.keyboard`'s payload.
#[derive(Debug, Clone, Default, PartialEq)]
pub struct KeyboardState {
    /// The layout's name; empty without a supported compositor.
    pub active_layout: String,
    /// Its place among the configured layouts.
    pub active_layout_index: u32,
    /// How many layouts are configured; `0` without a supported compositor.
    pub layout_count: u32,
    /// The keyboard backlight in percent.
    pub backlight_pct: i32,
}

} // verus!
