//! `mantle.battery` reports presence, percentage, charge state, and time estimates from UPower's
//! display device. Read-only, with no `dispatch`.

pub mod controller;
