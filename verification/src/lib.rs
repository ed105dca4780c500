pub mod config;
pub mod daemon;
pub mod engine;
pub mod hal;
pub mod ini;
pub mod ipc;
pub mod number;
pub mod polkit;
pub mod ppd;
pub mod profile;
pub mod rollback;
pub mod strmap;
pub mod text;
pub mod tuning;

use vstd::prelude::*;

verus! {

/// An event that makes the TuneD daemon act.
#[derive(Debug)]
pub enum DaemonEvent {
    /// A udev `power_supply` event: its action (`change`, `add`, ...) and device name.
    Hardware { action: String, device: String },
}

} // verus!
