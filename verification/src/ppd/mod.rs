//! The power-profiles-daemon front end: PPD profiles mapped onto TuneD profiles.
pub mod config;
pub mod controller;
pub mod tuned_client;

use vstd::prelude::*;

verus! {

/// Why a power profile request is refused.
#[derive(Debug, Clone, Copy, PartialEq, Eq, Structural)]
pub enum PpdError {
    /// A PPD profile that the mapping does not know.
    UnknownProfile,
    /// TuneD answered that it could not switch to the profile.
    SwitchFailed,
    /// Only `power-saver` and `performance` can be held.
    NotHoldable,
    /// No hold has this cookie.
    NoSuchHold,
    /// The hold belongs to another caller.
    NotHoldOwner,
    /// Every cookie is in use.
    NoFreeCookie,
}

} // verus!
