//! What the TuneD daemon tells the PPD daemon.
use vstd::prelude::*;

verus! {

/// TuneD's `profile_changed` signal.
#[derive(Debug, Clone)]
pub struct ProfileChangedEvent {
    pub profile_name: String,
    pub result: bool,
    pub errstr: String,
}

} // verus!
