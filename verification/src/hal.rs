//! The hardware allowlists, under the name the daemon uses for them.
pub use crate::tuning::cpu::{is_allowed_epp, is_allowed_governor};
