//! The system clock.

use vstd::prelude::*;

use std::time::{SystemTime, UNIX_EPOCH};

use crate::Timestamp;

verus! {

#[verifier::external_type_specification]
#[verifier::external_body]
pub struct ExSystemTime(SystemTime);

/// Relies on std::time::SystemTime::now: the clock's current reading.
#[verifier::external_body]
fn clock_now() -> (r: SystemTime) {
    SystemTime::now()
}

/// Relies on std::time::SystemTime::duration_since with UNIX_EPOCH (and
/// Duration::as_secs): whole seconds after the epoch, `None` for an earlier
/// reading.
#[verifier::external_body]
fn seconds_since_epoch(t: &SystemTime) -> (r: Option<u64>) {
    t.duration_since(UNIX_EPOCH).ok().map(|d| d.as_secs())
}

/// The current time in seconds since the Unix epoch; 0 if the clock reads
/// earlier than the epoch.
pub fn get_timestamp() -> (r: Timestamp) {
    match seconds_since_epoch(&clock_now()) {
        Some(s) => s,
        None => 0,
    }
}

} // verus!
