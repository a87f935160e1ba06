//! Wall-clock reading for the driver's fixed 60 Hz timer cadence.

use vstd::prelude::*;

verus! {

/// Relies on `std::time::SystemTime::now`, `duration_since` and
/// `Duration::as_millis`: the wall clock, read as milliseconds since the
/// Unix epoch.  Nothing is assumed of the value; a clock set before the
/// epoch reads as zero.
#[verifier::external_body]
fn now_millis() -> u128 {
    match std::time::SystemTime::now().duration_since(std::time::UNIX_EPOCH) {
        Ok(d) => d.as_millis(),
        Err(_) => 0,
    }
}

/// Milliseconds since the Unix epoch, for pacing timer decay.  No two reads
/// are related by any contract: the clock may jump either way.
pub fn get_current_millis() -> u128 {
    now_millis()
}

} // verus!
