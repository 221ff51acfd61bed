//! Reading the clocks. Nothing is claimed of the values: they depend on when the
//! call is made.
use vstd::prelude::*;
use std::time::{Instant, SystemTime};

verus! {

#[verifier::external_type_specification]
#[verifier::external_body]
pub struct ExInstant(std::time::Instant);

#[verifier::external_type_specification]
#[verifier::external_body]
pub struct ExSystemTime(std::time::SystemTime);

/// Calls `std::time::Instant::now`.
#[verifier::external_body]
pub(crate) fn instant_now() -> Instant {
    Instant::now()
}

/// Calls `Instant::elapsed` on `start` and returns the whole seconds.
#[verifier::external_body]
pub(crate) fn elapsed_secs(start: &Instant) -> u64 {
    start.elapsed().as_secs()
}

/// Calls `std::time::SystemTime::now`.
#[verifier::external_body]
pub(crate) fn system_now() -> SystemTime {
    SystemTime::now()
}

/// Calls `SystemTime::duration_since(UNIX_EPOCH)` on `t` and returns the milliseconds,
/// truncated to 64 bits; `None` where `t` lies before the epoch.
#[verifier::external_body]
pub(crate) fn millis_since_epoch(t: SystemTime) -> Option<u64> {
    match t.duration_since(std::time::UNIX_EPOCH) {
        Ok(d) => Some(d.as_millis() as u64),
        Err(_) => None,
    }
}

} // verus!
