//! The wall clock. Every reading is an outside call with nothing promised
//! of its value.

use vstd::prelude::*;

use std::time::{Duration, SystemTime};

verus! {

#[verifier::external_type_specification]
#[verifier::external_body]
pub struct ExSystemTime(std::time::SystemTime);

/// `SystemTime::now`: the current wall-clock time. Nothing is stated of it.
#[verifier::external_body]
pub(crate) fn system_now() -> SystemTime {
    SystemTime::now()
}

/// `SystemTime::duration_since(UNIX_EPOCH)`: the time elapsed since the
/// epoch, or `None` for a clock set before it. Nothing is stated of the
/// value.
#[verifier::external_body]
pub(crate) fn elapsed_since_epoch(t: &SystemTime) -> Option<Duration> {
    match t.duration_since(SystemTime::UNIX_EPOCH) {
        Ok(d) => Some(d),
        Err(_) => None,
    }
}

/// `Duration::as_nanos`: the whole nanoseconds in `d`. `Duration` is
/// opaque here, so nothing is stated of the value.
#[verifier::external_body]
pub(crate) fn duration_nanos(d: &Duration) -> u128 {
    d.as_nanos()
}

} // verus!
