use vstd::prelude::*;
use std::time::{Duration, SystemTime};

verus! {

#[verifier::external_type_specification]
#[verifier::external_body]
pub struct ExSystemTime(SystemTime);

/// Calls `std::time::SystemTime::now`. Nothing is promised of the instant it
/// reads: it is whatever the system clock says at the moment of the call.
#[verifier::external_body]
fn system_time_now() -> SystemTime {
    SystemTime::now()
}

/// Calls `SystemTime::duration_since` with `UNIX_EPOCH`, turning its error (the
/// clock reads earlier than the epoch) into `None`. The duration depends on the
/// clock reading and is not described further.
#[verifier::external_body]
fn duration_since_unix_epoch(t: &SystemTime) -> Option<Duration> {
    t.duration_since(std::time::UNIX_EPOCH).ok()
}

/// Calls `Duration::as_nanos`. A `Duration` is opaque here, so the number of
/// nanoseconds it holds is not described further.
#[verifier::external_body]
fn duration_as_nanos(d: &Duration) -> u128 {
    d.as_nanos()
}

/// Nanoseconds since the Unix epoch by the system clock, or 0 when the clock
/// reads earlier than the epoch. The value depends on the clock alone.
pub fn nanos_since_epoch() -> u128 {
    let now = system_time_now();
    match duration_since_unix_epoch(&now) {
        Some(d) => duration_as_nanos(&d),
        None => 0,
    }
}

} // verus!
