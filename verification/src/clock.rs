//! The system clock.

use vstd::prelude::*;

use core::time::Duration;
use std::time::SystemTime;

verus! {

#[verifier::external_type_specification]
#[verifier::external_body]
pub struct ExSystemTime(SystemTime);

/// `SystemTime::now`. Nothing is stated of the reading.
#[verifier::external_body]
fn system_now() -> (r: SystemTime) {
    SystemTime::now()
}

/// `SystemTime::duration_since(UNIX_EPOCH)`; `None` for a time before the
/// epoch. Nothing is stated of the duration.
#[verifier::external_body]
fn since_epoch(t: &SystemTime) -> (r: Option<Duration>) {
    t.duration_since(std::time::UNIX_EPOCH).ok()
}

/// `Duration::as_secs`: the whole seconds of `d`. Nothing is stated of the
/// value, since the duration itself is opaque here.
#[verifier::external_body]
fn whole_secs(d: &Duration) -> (r: u64) {
    d.as_secs()
}

/// Seconds since 1970-01-01 00:00:00 UTC by the system clock (wrapped into
/// an `i64`), or 0 when the clock reads earlier than that.
pub fn now_unix() -> (r: i64) {
    match since_epoch(&system_now()) {
        Some(d) => whole_secs(&d) as i64,
        None => 0,
    }
}

} // verus!
