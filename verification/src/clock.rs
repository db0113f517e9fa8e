//! The wall clock, in the units that heartbeats, ledger entries and request
//! records are stamped with.

use std::time::{Duration, SystemTime};
use vstd::prelude::*;

verus! {

#[verifier::external_type_specification]
#[verifier::external_body]
pub struct ExSystemTime(SystemTime);

/// Reads the system clock with `SystemTime::now`. Nothing is claimed of the
/// outcome: two readings may differ in either direction.
#[verifier::external_body]
fn system_now() -> (now: SystemTime) {
    SystemTime::now()
}

/// The time that has passed from the Unix epoch to `time`, by
/// `SystemTime::duration_since`; `None` for a time before the epoch.
#[verifier::external_body]
fn since_unix_epoch(time: &SystemTime) -> (elapsed: Option<Duration>) {
    time.duration_since(std::time::UNIX_EPOCH).ok()
}

/// The whole seconds of a duration, by `Duration::as_secs`.
#[verifier::external_body]
fn whole_secs(duration: &Duration) -> (secs: u64) {
    duration.as_secs()
}

/// The whole milliseconds of a duration, by `Duration::as_millis`.
#[verifier::external_body]
fn whole_millis(duration: &Duration) -> (millis: u128) {
    duration.as_millis()
}

/// The low 64 bits of a number of milliseconds.
pub open spec fn spec_low_bits(millis: u128) -> u64 {
    (millis % 0x1_0000_0000_0000_0000) as u64
}

/// The low 64 bits of a number of milliseconds: what a record keeps of it.
pub fn low_bits(millis: u128) -> (kept: u64)
    ensures
        kept == spec_low_bits(millis),
{
    (millis % 0x1_0000_0000_0000_0000u128) as u64
}

/// The whole milliseconds of a duration, as a record keeps them.
pub fn duration_millis(duration: &Duration) -> (millis: u64) {
    low_bits(whole_millis(duration))
}

/// The current Unix time in whole seconds; 0 while the clock stands before the epoch.
pub fn current_timestamp() -> (secs: u64) {
    let now = system_now();
    match since_unix_epoch(&now) {
        Some(elapsed) => whole_secs(&elapsed),
        None => 0,
    }
}

/// The current Unix time in whole milliseconds; 0 while the clock stands before the epoch.
pub fn current_timestamp_millis() -> (millis: u64) {
    let now = system_now();
    match since_unix_epoch(&now) {
        Some(elapsed) => low_bits(whole_millis(&elapsed)),
        None => 0,
    }
}

} // verus!
