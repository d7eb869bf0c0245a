//! Wall-clock and `Duration` access, behind small trusted wrappers.
use std::time::{Duration, SystemTime};
use vstd::prelude::*;

verus! {

#[verifier::external_type_specification]
#[verifier::external_body]
pub struct ExSystemTime(std::time::SystemTime);

/// `Duration` is `Copy`: its `clone` is the same value.
pub assume_specification[ <Duration as Clone>::clone ](d: &Duration) -> (r: Duration)
    ensures
        r == *d,
;

/// What `Duration::as_nanos` gives for `d`: its length in whole nanoseconds,
/// which fixes the duration.
pub uninterp spec fn duration_nanos(d: Duration) -> nat;

/// The whole milliseconds of `d`.
pub open spec fn duration_millis(d: Duration) -> nat {
    duration_nanos(d) / 1_000_000
}

/// `Duration::as_millis`: the whole milliseconds.
#[verifier::external_body]
pub fn duration_as_millis(d: &Duration) -> (ms: u128)
    ensures
        ms == duration_millis(*d),
{
    d.as_millis()
}

/// `Duration::from_millis`: the duration of exactly `ms` milliseconds.
#[verifier::external_body]
pub fn duration_from_millis(ms: u64) -> (d: Duration)
    ensures
        duration_nanos(d) == ms * 1_000_000,
{
    Duration::from_millis(ms)
}

/// `Duration::from_secs`: exactly `secs` seconds.
#[verifier::external_body]
pub fn duration_from_secs(secs: u64) -> (d: Duration)
    ensures
        duration_nanos(d) == secs * 1_000_000_000,
{
    Duration::from_secs(secs)
}

/// `Duration::subsec_nanos`: the nanoseconds past the last whole second.
#[verifier::external_body]
pub fn duration_subsec_nanos(d: &Duration) -> (n: u32)
    ensures
        n == duration_nanos(*d) % 1_000_000_000,
        n < 1_000_000_000,
{
    d.subsec_nanos()
}

/// `SystemTime::now`. Nothing is promised of the reading.
#[verifier::external_body]
pub fn system_time_now() -> (t: SystemTime) {
    SystemTime::now()
}

/// `SystemTime::duration_since(UNIX_EPOCH)`, with the error (a clock set before the
/// epoch) turned into `None`. Nothing is promised of the value.
#[verifier::external_body]
pub fn since_unix_epoch(t: &SystemTime) -> (d: Option<Duration>) {
    t.duration_since(std::time::UNIX_EPOCH).ok()
}

/// Milliseconds since the Unix epoch as the original computes a creation stamp:
/// zero when the clock reads before the epoch, the millisecond count truncated to
/// 64 bits otherwise.
pub fn unix_millis_now() -> (ms: u64) {
    let now = system_time_now();
    match since_unix_epoch(&now) {
        Some(d) => {
            let m = duration_as_millis(&d);
            #[verifier::truncate]
            (m as u64)
        },
        None => 0,
    }
}

/// Sub-second nanoseconds of the current time since the epoch (zero when the clock
/// reads before the epoch): a cheap source of jitter.
pub fn subsec_nanos_now() -> (n: u32)
    ensures
        n < 1_000_000_000,
{
    let now = system_time_now();
    match since_unix_epoch(&now) {
        Some(d) => duration_subsec_nanos(&d),
        None => 0,
    }
}

} // verus!
