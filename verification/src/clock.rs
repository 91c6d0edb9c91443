//! The clock and the random source of the process.

use vstd::prelude::*;

verus! {

/// `SystemTime::now`, as nanoseconds since the Unix epoch; zero for a clock
/// set before the epoch. Nothing is known of the value.
#[verifier::external_body]
pub(crate) fn unix_nanos() -> u128 {
    std::time::SystemTime::now().duration_since(std::time::UNIX_EPOCH).unwrap_or_default().as_nanos()
}

/// A hash of `seed` under a fresh `RandomState`, whose keys are drawn anew for
/// each call. Nothing is known of the value.
#[verifier::external_body]
pub(crate) fn random_hash(seed: u128) -> u64 {
    std::hash::BuildHasher::hash_one(&std::collections::hash_map::RandomState::new(), seed)
}

/// The time in whole seconds since the Unix epoch.
pub fn unix_seconds() -> u64 {
    seconds_of(unix_nanos())
}

/// The time in whole milliseconds since the Unix epoch, cut to 64 bits.
pub fn unix_millis() -> u64 {
    millis_of(unix_nanos())
}

/// A number that differs from call to call.
pub fn random_u64() -> u64 {
    random_hash(unix_nanos())
}

/// The whole seconds in a count of nanoseconds, held at the end of 64 bits.
pub open spec fn seconds_in(nanos: u128) -> u64 {
    if nanos / 1_000_000_000 > u64::MAX {
        u64::MAX
    } else {
        (nanos / 1_000_000_000) as u64
    }
}

/// The whole milliseconds in a count of nanoseconds, cut to their lowest 64
/// bits.
pub open spec fn millis_in(nanos: u128) -> u64 {
    ((nanos / 1_000_000) % 0x1_0000_0000_0000_0000) as u64
}

/// Counts the whole seconds in a count of nanoseconds.
pub fn seconds_of(nanos: u128) -> (secs: u64)
    ensures
        secs == seconds_in(nanos),
{
    let secs: u128 = nanos / 1_000_000_000;
    if secs > 0xffff_ffff_ffff_ffff {
        0xffff_ffff_ffff_ffff
    } else {
        secs as u64
    }
}

/// Counts the whole milliseconds in a count of nanoseconds.
pub fn millis_of(nanos: u128) -> (millis: u64)
    ensures
        millis == millis_in(nanos),
{
    ((nanos / 1_000_000) % 0x1_0000_0000_0000_0000) as u64
}

} // verus!
