//! The time of day, as the library reads it from the machine.

use vstd::prelude::*;

use crate::bindings::{duration_millis, time_since_epoch};

verus! {

/// The latest time, in milliseconds since the epoch, that the library works
/// with: tokens are verified by a clock that counts seconds in 32 bits, and a
/// tolerance is added to the time.
pub const LATEST_TIME_MILLIS: u64 = 4_294_967_293_999;

/// The time within the range that the library works with: a time beyond the
/// latest counts as the latest.
pub open spec fn time_within_range(now_millis: u64) -> u64 {
    if now_millis > LATEST_TIME_MILLIS {
        LATEST_TIME_MILLIS
    } else {
        now_millis
    }
}

/// The time by the system clock, in milliseconds since the epoch. A clock that
/// reads a time before the epoch counts as the epoch, one that reads a time
/// beyond the latest as the latest. Nothing else is known of the time.
pub fn unix_time_millis() -> (now: u64)
    ensures
        now <= LATEST_TIME_MILLIS,
{
    match time_since_epoch() {
        Ok(elapsed) => {
            let millis: u128 = duration_millis(&elapsed);
            if millis > LATEST_TIME_MILLIS as u128 {
                LATEST_TIME_MILLIS
            } else {
                millis as u64
            }
        },
        Err(_) => 0,
    }
}

/// The time by the system clock, in whole seconds since the epoch.
pub fn unix_time_secs() -> (now: u64)
    ensures
        now <= LATEST_TIME_MILLIS / 1000,
{
    unix_time_millis() / 1000
}

} // verus!
