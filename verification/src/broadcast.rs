//! Origin-side emission cadence.
//!
//! The origin runs two independent fixed-interval timers inside its tick
//! loop: clock samples go out more often than full snapshots so that the
//! observers' clock estimates converge quickly.  The decision "is the next
//! message due, and from when does the next interval count" lives here; the
//! capture and the actual send stay with the embedding.

use vstd::prelude::*;

verus! {

/// Milliseconds between clock-sample emissions.
pub const TIME_SAMPLE_INTERVAL_MILLIS: u64 = 100;

/// Milliseconds between snapshot broadcasts.
pub const SNAPSHOT_INTERVAL_MILLIS: u64 = 150;

/// Decides whether a periodic emission is due at local time `now`, and if
/// so restarts the interval from `now`.
pub fn emission_due(last_emission: &mut u64, now: u64, interval: u64) -> (r: bool)
    ensures
        r == (now > *old(last_emission) + interval),
        r ==> *final(last_emission) == now,
        !r ==> *final(last_emission) == *old(last_emission),
{
    let due = (now as u128) > (*last_emission as u128) + (interval as u128);
    if due {
        *last_emission = now;
    }
    due
}

} // verus!
