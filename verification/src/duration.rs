//! Durations from plain counts.
use std::time::Duration;

use vstd::prelude::*;

verus! {

/// The duration that `Duration::from_secs` gives for a number of seconds.
pub uninterp spec fn secs_duration(secs: u64) -> Duration;

/// The duration that `Duration::from_millis` gives for a number of milliseconds.
pub uninterp spec fn millis_duration(millis: u64) -> Duration;

/// `std::time::Duration::from_secs`: its result is named, not described.
#[verifier::external_body]
fn duration_from_secs(secs: u64) -> (r: Duration)
    ensures
        r == secs_duration(secs),
{
    Duration::from_secs(secs)
}

/// `std::time::Duration::from_millis`: its result is named, not described.
#[verifier::external_body]
fn duration_from_millis(millis: u64) -> (r: Duration)
    ensures
        r == millis_duration(millis),
{
    Duration::from_millis(millis)
}

/// Durations written as counts of a unit.
pub trait DurationUnitExt {
    fn minutes(self) -> Duration;

    fn seconds(self) -> Duration;

    fn millis(self) -> Duration;
}

impl DurationUnitExt for u64 {
    /// The duration of this many minutes; as `seconds`, it counts seconds.
    fn minutes(self) -> (r: Duration)
        ensures
            r == secs_duration(self),
    {
        duration_from_secs(self)
    }

    fn seconds(self) -> (r: Duration)
        ensures
            r == secs_duration(self),
    {
        duration_from_secs(self)
    }

    fn millis(self) -> (r: Duration)
        ensures
            r == millis_duration(self),
    {
        duration_from_millis(self)
    }
}

} // verus!
