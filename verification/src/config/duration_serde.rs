//! Durations in documents: as whole milliseconds.
use vstd::prelude::*;

use std::time::Duration;

use crate::time::duration_nanos;

verus! {

/// The whole milliseconds of so many nanoseconds, without those above the range of a `u64`.
pub open spec fn kept_millis(nanos: nat) -> nat {
    (nanos / 1_000_000) % 0x1_0000_0000_0000_0000
}

/// The number that stands for a duration: its whole milliseconds, of which those above the range of
/// the number are dropped.
pub fn serialize(duration: &Duration) -> (millis: u64)
    ensures
        millis == kept_millis(duration_nanos(*duration)),
{
    let all: u128 = duration.as_millis();
    assert((all as u64) as u128 == all % 0x1_0000_0000_0000_0000u128) by (bit_vector);
    #[verifier::truncate]
    (all as u64)
}

/// The duration that a number stands for.
pub fn deserialize(millis: u64) -> (duration: Duration)
    ensures
        duration_nanos(duration) == millis * 1_000_000,
{
    Duration::from_millis(millis)
}

/// A duration of whole milliseconds that fit the number comes back as it was.
pub proof fn whole_milliseconds_come_back(nanos: nat)
    requires
        nanos % 1_000_000 == 0,
        nanos / 1_000_000 <= u64::MAX,
    ensures
        kept_millis(nanos) * 1_000_000 == nanos,
{
}

} // verus!
