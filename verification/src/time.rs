//! Durations and instants of the standard library, by the number of nanoseconds that they stand for.
use vstd::prelude::*;

use std::time::{Duration, Instant};

verus! {

/// The nanoseconds of a duration.
pub uninterp spec fn duration_nanos(d: Duration) -> nat;

/// `Duration::from_secs` makes a duration of that many seconds.
pub assume_specification[ Duration::from_secs ](secs: u64) -> (d: Duration)
    ensures
        duration_nanos(d) == secs * 1_000_000_000,
;

/// `Duration::from_millis` makes a duration of that many milliseconds.
pub assume_specification[ Duration::from_millis ](millis: u64) -> (d: Duration)
    ensures
        duration_nanos(d) == millis * 1_000_000,
;

/// `Duration::as_millis` gives the whole milliseconds of a duration.
pub assume_specification[ Duration::as_millis ](d: &Duration) -> (millis: u128)
    ensures
        millis == duration_nanos(*d) / 1_000_000,
;

/// The order of `Duration`: the longer one is greater.
#[verifier::external_body]
pub(crate) fn is_longer(a: &Duration, b: &Duration) -> (r: bool)
    ensures
        r == (duration_nanos(*a) > duration_nanos(*b)),
{
    a > b
}

/// How the `Debug` of a duration of that many nanoseconds prints it.
pub uninterp spec fn duration_print(nanos: nat) -> Seq<char>;

/// The `Debug` of `Duration`, which depends on nothing but its length.
#[verifier::external_body]
pub(crate) fn print_duration(d: &Duration) -> (text: String)
    ensures
        text@ == duration_print(duration_nanos(*d)),
{
    format!("{:?}", d)
}

/// `std::time::Instant`.
#[verifier::external_type_specification]
#[verifier::external_body]
pub struct ExInstant(Instant);

/// The nanoseconds from some fixed point of the clock to an instant.
pub uninterp spec fn instant_nanos(i: Instant) -> int;

/// `Instant::now` reads the clock; nothing is known of what it reads.
pub assume_specification[ Instant::now ]() -> (i: Instant)
;

/// `Instant::duration_since` gives the time from an earlier instant, and none from a later one.
pub assume_specification[ Instant::duration_since ](i: &Instant, earlier: Instant) -> (d: Duration)
    ensures
        duration_nanos(d) == (if instant_nanos(*i) >= instant_nanos(earlier) {
            instant_nanos(*i) - instant_nanos(earlier)
        } else {
            0
        }),
;

} // verus!
