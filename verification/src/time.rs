//! Times that the kernel gives in nanoseconds, as durations.

use std::time::Duration;

use vstd::prelude::*;

verus! {

/// The duration of `nanos` nanoseconds: what `Duration::from_nanos` returns.
pub uninterp spec fn duration_of_nanos(nanos: u64) -> Duration;

/// `Duration::from_nanos`: the duration is that of its argument.
pub assume_specification[ Duration::from_nanos ](nanos: u64) -> (duration: Duration)
    ensures
        duration == duration_of_nanos(nanos),
;

/// `Duration::as_nanos`: the nanoseconds of a duration that was made of a number
/// of nanoseconds are that number.
pub assume_specification[ Duration::as_nanos ](duration: &Duration) -> (nanos: u128)
    ensures
        forall|n: u64| *duration == #[trigger] duration_of_nanos(n) ==> nanos == n,
;

/// The duration of a number of nanoseconds, if there is one.
pub open spec fn optional_duration(nanos: Option<u64>) -> Option<Duration> {
    match nanos {
        Some(n) => Some(duration_of_nanos(n)),
        None => None,
    }
}

/// The duration of a number of nanoseconds, if there is one.
pub(crate) fn to_duration(nanos: Option<u64>) -> (duration: Option<Duration>)
    ensures
        duration == optional_duration(nanos),
{
    match nanos {
        Some(n) => Some(Duration::from_nanos(n)),
        None => None,
    }
}

} // verus!
