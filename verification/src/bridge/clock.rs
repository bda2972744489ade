//! The system clock.

use std::time::{Duration, SystemTime};
use vstd::prelude::*;

verus! {

/// `std::time::SystemTime`, an instant of the system clock.
#[verifier::external_type_specification]
#[verifier::external_body]
pub struct ExSystemTime(SystemTime);

/// `SystemTime::now`: the current time. Nothing is stated of it.
#[verifier::external_body]
pub(crate) fn system_time_now() -> SystemTime {
    SystemTime::now()
}

/// `SystemTime::duration_since(UNIX_EPOCH)`: the time since the Unix epoch,
/// or `None` for an instant before it. Nothing more is stated.
#[verifier::external_body]
pub(crate) fn since_unix_epoch(t: SystemTime) -> Option<Duration> {
    t.duration_since(std::time::UNIX_EPOCH).ok()
}

/// `Duration::as_secs`: whole seconds.
#[verifier::external_body]
pub(crate) fn duration_secs(d: &Duration) -> u64 {
    d.as_secs()
}

/// `Duration::subsec_nanos`: the nanoseconds past the whole seconds, which
/// std documents as always less than one billion.
#[verifier::external_body]
pub(crate) fn duration_subsec_nanos(d: &Duration) -> (r: u32)
    ensures
        r < 1_000_000_000,
{
    d.subsec_nanos()
}

} // verus!
