//! The clock and identifiers.

use vstd::prelude::*;

use crate::bridge::clock::{duration_secs, duration_subsec_nanos, since_unix_epoch, system_time_now};

pub use crate::bridge::random::new_uuid;

verus! {

/// A reading of the clock: whole seconds since the Unix epoch and the
/// nanoseconds past them, or `None` when the clock reads earlier than the
/// epoch. The reading itself is the clock's; nothing more is stated of it.
fn clock_reading() -> (r: Option<(u64, u32)>)
    ensures
        r matches Some(p) ==> p.1 < 1_000_000_000,
{
    match since_unix_epoch(system_time_now()) {
        Some(d) => Some((duration_secs(&d), duration_subsec_nanos(&d))),
        None => None,
    }
}

/// The nanoseconds since the epoch that a reading stands for; 0 for a
/// reading before the epoch.
pub open spec fn reading_nanos(reading: Option<(u64, u32)>) -> nat {
    match reading {
        Some(p) => p.0 as nat * 1_000_000_000 + p.1 as nat,
        None => 0,
    }
}

/// Whole seconds of a reading; 0 before the epoch.
pub fn secs_of(reading: Option<(u64, u32)>) -> (r: u64)
    ensures
        r == match reading {
            Some(p) => p.0,
            None => 0,
        },
        (reading matches Some(p) ==> p.1 < 1_000_000_000) ==> r == reading_nanos(reading)
            / 1_000_000_000,
{
    match reading {
        Some(p) => p.0,
        None => 0,
    }
}

/// Whole milliseconds of a reading, truncated to 64 bits; 0 before the epoch.
pub fn millis_of(reading: Option<(u64, u32)>) -> (r: u64)
    ensures
        r == match reading {
            Some(p) => (p.0 * 1000 + p.1 / 1_000_000) as u64,
            None => 0,
        },
        (reading matches Some(p) ==> p.1 < 1_000_000_000) ==> r == (reading_nanos(reading)
            / 1_000_000) as u64,
{
    match reading {
        Some(p) => {
            let ms: u128 = p.0 as u128 * 1000 + (p.1 / 1_000_000) as u128;
            ms as u64
        },
        None => 0,
    }
}

/// Whole microseconds of a reading; 0 before the epoch.
pub fn micros_of(reading: Option<(u64, u32)>) -> (r: u128)
    ensures
        r == match reading {
            Some(p) => p.0 * 1_000_000 + p.1 / 1000,
            None => 0,
        },
        (reading matches Some(p) ==> p.1 < 1_000_000_000) ==> r == reading_nanos(reading) / 1_000,
{
    match reading {
        Some(p) => p.0 as u128 * 1_000_000 + (p.1 / 1000) as u128,
        None => 0,
    }
}

/// Nanoseconds of a reading; 0 before the epoch.
pub fn nanos_of(reading: Option<(u64, u32)>) -> (r: u128)
    ensures
        r == reading_nanos(reading),
{
    match reading {
        Some(p) => p.0 as u128 * 1_000_000_000 + p.1 as u128,
        None => 0,
    }
}

/// Seconds since the Unix epoch; 0 if the clock reads earlier.
pub fn now_secs() -> u64 {
    secs_of(clock_reading())
}

/// Milliseconds since the Unix epoch, truncated to 64 bits; 0 if the clock
/// reads earlier.
pub fn now_millis() -> u64 {
    millis_of(clock_reading())
}

/// Microseconds since the Unix epoch; 0 if the clock reads earlier.
pub fn now_micros() -> u128 {
    micros_of(clock_reading())
}

/// Nanoseconds since the Unix epoch; 0 if the clock reads earlier.
pub fn now_nanos() -> u128 {
    nanos_of(clock_reading())
}

} // verus!
