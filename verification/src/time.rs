//! What the library knows of `std::time::Duration`: its length in
//! nanoseconds, and the std functions that read and build one.

use std::time::Duration;
use vstd::prelude::*;

verus! {

/// Nanoseconds in one second.
pub const NANOS_PER_SEC: u128 = 1_000_000_000;

/// The longest `Duration`, in nanoseconds: `u64::MAX` seconds and 999,999,999
/// nanoseconds.
pub const MAX_DURATION_NANOS: u128 = 18_446_744_073_709_551_615_999_999_999;

/// The length of a `Duration` in nanoseconds: its whole seconds, at a
/// thousand million nanoseconds each, and its nanoseconds below one second.
/// A `Duration` holds nothing else.
pub uninterp spec fn duration_nanos(d: Duration) -> nat;

/// `Duration::as_secs` returns the whole seconds of the duration.
pub assume_specification[ Duration::as_secs ](d: &Duration) -> (secs: u64)
    ensures
        secs == duration_nanos(*d) / 1_000_000_000,
;

/// `Duration::subsec_nanos` returns the part of the duration below one
/// second, in nanoseconds.
pub assume_specification[ Duration::subsec_nanos ](d: &Duration) -> (nanos: u32)
    ensures
        nanos == duration_nanos(*d) % 1_000_000_000,
;

/// `Duration::new` builds the duration of `secs` seconds and `nanos`
/// nanoseconds. With `nanos` below one second nothing is carried into the
/// seconds, so the call cannot overflow.
pub assume_specification[ Duration::new ](secs: u64, nanos: u32) -> (d: Duration)
    requires
        nanos < 1_000_000_000,
    ensures
        duration_nanos(d) == secs * 1_000_000_000 + nanos,
;

/// The length of `d` in nanoseconds.
pub fn nanos_of(d: Duration) -> (nanos: u128)
    ensures
        nanos == duration_nanos(d),
        nanos <= MAX_DURATION_NANOS,
{
    let secs: u64 = d.as_secs();
    let sub: u32 = d.subsec_nanos();
    (secs as u128) * NANOS_PER_SEC + (sub as u128)
}

/// The `Duration` that is `nanos` nanoseconds long.
pub fn duration_from_nanos(nanos: u128) -> (d: Duration)
    requires
        nanos <= MAX_DURATION_NANOS,
    ensures
        duration_nanos(d) == nanos,
{
    let secs: u64 = (nanos / NANOS_PER_SEC) as u64;
    let sub: u32 = (nanos % NANOS_PER_SEC) as u32;
    Duration::new(secs, sub)
}

} // verus!
