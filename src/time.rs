//! Arithmetic of the architectural timer: its resolution, the uptime it
//! gives and the counter ticks of a delay.
use vstd::prelude::*;

verus! {

/// Nanoseconds in a second.
pub const NANOS_PER_SECOND: u64 = 1_000_000_000;

/// Milliseconds in a second.
pub const MILLIS_PER_SECOND: u64 = 1000;

/// `v` capped at the largest `u64`.
pub open spec fn saturate(v: int) -> int {
    if v <= u64::MAX {
        v
    } else {
        u64::MAX as int
    }
}

/// The duration of one counter tick in nanoseconds (one second divided by
/// the counter frequency), or `None` for a frequency of zero.
pub fn resolution_nanos(frequency: u64) -> (r: Option<u64>)
    ensures
        frequency == 0 ==> r is None,
        frequency > 0 ==> r == Some((NANOS_PER_SECOND / frequency) as u64),
{
    if frequency == 0 {
        None
    } else {
        Some(NANOS_PER_SECOND / frequency)
    }
}

/// The uptime in milliseconds after `count` ticks at `frequency` ticks per
/// second, saturating at the largest `u64`.
pub fn uptime_millis(count: u64, frequency: u64) -> (r: u64)
    requires
        frequency > 0,
    ensures
        r == saturate(count as int * MILLIS_PER_SECOND as int / frequency as int),
{
    assert((count as u128) * 1000u128 <= u64::MAX * 1000) by (nonlinear_arith)
        requires count <= u64::MAX;
    let millis: u128 = (count as u128) * (MILLIS_PER_SECOND as u128) / (frequency as u128);
    if millis <= u64::MAX as u128 {
        millis as u64
    } else {
        u64::MAX
    }
}

/// The counter ticks that make up `nanos` nanoseconds at `frequency` ticks
/// per second, saturating at the largest `u64`.
pub fn ticks_for_nanos(nanos: u64, frequency: u64) -> (r: u64)
    ensures
        r == saturate(nanos as int * frequency as int / NANOS_PER_SECOND as int),
{
    assert((nanos as u128) * (frequency as u128) <= u64::MAX * u64::MAX) by (nonlinear_arith)
        requires nanos <= u64::MAX, frequency <= u64::MAX;
    let ticks: u128 = (nanos as u128) * (frequency as u128) / (NANOS_PER_SECOND as u128);
    if ticks <= u64::MAX as u128 {
        ticks as u64
    } else {
        u64::MAX
    }
}

} // verus!
