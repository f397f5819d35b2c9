//! The link every process asks for before the scenario begins.

use vstd::prelude::*;

verus! {

/// Nanoseconds in one millisecond.
pub const NANOS_PER_MILLI: u64 = 1_000_000;

/// The bandwidth of the shaped link in bits per second: one mebibit.
pub const LINK_BANDWIDTH: u64 = 1_048_576;

/// The jitter of the shaped link in nanoseconds.
pub const LINK_JITTER: u64 = 0;

/// The latency of the shaped link in nanoseconds, from the milliseconds the
/// run was configured with; `None` where that many nanoseconds cannot be
/// written in 64 bits.
pub fn latency_nanos(millis: u64) -> (nanos: Option<u64>)
    ensures
        millis * NANOS_PER_MILLI <= u64::MAX ==> nanos == Some((millis * NANOS_PER_MILLI) as u64),
        millis * NANOS_PER_MILLI > u64::MAX ==> nanos is None,
{
    millis.checked_mul(NANOS_PER_MILLI)
}

} // verus!
