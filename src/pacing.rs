//! Pacing of the execution driver and the 60 Hz ticker.

use vstd::prelude::*;

verus! {

/// Rate at which the timers tick and the screen is shown, per second.
pub const TICKS_PER_SECOND: u32 = 60;

/// Instruction rate used when none is configured, per second.
pub const DEFAULT_INSTRUCTIONS_PER_SECOND: u32 = 700;

/// Nanoseconds in a second.
pub const NANOS_PER_SECOND: u64 = 1_000_000_000;

/// The length of one cycle, in nanoseconds, at `rate` cycles per second;
/// `None` for a rate of zero.
pub fn cycle_period_nanos(rate: u32) -> (r: Option<u64>)
    ensures
        rate == 0 <==> r is None,
        rate > 0 ==> r == Some((NANOS_PER_SECOND / rate as u64) as u64),
{
    if rate == 0 {
        None
    } else {
        Some(NANOS_PER_SECOND / rate as u64)
    }
}

} // verus!
