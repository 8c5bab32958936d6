//! The delay and sound timers: 8-bit counters that a 60 Hz ticker decrements
//! down to zero.

use vstd::prelude::*;

verus! {

/// A timer's value after one tick: one less, but never below zero.
pub open spec fn tick_spec(v: u8) -> u8 {
    if v > 0 {
        (v - 1) as u8
    } else {
        0
    }
}

/// A timer's value after `n` ticks from `v`.
pub open spec fn ticks(v: u8, n: nat) -> u8
    decreases n,
{
    if n == 0 {
        v
    } else {
        tick_spec(ticks(v, (n - 1) as nat))
    }
}

/// One tick of a timer.
pub fn tick(v: u8) -> (r: u8)
    ensures
        r == tick_spec(v),
{
    v.saturating_sub(1)
}

/// A timer set to `v` reads `max(v - n, 0)` after exactly `n` ticks.
pub proof fn lemma_timer_decay(v: u8, n: nat)
    ensures
        ticks(v, n) == (if v >= n { v - n } else { 0 }),
    decreases n,
{
    if n > 0 {
        lemma_timer_decay(v, (n - 1) as nat);
    }
}

} // verus!
