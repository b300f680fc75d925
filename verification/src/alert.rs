//! The rhythm of the touch alert: the sound plays in bursts of
//! `BURST_COUNT`, with a short pause between the sounds of a burst and a long
//! one between bursts. The alert thread plays and sleeps; the pauses are
//! decided here.
use vstd::prelude::*;

use crate::sound::{BURST_COUNT, BURST_DELAY_MS, BURST_PAUSE_MS};

verus! {

/// How often a sleeping alert looks at its stop flag.
pub const POLL_INTERVAL_MS: u64 = 20;

/// The number of sounds already played in the current burst, after one more
/// sound ends.
pub open spec fn next_burst_position(played: nat) -> nat {
    if played + 1 < BURST_COUNT {
        played + 1
    } else {
        0
    }
}

/// The pause after a sound that ends with `played` sounds of the burst
/// already played before it.
pub open spec fn pause_after(played: nat) -> u64 {
    if played + 1 < BURST_COUNT {
        BURST_DELAY_MS
    } else {
        BURST_PAUSE_MS
    }
}

/// The burst position after `k` sounds from the start of an alert.
pub open spec fn burst_position_after(k: nat) -> nat
    decreases k,
{
    if k == 0 {
        0
    } else {
        next_burst_position(burst_position_after((k - 1) as nat))
    }
}

/// Where an alert stands in its current burst.
pub struct BurstSchedule {
    played: usize,
}

impl View for BurstSchedule {
    type V = nat;

    closed spec fn view(&self) -> nat {
        self.played as nat
    }
}

impl BurstSchedule {
    #[verifier::type_invariant]
    spec fn position_in_burst(&self) -> bool {
        self.played < BURST_COUNT
    }

    /// The schedule of an alert that has not played a sound yet.
    pub fn new() -> (r: BurstSchedule)
        ensures
            r@ == 0,
    {
        BurstSchedule { played: 0 }
    }

    /// A sound has ended: the pause before the next one, in milliseconds.
    pub fn pause_after_sound(&mut self) -> (ms: u64)
        ensures
            ms == pause_after(old(self)@),
            final(self)@ == next_burst_position(old(self)@),
            final(self)@ < BURST_COUNT,
    {
        proof {
            use_type_invariant(&*self);
        }
        if self.played + 1 < BURST_COUNT {
            self.played = self.played + 1;
            BURST_DELAY_MS
        } else {
            self.played = 0;
            BURST_PAUSE_MS
        }
    }
}

/// The number of stop-flag checks in a pause of `total_ms`.
pub fn poll_steps(total_ms: u64) -> (r: u64)
    ensures
        r == total_ms / POLL_INTERVAL_MS,
{
    total_ms / POLL_INTERVAL_MS
}

/// After `k` sounds the alert is at position `k % BURST_COUNT` of its burst,
/// so that every `BURST_COUNT`-th pause is the long one between bursts.
pub proof fn lemma_bursts_repeat(k: nat)
    ensures
        burst_position_after(k) == k % (BURST_COUNT as nat),
        pause_after(burst_position_after(k)) == (if (k + 1) % (BURST_COUNT as nat) == 0 {
            BURST_PAUSE_MS
        } else {
            BURST_DELAY_MS
        }),
    decreases k,
{
    if k > 0 {
        lemma_bursts_repeat((k - 1) as nat);
    }
}

} // verus!
