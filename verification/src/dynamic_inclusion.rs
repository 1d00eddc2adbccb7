//! When a block may be baked although parachains are still missing.

use vstd::prelude::*;

verus! {

/// Decides from when on a block may be baked. Times are counted in
/// milliseconds from a fixed origin.
#[derive(Clone, Copy, Debug)]
pub struct DynamicInclusion {
    /// The number of parachains of the slot.
    pub n_parachains: usize,
    /// When the slot started.
    pub start: u64,
    /// How long a block must wait for parachains that have no candidate.
    pub parachain_empty_duration: u64,
}

impl DynamicInclusion {
    /// The earliest time at which a block with candidates for `included`
    /// parachains may be baked: the start of the slot if no parachain is
    /// missing, else the start plus the waiting time.
    pub open spec fn earliest_bake_spec(self, included: nat) -> nat {
        if included >= self.n_parachains {
            self.start as nat
        } else {
            (self.start + self.parachain_empty_duration) as nat
        }
    }

    /// Makes the timer of a slot.
    pub fn new(n_parachains: usize, start: u64, parachain_empty_duration: u64) -> (timer: Self)
        ensures
            timer.n_parachains == n_parachains,
            timer.start == start,
            timer.parachain_empty_duration == parachain_empty_duration,
    {
        DynamicInclusion { n_parachains, start, parachain_empty_duration }
    }

    /// Tells whether a block with candidates for `included` parachains may
    /// be baked at time `now`.
    pub fn acceptable_at(&self, now: u64, included: usize) -> (acceptable: bool)
        ensures
            acceptable == (now >= self.earliest_bake_spec(included as nat)),
    {
        if included >= self.n_parachains {
            now >= self.start
        } else {
            now >= self.start && now - self.start >= self.parachain_empty_duration
        }
    }

    /// The earliest time at which a block with candidates for `included`
    /// parachains may be baked, or `None` if that time is beyond what the
    /// clock can show.
    pub fn earliest_bake(&self, included: usize) -> (earliest: Option<u64>)
        ensures
            match earliest {
                Some(time) => time == self.earliest_bake_spec(included as nat),
                None => self.earliest_bake_spec(included as nat) > u64::MAX,
            },
    {
        if included >= self.n_parachains {
            Some(self.start)
        } else {
            self.start.checked_add(self.parachain_empty_duration)
        }
    }
}

/// A block that may be baked now may be baked at any later time, and one
/// for which no parachain is missing may be baked from the start.
pub proof fn lemma_bake_time_monotone(timer: DynamicInclusion, included: nat, more: nat)
    requires
        included <= more,
    ensures
        timer.earliest_bake_spec(more) <= timer.earliest_bake_spec(included),
        more >= timer.n_parachains ==> timer.earliest_bake_spec(more) == timer.start,
{
}

} // verus!
