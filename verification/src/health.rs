//! Bounded health values.  Every mutation of a health value in the
//! simulation goes through `clamp`, so an out-of-range value is never
//! stored, not even transiently.

use vstd::prelude::*;
use crate::constants::PLAYER_MAX_HEALTH;

verus! {

/// A health value together with its per-entity upper bound.
#[derive(Clone, Copy, Debug, PartialEq, Eq, Structural)]
pub struct Health {
    pub value: i64,
    pub max: i64,
}

/// `input` forced into the interval `[0, max]`.
pub open spec fn health_clamp(max: int, input: int) -> int {
    if input > max {
        max
    } else if input < 0 {
        0
    } else {
        input
    }
}

impl Health {
    /// A well-formed health value sits between zero and its bound.
    pub open spec fn wf(self) -> bool {
        0 <= self.value <= self.max
    }

    /// The fresh health of a spawned player: at the player bound.
    pub fn new_player_health() -> (r: Health)
        ensures
            r == (Health { value: PLAYER_MAX_HEALTH, max: PLAYER_MAX_HEALTH }),
            r.wf(),
    {
        Health { value: PLAYER_MAX_HEALTH, max: PLAYER_MAX_HEALTH }
    }

    /// Forces a proposed new value into `[0, max]`.
    pub fn clamp(&self, input: i64) -> (r: i64)
        ensures
            r == health_clamp(self.max as int, input as int),
            self.max >= 0 ==> 0 <= r <= self.max,
    {
        let min: i64 = 0;
        let max = self.max;
        if input > max {
            max
        } else if input < min {
            min
        } else {
            input
        }
    }
}

impl Health {
    /// One point gained, clamped at the bound.
    pub fn gain_one(&mut self)
        requires
            old(self).max >= 0,
        ensures
            final(self).value == health_clamp(old(self).max as int, old(self).value + 1),
            final(self).max == old(self).max,
    {
        if self.value < self.max {
            self.value = self.clamp(self.value + 1);
        } else {
            self.value = self.clamp(self.value);
        }
    }

    /// One point lost, clamped at zero.
    pub fn lose_one(&mut self)
        requires
            old(self).value >= 0,
        ensures
            final(self).value == health_clamp(old(self).max as int, old(self).value - 1),
            final(self).max == old(self).max,
    {
        self.value = self.clamp(self.value - 1);
    }
}

/// For every health mutation through `clamp`, the result lies in
/// `[0, max]`.
pub proof fn lemma_clamp_in_range(max: int, input: int)
    requires
        max >= 0,
    ensures
        0 <= health_clamp(max, input) <= max,
{
}

} // verus!
