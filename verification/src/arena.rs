//! The kinds of enemy mind the arena game spreads over a population.

use vstd::prelude::*;

verus! {

/// What an enemy runs.
#[derive(Clone, Copy, PartialEq, Eq, Debug)]
pub enum Mind {
    Chaser,
    Sniper,
    Coward,
}

/// The mind at position `index` of the cycle Chaser, Sniper, Coward.
pub open spec fn mind_at(index: nat) -> Mind {
    if index % 3 == 0 {
        Mind::Chaser
    } else if index % 3 == 1 {
        Mind::Sniper
    } else {
        Mind::Coward
    }
}

impl Mind {
    /// Cycles the three so a population is evenly mixed.
    pub fn nth(index: u32) -> (r: Mind)
        ensures
            r == mind_at(index as nat),
    {
        match index % 3 {
            0 => Mind::Chaser,
            1 => Mind::Sniper,
            _ => Mind::Coward,
        }
    }
}

} // verus!
