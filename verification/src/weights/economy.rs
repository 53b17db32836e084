//! Weights of the economy pallet's calls in the metaverse runtime.
use vstd::prelude::*;

use crate::weights::db::{call_weight, weight_of, RuntimeDbWeight, Weight};

verus! {

/// Weights for the economy pallet, with the runtime's storage costs.
#[derive(Clone, Copy, Debug)]
pub struct WeightInfo {
    pub db_weight: RuntimeDbWeight,
}

impl WeightInfo {
    pub fn set_bit_power_exchange_rate(&self) -> (w: Weight)
        ensures
            w == call_weight(self.db_weight, 12_000_000, 1, 2),
    {
        weight_of(&self.db_weight, 12_000_000, 1, 2)
    }

    pub fn set_power_balance(&self) -> (w: Weight)
        ensures
            w == call_weight(self.db_weight, 12_000_000, 1, 2),
    {
        weight_of(&self.db_weight, 12_000_000, 1, 2)
    }

    pub fn stake_a(&self) -> (w: Weight)
        ensures
            w == call_weight(self.db_weight, 29_000_000, 5, 3),
    {
        weight_of(&self.db_weight, 29_000_000, 5, 3)
    }

    pub fn stake_b(&self) -> (w: Weight)
        ensures
            w == call_weight(self.db_weight, 39_000_000, 8, 3),
    {
        weight_of(&self.db_weight, 39_000_000, 8, 3)
    }

    pub fn unstake_a(&self) -> (w: Weight)
        ensures
            w == call_weight(self.db_weight, 20_000_000, 5, 4),
    {
        weight_of(&self.db_weight, 20_000_000, 5, 4)
    }

    pub fn unstake_b(&self) -> (w: Weight)
        ensures
            w == call_weight(self.db_weight, 30_000_000, 8, 4),
    {
        weight_of(&self.db_weight, 30_000_000, 8, 4)
    }

    pub fn withdraw_unreserved(&self) -> (w: Weight)
        ensures
            w == call_weight(self.db_weight, 22_000_000, 2, 2),
    {
        weight_of(&self.db_weight, 22_000_000, 2, 2)
    }
}

} // verus!
