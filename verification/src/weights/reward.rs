//! Weights of the reward pallet's calls.
use vstd::prelude::*;

use crate::weights::db::{call_weight, read_weight_of, rocks_db_weight, sat_add, sat_mul, weight_of, RuntimeDbWeight, Weight};

verus! {

/// Weight functions needed for reward.
pub trait WeightInfo {
    fn create_campaign(&self) -> Weight;

    fn create_nft_campaign(&self) -> Weight;

    fn claim_reward(&self) -> Weight;

    fn claim_nft_reward(&self) -> Weight;

    fn set_reward(&self) -> Weight;

    fn set_nft_reward(&self) -> Weight;

    fn close_campaign(&self) -> Weight;

    fn close_nft_campaign(&self) -> Weight;

    fn cancel_campaign(&self) -> Weight;

    fn cancel_nft_campaign(&self) -> Weight;

    fn add_set_reward_origin(&self) -> Weight;

    fn remove_set_reward_origin(&self) -> Weight;

    fn on_finalize(&self) -> Weight;
}

/// Weights for reward on the reference hardware, with the runtime's storage costs.
#[derive(Clone, Copy, Debug)]
pub struct SubstrateWeight {
    pub db_weight: RuntimeDbWeight,
}

impl WeightInfo for SubstrateWeight {
    fn create_campaign(&self) -> (w: Weight)
        ensures
            w == call_weight(self.db_weight, 40_885_000, 4, 5),
    {
        weight_of(&self.db_weight, 40_885_000, 4, 5)
    }

    fn create_nft_campaign(&self) -> (w: Weight)
        ensures
            w == call_weight(self.db_weight, 38_036_000, 5, 6),
    {
        weight_of(&self.db_weight, 38_036_000, 5, 6)
    }

    fn claim_reward(&self) -> (w: Weight)
        ensures
            w == call_weight(self.db_weight, 35_175_000, 4, 4),
    {
        weight_of(&self.db_weight, 35_175_000, 4, 4)
    }

    fn claim_nft_reward(&self) -> (w: Weight)
        ensures
            w == call_weight(self.db_weight, 36_767_000, 6, 4),
    {
        weight_of(&self.db_weight, 36_767_000, 6, 4)
    }

    fn set_reward(&self) -> (w: Weight)
        ensures
            w == call_weight(self.db_weight, 19_834_000, 4, 3),
    {
        weight_of(&self.db_weight, 19_834_000, 4, 3)
    }

    fn set_nft_reward(&self) -> (w: Weight)
        ensures
            w == call_weight(self.db_weight, 18_319_000, 3, 3),
    {
        weight_of(&self.db_weight, 18_319_000, 3, 3)
    }

    fn close_campaign(&self) -> (w: Weight)
        ensures
            w == call_weight(self.db_weight, 40_841_000, 3, 4),
    {
        weight_of(&self.db_weight, 40_841_000, 3, 4)
    }

    fn close_nft_campaign(&self) -> (w: Weight)
        ensures
            w == call_weight(self.db_weight, 34_413_000, 4, 5),
    {
        weight_of(&self.db_weight, 34_413_000, 4, 5)
    }

    fn cancel_campaign(&self) -> (w: Weight)
        ensures
            w == call_weight(self.db_weight, 79_924_000, 3, 3),
    {
        weight_of(&self.db_weight, 79_924_000, 3, 3)
    }

    fn cancel_nft_campaign(&self) -> (w: Weight)
        ensures
            w == call_weight(self.db_weight, 33_118_000, 4, 4),
    {
        weight_of(&self.db_weight, 33_118_000, 4, 4)
    }

    fn add_set_reward_origin(&self) -> (w: Weight)
        ensures
            w == call_weight(self.db_weight, 11_644_000, 2, 2),
    {
        weight_of(&self.db_weight, 11_644_000, 2, 2)
    }

    fn remove_set_reward_origin(&self) -> (w: Weight)
        ensures
            w == call_weight(self.db_weight, 12_048_000, 2, 2),
    {
        weight_of(&self.db_weight, 12_048_000, 2, 2)
    }

    fn on_finalize(&self) -> (w: Weight)
        ensures
            w == sat_add(13_786_000 as int, sat_mul(self.db_weight.read as int, 2) as int),
    {
        read_weight_of(&self.db_weight, 13_786_000, 2)
    }
}

/// The same weights with RocksDB storage costs.
impl WeightInfo for () {
    fn create_campaign(&self) -> (w: Weight)
        ensures
            w == call_weight(RuntimeDbWeight { read: 25_000_000, write: 100_000_000 }, 40_885_000, 4, 5),
    {
        weight_of(&rocks_db_weight(), 40_885_000, 4, 5)
    }

    fn create_nft_campaign(&self) -> (w: Weight)
        ensures
            w == call_weight(RuntimeDbWeight { read: 25_000_000, write: 100_000_000 }, 38_036_000, 5, 6),
    {
        weight_of(&rocks_db_weight(), 38_036_000, 5, 6)
    }

    fn claim_reward(&self) -> (w: Weight)
        ensures
            w == call_weight(RuntimeDbWeight { read: 25_000_000, write: 100_000_000 }, 35_175_000, 4, 4),
    {
        weight_of(&rocks_db_weight(), 35_175_000, 4, 4)
    }

    fn claim_nft_reward(&self) -> (w: Weight)
        ensures
            w == call_weight(RuntimeDbWeight { read: 25_000_000, write: 100_000_000 }, 36_767_000, 6, 4),
    {
        weight_of(&rocks_db_weight(), 36_767_000, 6, 4)
    }

    fn set_reward(&self) -> (w: Weight)
        ensures
            w == call_weight(RuntimeDbWeight { read: 25_000_000, write: 100_000_000 }, 19_834_000, 4, 3),
    {
        weight_of(&rocks_db_weight(), 19_834_000, 4, 3)
    }

    fn set_nft_reward(&self) -> (w: Weight)
        ensures
            w == call_weight(RuntimeDbWeight { read: 25_000_000, write: 100_000_000 }, 18_319_000, 3, 3),
    {
        weight_of(&rocks_db_weight(), 18_319_000, 3, 3)
    }

    fn close_campaign(&self) -> (w: Weight)
        ensures
            w == call_weight(RuntimeDbWeight { read: 25_000_000, write: 100_000_000 }, 40_841_000, 3, 4),
    {
        weight_of(&rocks_db_weight(), 40_841_000, 3, 4)
    }

    fn close_nft_campaign(&self) -> (w: Weight)
        ensures
            w == call_weight(RuntimeDbWeight { read: 25_000_000, write: 100_000_000 }, 34_413_000, 4, 5),
    {
        weight_of(&rocks_db_weight(), 34_413_000, 4, 5)
    }

    fn cancel_campaign(&self) -> (w: Weight)
        ensures
            w == call_weight(RuntimeDbWeight { read: 25_000_000, write: 100_000_000 }, 79_924_000, 3, 3),
    {
        weight_of(&rocks_db_weight(), 79_924_000, 3, 3)
    }

    fn cancel_nft_campaign(&self) -> (w: Weight)
        ensures
            w == call_weight(RuntimeDbWeight { read: 25_000_000, write: 100_000_000 }, 33_118_000, 4, 4),
    {
        weight_of(&rocks_db_weight(), 33_118_000, 4, 4)
    }

    fn add_set_reward_origin(&self) -> (w: Weight)
        ensures
            w == call_weight(RuntimeDbWeight { read: 25_000_000, write: 100_000_000 }, 11_644_000, 2, 2),
    {
        weight_of(&rocks_db_weight(), 11_644_000, 2, 2)
    }

    fn remove_set_reward_origin(&self) -> (w: Weight)
        ensures
            w == call_weight(RuntimeDbWeight { read: 25_000_000, write: 100_000_000 }, 12_048_000, 2, 2),
    {
        weight_of(&rocks_db_weight(), 12_048_000, 2, 2)
    }

    fn on_finalize(&self) -> (w: Weight)
        ensures
            w == sat_add(13_786_000 as int, sat_mul(RuntimeDbWeight { read: 25_000_000, write: 100_000_000 }.read as int, 2) as int),
    {
        read_weight_of(&rocks_db_weight(), 13_786_000, 2)
    }
}

} // verus!
