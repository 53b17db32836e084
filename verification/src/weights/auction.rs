//! Weights of the auction pallet's calls.
use vstd::prelude::*;

use crate::weights::db::{call_weight, read_weight_of, rocks_db_weight, sat_add, sat_mul, weight_of, RuntimeDbWeight, Weight};

verus! {

/// Weight functions needed for auction.
pub trait WeightInfo {
    fn create_new_auction(&self) -> Weight;

    fn create_new_buy_now(&self) -> Weight;

    fn bid(&self) -> Weight;

    fn buy_now(&self) -> Weight;

    fn authorise_metaverse_collection(&self) -> Weight;

    fn remove_authorise_metaverse_collection(&self) -> Weight;

    fn on_finalize(&self) -> Weight;
}

/// Weights for auction on the reference hardware, with the runtime's storage costs.
#[derive(Clone, Copy, Debug)]
pub struct SubstrateWeight {
    pub db_weight: RuntimeDbWeight,
}

impl WeightInfo for SubstrateWeight {
    fn create_new_auction(&self) -> (w: Weight)
        ensures
            w == call_weight(self.db_weight, 306_300_000, 9, 7),
    {
        weight_of(&self.db_weight, 306_300_000, 9, 7)
    }

    fn create_new_buy_now(&self) -> (w: Weight)
        ensures
            w == call_weight(self.db_weight, 385_600_000, 9, 7),
    {
        weight_of(&self.db_weight, 385_600_000, 9, 7)
    }

    fn bid(&self) -> (w: Weight)
        ensures
            w == call_weight(self.db_weight, 256_800_000, 3, 3),
    {
        weight_of(&self.db_weight, 256_800_000, 3, 3)
    }

    fn buy_now(&self) -> (w: Weight)
        ensures
            w == call_weight(self.db_weight, 593_400_000, 8, 10),
    {
        weight_of(&self.db_weight, 593_400_000, 8, 10)
    }

    fn authorise_metaverse_collection(&self) -> (w: Weight)
        ensures
            w == call_weight(self.db_weight, 91_900_000, 2, 1),
    {
        weight_of(&self.db_weight, 91_900_000, 2, 1)
    }

    fn remove_authorise_metaverse_collection(&self) -> (w: Weight)
        ensures
            w == call_weight(self.db_weight, 116_300_000, 2, 1),
    {
        weight_of(&self.db_weight, 116_300_000, 2, 1)
    }

    fn on_finalize(&self) -> (w: Weight)
        ensures
            w == sat_add(50_100_000 as int, sat_mul(self.db_weight.read as int, 1) as int),
    {
        read_weight_of(&self.db_weight, 50_100_000, 1)
    }
}

/// The same weights with RocksDB storage costs.
impl WeightInfo for () {
    fn create_new_auction(&self) -> (w: Weight)
        ensures
            w == call_weight(RuntimeDbWeight { read: 25_000_000, write: 100_000_000 }, 306_300_000, 9, 7),
    {
        weight_of(&rocks_db_weight(), 306_300_000, 9, 7)
    }

    fn create_new_buy_now(&self) -> (w: Weight)
        ensures
            w == call_weight(RuntimeDbWeight { read: 25_000_000, write: 100_000_000 }, 385_600_000, 9, 7),
    {
        weight_of(&rocks_db_weight(), 385_600_000, 9, 7)
    }

    fn bid(&self) -> (w: Weight)
        ensures
            w == call_weight(RuntimeDbWeight { read: 25_000_000, write: 100_000_000 }, 256_800_000, 3, 3),
    {
        weight_of(&rocks_db_weight(), 256_800_000, 3, 3)
    }

    fn buy_now(&self) -> (w: Weight)
        ensures
            w == call_weight(RuntimeDbWeight { read: 25_000_000, write: 100_000_000 }, 593_400_000, 8, 10),
    {
        weight_of(&rocks_db_weight(), 593_400_000, 8, 10)
    }

    fn authorise_metaverse_collection(&self) -> (w: Weight)
        ensures
            w == call_weight(RuntimeDbWeight { read: 25_000_000, write: 100_000_000 }, 91_900_000, 2, 1),
    {
        weight_of(&rocks_db_weight(), 91_900_000, 2, 1)
    }

    fn remove_authorise_metaverse_collection(&self) -> (w: Weight)
        ensures
            w == call_weight(RuntimeDbWeight { read: 25_000_000, write: 100_000_000 }, 116_300_000, 2, 1),
    {
        weight_of(&rocks_db_weight(), 116_300_000, 2, 1)
    }

    fn on_finalize(&self) -> (w: Weight)
        ensures
            w == sat_add(50_100_000 as int, sat_mul(RuntimeDbWeight { read: 25_000_000, write: 100_000_000 }.read as int, 1) as int),
    {
        read_weight_of(&rocks_db_weight(), 50_100_000, 1)
    }
}

} // verus!
