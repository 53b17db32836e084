use metaverse::weights::auction::{SubstrateWeight as AuctionWeight, WeightInfo as AuctionWeightInfo};
use metaverse::weights::db::{read_weight_of, rocks_db_weight, saturating_mul, weight_of, RuntimeDbWeight};
use metaverse::weights::economy::WeightInfo as EconomyWeightInfo;
use metaverse::weights::reward::{SubstrateWeight as RewardWeight, WeightInfo as RewardWeightInfo};

const SMALL: RuntimeDbWeight = RuntimeDbWeight { read: 1_000, write: 2_000 };

#[test]
fn rocks_db_costs_25_us_a_read_and_100_us_a_write() {
    let db = rocks_db_weight();
    assert_eq!(db.read, 25_000_000);
    assert_eq!(db.write, 100_000_000);
    assert_eq!(db.reads(3), 75_000_000);
    assert_eq!(db.writes(3), 300_000_000);
}

#[test]
fn weights_add_base_reads_and_writes() {
    assert_eq!(weight_of(&SMALL, 10, 3, 4), 10 + 3_000 + 8_000);
    assert_eq!(read_weight_of(&SMALL, 10, 3), 3_010);
}

#[test]
fn weights_saturate() {
    assert_eq!(saturating_mul(u64::MAX, 2), u64::MAX);
    assert_eq!(saturating_mul(1 << 32, 1 << 32), u64::MAX);
    assert_eq!(saturating_mul(1 << 31, 1 << 32), 1 << 63);
    let huge = RuntimeDbWeight { read: u64::MAX / 2, write: 1 };
    assert_eq!(weight_of(&huge, 0, 2, 0), u64::MAX - 1);
    assert_eq!(weight_of(&huge, 2, 2, 0), u64::MAX);
    assert_eq!(weight_of(&huge, 0, 3, 0), u64::MAX);
    assert_eq!(read_weight_of(&huge, u64::MAX, 1), u64::MAX);
}

#[test]
fn auction_weights_on_rocks_db() {
    let w = ();
    assert_eq!(AuctionWeightInfo::create_new_auction(&w), 306_300_000 + 9 * 25_000_000 + 7 * 100_000_000);
    assert_eq!(AuctionWeightInfo::create_new_buy_now(&w), 385_600_000 + 9 * 25_000_000 + 7 * 100_000_000);
    assert_eq!(AuctionWeightInfo::bid(&w), 256_800_000 + 3 * 25_000_000 + 3 * 100_000_000);
    assert_eq!(AuctionWeightInfo::buy_now(&w), 593_400_000 + 8 * 25_000_000 + 10 * 100_000_000);
    assert_eq!(AuctionWeightInfo::authorise_metaverse_collection(&w), 91_900_000 + 25_000_000 * 2 + 100_000_000);
    assert_eq!(
        AuctionWeightInfo::remove_authorise_metaverse_collection(&w),
        116_300_000 + 25_000_000 * 2 + 100_000_000
    );
    assert_eq!(AuctionWeightInfo::on_finalize(&w), 75_100_000);
}

#[test]
fn auction_weights_follow_the_runtime_db_weight() {
    let w = AuctionWeight { db_weight: SMALL };
    assert_eq!(w.create_new_auction(), 306_300_000 + 9_000 + 14_000);
    assert_eq!(w.bid(), 256_800_000 + 3_000 + 6_000);
    assert_eq!(w.on_finalize(), 50_101_000);
}

#[test]
fn reward_weights() {
    let rocks = ();
    assert_eq!(RewardWeightInfo::create_campaign(&rocks), 640_885_000);
    assert_eq!(RewardWeightInfo::on_finalize(&rocks), 63_786_000);
    let w = RewardWeight { db_weight: SMALL };
    assert_eq!(w.create_campaign(), 40_885_000 + 4_000 + 10_000);
    assert_eq!(w.remove_set_reward_origin(), 12_048_000 + 2_000 + 4_000);
    assert_eq!(w.on_finalize(), 13_788_000);
}

#[test]
fn economy_weights() {
    let w = EconomyWeightInfo { db_weight: SMALL };
    assert_eq!(w.set_bit_power_exchange_rate(), 12_000_000 + 1_000 + 4_000);
    assert_eq!(w.stake_a(), 29_011_000);
    assert_eq!(w.unstake_b(), 30_000_000 + 8_000 + 8_000);
    assert_eq!(w.withdraw_unreserved(), 22_000_000 + 2_000 + 4_000);
}
