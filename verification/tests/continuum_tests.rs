use metaverse::continuum::{AuctionSlot, ContinuumAuctionSlotStatus, Pallet};
use metaverse::types::Origin;

fn slot(spot_id: u64, participants: Vec<u128>) -> AuctionSlot {
    AuctionSlot {
        spot_id,
        participants,
        active_session_index: 0,
        status: ContinuumAuctionSlotStatus::AcceptParticipates,
    }
}

#[test]
fn blocks_inside_a_session_change_nothing() {
    let mut p = Pallet::new(10, 5, 1_000);
    p.set_active_auction_slots(0, vec![slot(1, vec![7])]);
    assert_eq!(p.on_initialize(3), 0);
    assert_eq!(p.get_active_auction_slots(0), Some(1));
    assert_eq!(p.get_active_gnp_slots(3), None);
}

#[test]
fn a_new_session_moves_the_active_slots_into_the_protocol() {
    let mut p = Pallet::new(10, 5, 1_000);
    p.set_active_auction_slots(0, vec![slot(1, vec![7]), slot(2, vec![])]);
    p.set_active_auction_slots(1, vec![slot(3, vec![])]);
    assert_eq!(p.on_initialize(20), 1_000);
    assert_eq!(p.get_active_auction_slots(0), None);
    assert_eq!(p.get_active_auction_slots(1), Some(1));
    assert_eq!(
        p.get_active_gnp_slots(20),
        Some(vec![(1, ContinuumAuctionSlotStatus::GNPStarted), (2, ContinuumAuctionSlotStatus::GNPStarted)])
    );
}

#[test]
fn the_rotation_follows_the_current_session() {
    let mut p = Pallet::new(10, 5, 1_000);
    p.set_active_auction_slots(0, vec![slot(1, vec![])]);
    p.set_active_auction_slots(4, vec![slot(9, vec![1, 2])]);
    p.set_current_session(4);
    assert_eq!(p.current_session(), 4);
    assert_eq!(p.on_initialize(0), 1_000);
    assert_eq!(p.get_active_auction_slots(4), None);
    assert_eq!(p.get_active_auction_slots(0), Some(1));
    assert_eq!(p.get_active_gnp_slots(0), Some(vec![(9, ContinuumAuctionSlotStatus::GNPStarted)]));
}

#[test]
fn a_session_without_slots_starts_an_empty_protocol() {
    let mut p = Pallet::new(10, 5, 1_000);
    assert_eq!(p.on_initialize(10), 1_000);
    assert_eq!(p.get_active_gnp_slots(10), Some(vec![]));
}

#[test]
fn a_zero_session_duration_never_rotates() {
    let mut p = Pallet::new(0, 5, 1_000);
    p.set_active_auction_slots(0, vec![slot(1, vec![])]);
    assert_eq!(p.on_initialize(0), 0);
    assert_eq!(p.on_initialize(10), 0);
    assert_eq!(p.get_active_auction_slots(0), Some(1));
}

#[test]
fn the_calls_are_accepted_without_effect() {
    let mut p = Pallet::new(10, 5, 1_000);
    assert_eq!(p.register_interest(Origin::Signed(1), 3), Ok(()));
    assert_eq!(p.vote_bidder_rejection(Origin::Signed(1), vec![2, 3]), Ok(()));
    assert_eq!(p.set_max_bounds(Origin::Root, (10, 10)), Ok(()));
    assert_eq!(p.set_new_auction_rate(Origin::Unsigned, 4), Ok(()));
    assert_eq!(p.get_active_auction_slots(0), None);
    assert_eq!(p.current_session(), 0);
}
