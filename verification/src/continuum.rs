//! The continuum pallet: auction slots for spots of the continuum, rotated
//! at the start of every session.
use vstd::prelude::*;

use crate::table::Table;
use crate::types::{AccountId, DispatchError, Origin};
use crate::weights::db::Weight;

verus! {

/// Identifies a spot of the continuum.
pub type SpotId = u64;

/// A block number.
pub type BlockNumber = u64;

/// Identifies a session.
pub type SessionIndex = u64;

/// Identifies the active session.
pub type ActiveSessionId = u64;

/// Where an auction slot stands.
#[derive(Clone, Copy, Debug, PartialEq, Eq, Structural)]
pub enum ContinuumAuctionSlotStatus {
    /// Accepts participants.
    AcceptParticipates,
    /// The Good Neighborhood Protocol is in progress.
    GNPStarted,
    /// The auction is confirmed.
    GNPConfirmed,
}

/// The expressions of interest in a continuum spot.
#[derive(Debug, PartialEq, Eq)]
pub struct SpotEOI {
    pub spot_id: SpotId,
    pub participants: Vec<AccountId>,
}

/// An active auction slot.
#[derive(Debug, PartialEq, Eq)]
pub struct AuctionSlot {
    pub spot_id: SpotId,
    pub participants: Vec<AccountId>,
    pub active_session_index: BlockNumber,
    pub status: ContinuumAuctionSlotStatus,
}

/// What the continuum pallet announces.
#[derive(Debug, PartialEq, Eq)]
pub enum Event {
    /// A new expression of interest [account, spot].
    NewExpressOfInterestAdded(AccountId, SpotId),
}

/// An auction slot as a plain value.
#[verifier::ext_equal]
pub struct SlotRecord {
    pub spot_id: SpotId,
    pub participants: Seq<AccountId>,
    pub active_session_index: BlockNumber,
    pub status: ContinuumAuctionSlotStatus,
}

/// An auction slot's record.
pub open spec fn slot_record(slot: AuctionSlot) -> SlotRecord {
    SlotRecord {
        spot_id: slot.spot_id,
        participants: slot.participants@,
        active_session_index: slot.active_session_index,
        status: slot.status,
    }
}

/// A list of auction slots as plain values.
pub open spec fn slot_records(slots: Vec<AuctionSlot>) -> Seq<SlotRecord> {
    slots@.map_values(|s: AuctionSlot| slot_record(s))
}

/// The storage of the continuum pallet as plain values.
pub struct ContinuumState {
    /// How many blocks a session lasts; zero stops rotation.
    pub session_duration: BlockNumber,
    /// How long participants of new auction slots wait for their neighbours.
    pub spot_auction_chilling_duration: BlockNumber,
    /// The weight of a whole block.
    pub max_block_weight: Weight,
    /// The active session.
    pub current_index: ActiveSessionId,
    /// Auction slots accepting participants, by session.
    pub active_auction_slots: Map<SessionIndex, Seq<SlotRecord>>,
    /// Auction slots in the Good Neighborhood Protocol, by session.
    pub gnp_slots: Map<SessionIndex, Seq<SlotRecord>>,
    /// Expressions of interest, by session.
    pub eoi_slots: Map<SessionIndex, Seq<(SpotId, Seq<AccountId>)>>,
    /// The events announced so far.
    pub events: Seq<Event>,
}

/// The pallet's storage and configuration.
pub struct Pallet {
    session_duration: BlockNumber,
    spot_auction_chilling_duration: BlockNumber,
    max_block_weight: Weight,
    current_index: ActiveSessionId,
    active_auction_slots: Table<SessionIndex, Vec<AuctionSlot>>,
    gnp_slots: Table<SessionIndex, Vec<AuctionSlot>>,
    eoi_slots: Table<SessionIndex, Vec<SpotEOI>>,
    events: Vec<Event>,
}

impl View for Pallet {
    type V = ContinuumState;

    closed spec fn view(&self) -> ContinuumState {
        ContinuumState {
            session_duration: self.session_duration,
            spot_auction_chilling_duration: self.spot_auction_chilling_duration,
            max_block_weight: self.max_block_weight,
            current_index: self.current_index,
            active_auction_slots: Map::new(
                |k: SessionIndex| self.active_auction_slots@.contains_key(k),
                |k: SessionIndex| slot_records(self.active_auction_slots@[k]),
            ),
            gnp_slots: Map::new(
                |k: SessionIndex| self.gnp_slots@.contains_key(k),
                |k: SessionIndex| slot_records(self.gnp_slots@[k]),
            ),
            eoi_slots: Map::new(
                |k: SessionIndex| self.eoi_slots@.contains_key(k),
                |k: SessionIndex|
                    self.eoi_slots@[k]@.map_values(|e: SpotEOI| (e.spot_id, e.participants@)),
            ),
            events: self.events@,
        }
    }
}

/// `slots`, each moved to the Good Neighborhood Protocol.
pub open spec fn started(slots: Seq<SlotRecord>) -> Seq<SlotRecord> {
    slots.map_values(
        |s: SlotRecord| SlotRecord { status: ContinuumAuctionSlotStatus::GNPStarted, ..s },
    )
}

/// A slot moved into the Good Neighborhood Protocol keeps its spot, its
/// participants and its session; only its status becomes `GNPStarted`, and
/// the slots keep their number and order.
pub proof fn law_started_changes_only_status(slots: Seq<SlotRecord>)
    ensures
        started(slots).len() == slots.len(),
        forall|i: int|
            0 <= i < slots.len() ==> {
                &&& (#[trigger] started(slots)[i]).spot_id == slots[i].spot_id
                &&& started(slots)[i].participants == slots[i].participants
                &&& started(slots)[i].active_session_index == slots[i].active_session_index
                &&& started(slots)[i].status == ContinuumAuctionSlotStatus::GNPStarted
            },
{
}

/// Rotating the auction slots at block `now`: the active session's slots
/// (none, if it has no entry) enter the Good Neighborhood Protocol under
/// `now`, and the session's entry of active slots is removed.
pub open spec fn rotate_step(s: ContinuumState, now: BlockNumber) -> ContinuumState {
    let slots = if s.active_auction_slots.contains_key(s.current_index) {
        s.active_auction_slots[s.current_index]
    } else {
        Seq::empty()
    };
    ContinuumState {
        gnp_slots: s.gnp_slots.insert(now, started(slots)),
        active_auction_slots: s.active_auction_slots.remove(s.current_index),
        ..s
    }
}

/// Whether block `now` starts a session: sessions are on, and `now` is a
/// multiple of their length.
pub open spec fn starts_session(s: ContinuumState, now: BlockNumber) -> bool {
    s.session_duration != 0 && now % s.session_duration == 0
}

/// A copy of a list of accounts.
fn copy_accounts(v: &Vec<AccountId>) -> (r: Vec<AccountId>)
    ensures
        r@ == v@,
{
    let mut r: Vec<AccountId> = Vec::new();
    let mut i: usize = 0;
    while i < v.len()
        invariant
            i <= v@.len(),
            r@ == v@.take(i as int),
        decreases v@.len() - i,
    {
        r.push(v[i]);
        i = i + 1;
        assert(r@ =~= v@.take(i as int));
    }
    assert(r@ =~= v@);
    r
}

/// Copies of `slots`, each moved to the Good Neighborhood Protocol.
fn start_slots(slots: &Vec<AuctionSlot>) -> (r: Vec<AuctionSlot>)
    ensures
        slot_records(r) == started(slot_records(*slots)),
        r@.len() == slots@.len(),
        forall|i: int|
            0 <= i < slots@.len() ==> {
                &&& (#[trigger] r@[i]).spot_id == slots@[i].spot_id
                &&& r@[i].participants@ == slots@[i].participants@
                &&& r@[i].active_session_index == slots@[i].active_session_index
                &&& r@[i].status == ContinuumAuctionSlotStatus::GNPStarted
            },
{
    proof {
        law_started_changes_only_status(slot_records(*slots));
    }
    let mut r: Vec<AuctionSlot> = Vec::new();
    let mut i: usize = 0;
    while i < slots.len()
        invariant
            i <= slots@.len(),
            r@.len() == i,
            slot_records(r) == started(slot_records(*slots)).take(i as int),
        decreases slots@.len() - i,
    {
        let slot = &slots[i];
        let ghost prev = r@;
        let ghost prev_records = slot_records(r);
        r.push(
            AuctionSlot {
                spot_id: slot.spot_id,
                participants: copy_accounts(&slot.participants),
                active_session_index: slot.active_session_index,
                status: ContinuumAuctionSlotStatus::GNPStarted,
            },
        );
        proof {
            assert(r@ == prev.push(r@.last()));
            assert(r@.last().participants@ == slots@[i as int].participants@);
            assert(slot_records(r)[i as int] =~= started(slot_records(*slots))[i as int]);
            assert forall|j: int| 0 <= j < i implies slot_records(r)[j] == started(slot_records(*slots))[j] by {
                assert(r@[j] == prev[j]);
                assert(prev_records[j] == started(slot_records(*slots)).take(i as int)[j]);
            }
        }
        i = i + 1;
        assert(slot_records(r) =~= started(slot_records(*slots)).take(i as int));
    }
    assert(slot_records(r) =~= started(slot_records(*slots)));
    assert forall|i: int| 0 <= i < slots@.len() implies {
        &&& (#[trigger] r@[i]).spot_id == slots@[i].spot_id
        &&& r@[i].participants@ == slots@[i].participants@
        &&& r@[i].active_session_index == slots@[i].active_session_index
        &&& r@[i].status == ContinuumAuctionSlotStatus::GNPStarted
    } by {
        assert(slot_records(r)[i] == slot_record(r@[i]));
        assert(slot_records(*slots)[i] == slot_record(slots@[i]));
        assert(started(slot_records(*slots))[i] == slot_records(r)[i]);
    }
    r
}

impl Pallet {
    /// The pallet's tables are well formed.
    pub closed spec fn wf(&self) -> bool {
        &&& self.active_auction_slots.wf()
        &&& self.gnp_slots.wf()
        &&& self.eoi_slots.wf()
    }

    /// A pallet with empty storage.
    pub fn new(
        session_duration: BlockNumber,
        spot_auction_chilling_duration: BlockNumber,
        max_block_weight: Weight,
    ) -> (p: Self)
        ensures
            p.wf(),
            p@.session_duration == session_duration,
            p@.spot_auction_chilling_duration == spot_auction_chilling_duration,
            p@.max_block_weight == max_block_weight,
            p@.current_index == 0,
            p@.active_auction_slots == Map::<SessionIndex, Seq<SlotRecord>>::empty(),
            p@.gnp_slots == Map::<SessionIndex, Seq<SlotRecord>>::empty(),
            p@.eoi_slots == Map::<SessionIndex, Seq<(SpotId, Seq<AccountId>)>>::empty(),
            p@.events == Seq::<Event>::empty(),
    {
        let p = Pallet {
            session_duration,
            spot_auction_chilling_duration,
            max_block_weight,
            current_index: 0,
            active_auction_slots: Table::new(),
            gnp_slots: Table::new(),
            eoi_slots: Table::new(),
            events: Vec::new(),
        };
        proof {
            assert(p@.active_auction_slots =~= Map::<SessionIndex, Seq<SlotRecord>>::empty());
            assert(p@.gnp_slots =~= Map::<SessionIndex, Seq<SlotRecord>>::empty());
            assert(p@.eoi_slots =~= Map::<SessionIndex, Seq<(SpotId, Seq<AccountId>)>>::empty());
        }
        p
    }

    /// The active session.
    pub fn current_session(&self) -> (r: ActiveSessionId)
        ensures
            r == self@.current_index,
    {
        self.current_index
    }

    /// Sets the active session.
    pub fn set_current_session(&mut self, index: ActiveSessionId)
        ensures
            final(self)@ == (ContinuumState { current_index: index, ..old(self)@ }),
            final(self).wf() == old(self).wf(),
    {
        self.current_index = index;
    }

    /// Records `slots` as the active auction slots of session `index`.
    pub fn set_active_auction_slots(&mut self, index: SessionIndex, slots: Vec<AuctionSlot>)
        requires
            old(self).wf(),
        ensures
            final(self).wf(),
            final(self)@ == (ContinuumState {
                active_auction_slots: old(self)@.active_auction_slots.insert(index, slot_records(slots)),
                ..old(self)@
            }),
    {
        let ghost records = slot_records(slots);
        self.active_auction_slots.insert(index, slots);
        proof {
            assert(self@.active_auction_slots =~= old(self)@.active_auction_slots.insert(index, records));
            assert(self@.gnp_slots =~= old(self)@.gnp_slots);
            assert(self@.eoi_slots =~= old(self)@.eoi_slots);
        }
    }

    /// The number of active auction slots of session `index`, if it has an entry.
    pub fn get_active_auction_slots(&self, index: SessionIndex) -> (r: Option<usize>)
        requires
            self.wf(),
        ensures
            r == (if self@.active_auction_slots.contains_key(index) {
                Some(self@.active_auction_slots[index].len() as usize)
            } else {
                None
            }),
    {
        match self.active_auction_slots.get(&index) {
            Some(v) => Some(v.len()),
            None => None,
        }
    }

    /// The slots that entered the Good Neighborhood Protocol at block `index`:
    /// their spots and statuses.
    pub fn get_active_gnp_slots(&self, index: SessionIndex) -> (r: Option<
        Vec<(SpotId, ContinuumAuctionSlotStatus)>,
    >)
        requires
            self.wf(),
        ensures
            match r {
                Some(v) => self@.gnp_slots.contains_key(index) && v@ == self@.gnp_slots[index].map_values(
                    |s: SlotRecord| (s.spot_id, s.status),
                ),
                None => !self@.gnp_slots.contains_key(index),
            },
    {
        match self.gnp_slots.get(&index) {
            Some(slots) => {
                let mut out: Vec<(SpotId, ContinuumAuctionSlotStatus)> = Vec::new();
                let mut i: usize = 0;
                while i < slots.len()
                    invariant
                        i <= slots@.len(),
                        out@ == slot_records(*slots).map_values(
                            |s: SlotRecord| (s.spot_id, s.status),
                        ).take(i as int),
                    decreases slots@.len() - i,
                {
                    out.push((slots[i].spot_id, slots[i].status));
                    i = i + 1;
                    assert(out@ =~= slot_records(*slots).map_values(
                        |s: SlotRecord| (s.spot_id, s.status),
                    ).take(i as int));
                }
                assert(out@ =~= slot_records(*slots).map_values(
                    |s: SlotRecord| (s.spot_id, s.status),
                ));
                Some(out)
            },
            None => None,
        }
    }

    /// At the start of block `now`: where `now` starts a session, rotates the
    /// auction slots and gives back the weight of a whole block; otherwise
    /// does nothing and gives back zero.
    pub fn on_initialize(&mut self, now: BlockNumber) -> (w: Weight)
        requires
            old(self).wf(),
        ensures
            final(self).wf(),
            starts_session(old(self)@, now) ==> final(self)@ == rotate_step(old(self)@, now) && w
                == old(self)@.max_block_weight,
            starts_session(old(self)@, now) ==> {
                let before = old(self)@;
                let active = if before.active_auction_slots.contains_key(before.current_index) {
                    before.active_auction_slots[before.current_index]
                } else {
                    Seq::<SlotRecord>::empty()
                };
                let gnp = final(self)@.gnp_slots[now];
                &&& final(self)@.gnp_slots.contains_key(now)
                &&& !final(self)@.active_auction_slots.contains_key(before.current_index)
                &&& gnp.len() == active.len()
                &&& forall|i: int|
                    0 <= i < active.len() ==> {
                        &&& (#[trigger] gnp[i]).spot_id == active[i].spot_id
                        &&& gnp[i].participants == active[i].participants
                        &&& gnp[i].active_session_index == active[i].active_session_index
                        &&& gnp[i].status == ContinuumAuctionSlotStatus::GNPStarted
                    }
            },
            !starts_session(old(self)@, now) ==> final(self)@ == old(self)@ && w == 0,
    {
        let auction_duration = self.session_duration;
        if auction_duration != 0 && now % auction_duration == 0 {
            proof {
                let before = old(self)@;
                if before.active_auction_slots.contains_key(before.current_index) {
                    law_started_changes_only_status(before.active_auction_slots[before.current_index]);
                } else {
                    law_started_changes_only_status(Seq::<SlotRecord>::empty());
                }
            }
            let _ = self.rotate_auction_slots(now);
            self.max_block_weight
        } else {
            0
        }
    }

    /// Registers interest in spot `spot_id`; no effect yet.
    pub fn register_interest(&mut self, origin: Origin, spot_id: SpotId) -> (r: Result<(), DispatchError>)
        ensures
            r == Ok::<(), DispatchError>(()),
            final(self)@ == old(self)@,
    {
        Ok(())
    }

    /// Votes to reject `bidders`; no effect yet.
    pub fn vote_bidder_rejection(&mut self, origin: Origin, bidders: Vec<AccountId>) -> (r: Result<
        (),
        DispatchError,
    >)
        ensures
            r == Ok::<(), DispatchError>(()),
            final(self)@ == old(self)@,
    {
        Ok(())
    }

    /// Sets the continuum's bounds; no effect yet.
    pub fn set_max_bounds(&mut self, origin: Origin, new_bound: (u64, u64)) -> (r: Result<
        (),
        DispatchError,
    >)
        ensures
            r == Ok::<(), DispatchError>(()),
            final(self)@ == old(self)@,
    {
        Ok(())
    }

    /// Sets the rate of new auctions; no effect yet.
    pub fn set_new_auction_rate(&mut self, origin: Origin, new_rate: u32) -> (r: Result<
        (),
        DispatchError,
    >)
        ensures
            r == Ok::<(), DispatchError>(()),
            final(self)@ == old(self)@,
    {
        Ok(())
    }

    /// Moves the active session's auction slots into the Good Neighborhood
    /// Protocol under block `now` (see [`rotate_step`]).
    fn rotate_auction_slots(&mut self, now: BlockNumber) -> (r: Result<(), DispatchError>)
        requires
            old(self).wf(),
        ensures
            final(self).wf(),
            final(self)@ == rotate_step(old(self)@, now),
            r == Ok::<(), DispatchError>(()),
    {
        let current_active_session_id = self.current_index;
        let started_gnp_auction_slots = match self.active_auction_slots.get(&current_active_session_id) {
            Some(slots) => start_slots(slots),
            None => {
                let v: Vec<AuctionSlot> = Vec::new();
                assert(slot_records(v) =~= started(Seq::empty()));
                v
            },
        };
        let ghost records = slot_records(started_gnp_auction_slots);
        self.gnp_slots.insert(now, started_gnp_auction_slots);
        self.active_auction_slots.remove(&current_active_session_id);
        proof {
            let s = old(self)@;
            let t = rotate_step(s, now);
            assert(self@.gnp_slots =~= t.gnp_slots);
            assert(self@.active_auction_slots =~= t.active_auction_slots);
            assert(self@.eoi_slots =~= t.eoi_slots);
        }
        Ok(())
    }

    /// Registers `who` for spot `spot_id`; always spot 5 for now.
    fn do_register(&self, who: &AccountId, spot_id: &SpotId) -> (r: SpotId)
        ensures
            r == 5,
    {
        5
    }
}

} // verus!
