//! The supply of undeployed land.
//!
//! The estate pallet counts the land units held in undeployed land blocks.
//! Issuing, burning, deploying, freezing, unfreezing, approving and moving
//! blocks keep that count equal to the sum of the blocks' land units.
use vstd::prelude::*;

use crate::estate::{
    after, approval_step, burn_step, consume_block, freeze_step, is_issued_id, issue_step, issued_state, new_block,
    state_inv, transfer_block_step, unfreeze_step, EstateState, Event,
};
use crate::types::{AccountId, Origin, UndeployedLandBlock, UndeployedLandBlockId, UndeployedLandBlockType};

verus! {

/// The land units of the blocks of `blocks` named by `ids`.
pub open spec fn units_in(
    blocks: Map<UndeployedLandBlockId, UndeployedLandBlock>,
    ids: Set<UndeployedLandBlockId>,
) -> int
    decreases ids.len(),
    when ids.finite()
{
    if ids.len() == 0 {
        0
    } else {
        let id = ids.choose();
        blocks[id].number_land_units + units_in(blocks, ids.remove(id))
    }
}

/// The count of undeployed land units is the sum of the units of the blocks.
pub open spec fn supply_counted(s: EstateState) -> bool {
    &&& s.undeployed_land_blocks.dom().finite()
    &&& s.total_undeployed_land_unit == units_in(
        s.undeployed_land_blocks,
        s.undeployed_land_blocks.dom(),
    )
}

/// Any block of `ids` can be taken out of the sum first.
proof fn lemma_units_in_remove(
    blocks: Map<UndeployedLandBlockId, UndeployedLandBlock>,
    ids: Set<UndeployedLandBlockId>,
    a: UndeployedLandBlockId,
)
    requires
        ids.finite(),
        ids.contains(a),
    ensures
        units_in(blocks, ids) == blocks[a].number_land_units + units_in(blocks, ids.remove(a)),
    decreases ids.len(),
{
    let c = ids.choose();
    if c != a {
        lemma_units_in_remove(blocks, ids.remove(c), a);
        lemma_units_in_remove(blocks, ids.remove(a), c);
        assert(ids.remove(c).remove(a) =~= ids.remove(a).remove(c));
    }
}

/// The sum depends only on the units of the blocks it adds up.
proof fn lemma_units_in_agree(
    b1: Map<UndeployedLandBlockId, UndeployedLandBlock>,
    b2: Map<UndeployedLandBlockId, UndeployedLandBlock>,
    ids: Set<UndeployedLandBlockId>,
)
    requires
        ids.finite(),
        forall|id: UndeployedLandBlockId| #[trigger]
            ids.contains(id) ==> b1[id].number_land_units == b2[id].number_land_units,
    ensures
        units_in(b1, ids) == units_in(b2, ids),
    decreases ids.len(),
{
    if ids.len() != 0 {
        let c = ids.choose();
        lemma_units_in_agree(b1, b2, ids.remove(c));
    }
}

/// Replacing an existing block by one with as many units keeps the count.
proof fn lemma_same_units_keeps_supply(s: EstateState, t: EstateState, id: UndeployedLandBlockId)
    requires
        supply_counted(s),
        s.undeployed_land_blocks.contains_key(id),
        t.undeployed_land_blocks == s.undeployed_land_blocks.insert(id, t.undeployed_land_blocks[id]),
        t.undeployed_land_blocks[id].number_land_units == s.undeployed_land_blocks[id].number_land_units,
        t.total_undeployed_land_unit == s.total_undeployed_land_unit,
    ensures
        supply_counted(t),
{
    assert(t.undeployed_land_blocks.dom() =~= s.undeployed_land_blocks.dom());
    lemma_units_in_agree(t.undeployed_land_blocks, s.undeployed_land_blocks, s.undeployed_land_blocks.dom());
}

/// Freezing a block keeps the undeployed land units counted.
pub proof fn law_freeze_keeps_supply(s: EstateState, id: UndeployedLandBlockId)
    requires
        supply_counted(s),
    ensures
        supply_counted(after(s, freeze_step(s, id))),
{
    if freeze_step(s, id) is Ok {
        lemma_same_units_keeps_supply(s, freeze_step(s, id)->Ok_0, id);
    }
}

/// Unfreezing a block keeps the undeployed land units counted.
pub proof fn law_unfreeze_keeps_supply(s: EstateState, origin: Origin, id: UndeployedLandBlockId)
    requires
        supply_counted(s),
    ensures
        supply_counted(after(s, unfreeze_step(s, origin, id))),
{
    if unfreeze_step(s, origin, id) is Ok {
        lemma_same_units_keeps_supply(s, unfreeze_step(s, origin, id)->Ok_0, id);
    }
}

/// Approving an account for a block, or withdrawing the approval, keeps the
/// undeployed land units counted.
pub proof fn law_approval_keeps_supply(
    s: EstateState,
    origin: Origin,
    id: UndeployedLandBlockId,
    approved: Option<AccountId>,
    event: Event,
)
    requires
        supply_counted(s),
    ensures
        supply_counted(after(s, approval_step(s, origin, id, approved, event))),
{
    if approval_step(s, origin, id, approved, event) is Ok {
        lemma_same_units_keeps_supply(s, approval_step(s, origin, id, approved, event)->Ok_0, id);
    }
}

/// Moving a block to another account keeps the undeployed land units counted.
pub proof fn law_transfer_keeps_supply(
    s: EstateState,
    who: AccountId,
    to: AccountId,
    id: UndeployedLandBlockId,
)
    requires
        supply_counted(s),
    ensures
        supply_counted(after(s, transfer_block_step(s, who, to, id))),
{
    if transfer_block_step(s, who, to, id) is Ok {
        lemma_same_units_keeps_supply(s, transfer_block_step(s, who, to, id)->Ok_0, id);
    }
}

/// Taking a block out of the undeployed land, as burning and deploying it
/// do, takes exactly its units off the count.
pub proof fn law_consume_keeps_supply(s: EstateState, id: UndeployedLandBlockId)
    requires
        supply_counted(s),
        s.undeployed_land_blocks.contains_key(id),
        s.undeployed_land_blocks[id].number_land_units <= s.total_undeployed_land_unit,
    ensures
        supply_counted(consume_block(s, id)),
{
    let t = consume_block(s, id);
    let dom = s.undeployed_land_blocks.dom();
    lemma_units_in_remove(s.undeployed_land_blocks, dom, id);
    assert(t.undeployed_land_blocks.dom() =~= dom.remove(id));
    lemma_units_in_agree(t.undeployed_land_blocks, s.undeployed_land_blocks, dom.remove(id));
}

/// Burning a block takes exactly its units off the count.
pub proof fn law_burn_keeps_supply(s: EstateState, id: UndeployedLandBlockId)
    requires
        supply_counted(s),
    ensures
        supply_counted(after(s, burn_step(s, id))),
{
    if burn_step(s, id) is Ok {
        law_consume_keeps_supply(s, id);
    }
}

/// After `k` blocks of `units` each are issued, the blocks hold `k * units`
/// more land units.
proof fn lemma_issued_units(
    s: EstateState,
    beneficiary: AccountId,
    k: nat,
    units: u32,
    block_type: UndeployedLandBlockType,
)
    requires
        state_inv(s),
        s.undeployed_land_blocks.dom().finite(),
        s.next_undeployed_land_block_id + k <= u128::MAX,
    ensures
        issued_state(s, beneficiary, k, units, block_type).undeployed_land_blocks.dom().finite(),
        units_in(
            issued_state(s, beneficiary, k, units, block_type).undeployed_land_blocks,
            issued_state(s, beneficiary, k, units, block_type).undeployed_land_blocks.dom(),
        ) == units_in(s.undeployed_land_blocks, s.undeployed_land_blocks.dom()) + k * units,
    decreases k,
{
    let cur = issued_state(s, beneficiary, k, units, block_type).undeployed_land_blocks;
    if k == 0 {
        assert(cur =~= s.undeployed_land_blocks);
        assert(k * units == 0) by (nonlinear_arith)
            requires
                k == 0,
        ;
    } else {
        let k1 = (k - 1) as nat;
        lemma_issued_units(s, beneficiary, k1, units, block_type);
        let prev = issued_state(s, beneficiary, k1, units, block_type).undeployed_land_blocks;
        let a = (s.next_undeployed_land_block_id + k1) as UndeployedLandBlockId;
        assert(is_issued_id(s, k, a));
        assert(!prev.contains_key(a)) by {
            if s.undeployed_land_blocks.contains_key(a) {
                assert(a < s.next_undeployed_land_block_id);
            }
        }
        assert(cur.dom() =~= prev.dom().insert(a));
        assert(cur.dom().remove(a) =~= prev.dom());
        lemma_units_in_remove(cur, cur.dom(), a);
        lemma_units_in_agree(cur, prev, prev.dom());
        assert(cur[a] == new_block(a, beneficiary, units, block_type));
        let base = units_in(s.undeployed_land_blocks, s.undeployed_land_blocks.dom());
        assert(units_in(cur, cur.dom()) == units + units_in(cur, prev.dom()));
        assert(units_in(cur, prev.dom()) == base + k1 * units);
        assert(k1 * units + units == k * units) by (nonlinear_arith)
            requires
                k1 + 1 == k,
        ;
    }
}

/// Issuing blocks adds their units to the count.
pub proof fn law_issue_keeps_supply(
    s: EstateState,
    beneficiary: AccountId,
    n: u32,
    units: u32,
    block_type: UndeployedLandBlockType,
)
    requires
        state_inv(s),
        supply_counted(s),
    ensures
        supply_counted(after(s, issue_step(s, beneficiary, n, units, block_type))),
{
    if issue_step(s, beneficiary, n, units, block_type) is Ok {
        lemma_issued_units(s, beneficiary, n as nat, units, block_type);
    }
}

/// With no blocks and a count of zero, the units are counted.
pub proof fn law_empty_supply_is_counted(s: EstateState)
    requires
        s.undeployed_land_blocks == Map::<UndeployedLandBlockId, UndeployedLandBlock>::empty(),
        s.total_undeployed_land_unit == 0,
    ensures
        supply_counted(s),
{
    assert(s.undeployed_land_blocks.dom() =~= Set::<UndeployedLandBlockId>::empty());
}

} // verus!
