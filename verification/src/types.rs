//! Identifiers and records shared by the pallets.
use vstd::prelude::*;

use crate::table::StoreKey;

verus! {

/// An account on the chain.
pub type AccountId = u128;

/// Identifies a metaverse.
pub type MetaverseId = u64;

/// Identifies an estate.
pub type EstateId = u64;

/// Identifies an NFT class.
pub type ClassId = u32;

/// Identifies an NFT within its class.
pub type TokenId = u64;

/// Identifies an undeployed land block.
pub type UndeployedLandBlockId = u128;

/// Raw NFT metadata.
pub type NftMetadata = Vec<u8>;

/// NFT attributes as (key, value) pairs, in ascending key order.
pub type Attributes = Vec<(Vec<u8>, Vec<u8>)>;

/// Who holds a land unit or an estate: an account directly, or an NFT.
#[derive(Clone, Copy, Debug, PartialEq, Eq, Structural)]
pub enum OwnerId {
    Account(AccountId),
    Token(TokenId),
}

/// Whether a land unit to be minted is new or is already recorded.
#[derive(Clone, Copy, Debug, PartialEq, Eq, Structural)]
pub enum LandUnitStatus {
    NonExisting,
    Existing(AccountId),
}

/// Whether an undeployed land block can change hands.
#[derive(Clone, Copy, Debug, PartialEq, Eq, Structural)]
pub enum UndeployedLandBlockType {
    Transferable,
    BoundToAddress,
}

/// A block of land units that is not yet placed in a metaverse.
#[derive(Clone, Copy, Debug, PartialEq, Eq, Structural)]
pub struct UndeployedLandBlock {
    pub id: UndeployedLandBlockId,
    pub number_land_units: u32,
    pub undeployed_land_block_type: UndeployedLandBlockType,
    pub approved: Option<AccountId>,
    pub is_locked: bool,
    pub owner: AccountId,
}

/// An estate: a metaverse and the coordinates of its land units.
#[derive(Clone, Debug, PartialEq, Eq)]
pub struct EstateInfo {
    pub metaverse_id: MetaverseId,
    pub land_units: Vec<(i32, i32)>,
}

/// A non-fungible token as the runtime keeps it: who holds it, and what it
/// was minted with.
#[derive(Clone, Debug, PartialEq, Eq)]
pub struct NftToken {
    pub owner: AccountId,
    pub metadata: NftMetadata,
    pub attributes: Attributes,
}

/// An item that an auction may hold.
#[derive(Clone, Copy, Debug, PartialEq, Eq)]
pub enum ItemId {
    Estate(EstateId),
    LandUnit((i32, i32), MetaverseId),
}

/// A palette identifier from which module accounts are derived.
#[derive(Clone, Copy, Debug, PartialEq, Eq)]
pub struct PalletId(pub [u8; 8]);

/// The key of a land unit: its metaverse and its coordinate.
#[derive(Clone, Copy, Debug, PartialEq, Eq, Structural)]
pub struct LandUnitKey {
    pub metaverse_id: MetaverseId,
    pub x: i32,
    pub y: i32,
}

/// The key of a land unit, from a metaverse and a coordinate.
pub open spec fn land_key(metaverse_id: MetaverseId, coordinate: (i32, i32)) -> LandUnitKey {
    LandUnitKey { metaverse_id, x: coordinate.0, y: coordinate.1 }
}

impl StoreKey for LandUnitKey {
    fn key_eq(&self, other: &Self) -> (r: bool) {
        self.metaverse_id == other.metaverse_id && self.x == other.x && self.y == other.y
    }
}

/// The key of an entry in the index of undeployed land blocks by owner.
#[derive(Clone, Copy, Debug, PartialEq, Eq, Structural)]
pub struct BlockOwnerKey {
    pub account: AccountId,
    pub block: UndeployedLandBlockId,
}

impl StoreKey for BlockOwnerKey {
    fn key_eq(&self, other: &Self) -> (r: bool) {
        self.account == other.account && self.block == other.block
    }
}

/// How a call was made.
#[derive(Clone, Copy, Debug, PartialEq, Eq, Structural)]
pub enum Origin {
    Root,
    Signed(AccountId),
    Unsigned,
}

/// Errors of the estate pallet.
#[derive(Clone, Copy, Debug, PartialEq, Eq, Structural)]
pub enum Error {
    NoPermission,
    NoAvailableEstateId,
    InsufficientFund,
    EstateIdAlreadyExist,
    LandUnitIsNotAvailable,
    LandUnitIsOutOfBound,
    UndeployedLandBlockNotFound,
    UndeployedLandBlockIsNotTransferable,
    UndeployedLandBlockDoesNotHaveEnoughLandUnits,
    UndeployedLandBlockUnitAndInputDoesNotMatch,
    AlreadyOwnTheUndeployedLandBlock,
    UndeployedLandBlockFreezed,
    UndeployedLandBlockAlreadyFreezed,
    UndeployedLandBlockNotFrozen,
    AlreadyOwnTheEstate,
    AlreadyOwnTheLandUnit,
    EstateNotInAuction,
    LandUnitNotInAuction,
    EstateAlreadyInAuction,
    LandUnitAlreadyInAuction,
    EstateDoesNotExist,
    LandUnitDoesNotExist,
    OnlyFrozenUndeployedLandBlockCanBeDestroyed,
    BelowMinimumStake,
    Overflow,
    EstateStakeAlreadyLeft,
    AccountHasNoStake,
    InvalidOwnerValue,
    CoordinatesForEstateIsNotValid,
}

/// Why a call failed.
#[derive(Clone, Copy, Debug, PartialEq, Eq)]
pub enum DispatchError {
    /// The origin was not the one the call needs.
    BadOrigin,
    /// An error of the estate pallet.
    Module(Error),
    /// Any other failure, with its message.
    Other(&'static str),
}

/// Fails unless the call was made by the root origin.
pub fn ensure_root(origin: Origin) -> (r: Result<(), DispatchError>)
    ensures
        r == (if origin is Root {
            Ok::<(), DispatchError>(())
        } else {
            Err(DispatchError::BadOrigin)
        }),
{
    match origin {
        Origin::Root => Ok(()),
        _ => Err(DispatchError::BadOrigin),
    }
}

/// The signing account, or a failure if the call was not signed.
pub fn ensure_signed(origin: Origin) -> (r: Result<AccountId, DispatchError>)
    ensures
        r == (match origin {
            Origin::Signed(who) => Ok::<AccountId, DispatchError>(who),
            _ => Err(DispatchError::BadOrigin),
        }),
{
    match origin {
        Origin::Signed(who) => Ok(who),
        _ => Err(DispatchError::BadOrigin),
    }
}

} // verus!
