//! The estate pallet: land units in metaverses, estates built from them, and
//! undeployed land blocks that are later turned into land units.
//!
//! The pallet's storage is held in [`Table`]s and counters; the services it
//! relies on (NFT classes and tokens, auctions) come from a runtime that
//! implements [`Config`].  Land units and estates are owned by tokens: who
//! holds the token in the runtime holds the land unit or estate.
//!
//! Every call either succeeds or leaves the pallet's storage as it found it.
//! A call that fails after the runtime minted tokens for it (a later
//! coordinate already taken, or a later mint refused) leaves those tokens in
//! the runtime: the pallet cannot take back what the runtime did.
use vstd::prelude::*;

use crate::encoding::{
    attributes_view, estate_token_attributes, estate_token_metadata, get_estate_token_properties,
    get_land_token_properties, into_sub_account, land_token_attributes, land_token_metadata,
    pallet_sub_account,
};
use crate::geometry::{contiguous, in_bound, verify_land_unit_for_estate, verify_land_unit_in_bound, x_axis, y_axis};
use crate::table::Table;
use crate::types::{
    land_key, AccountId, Attributes, BlockOwnerKey, ClassId, DispatchError, Error, EstateId,
    EstateInfo, ItemId, LandUnitKey, LandUnitStatus, MetaverseId, NftMetadata, NftToken, Origin, OwnerId,
    PalletId, TokenId, UndeployedLandBlock, UndeployedLandBlockId, UndeployedLandBlockType,
    ensure_root, ensure_signed,
};

verus! {

/// The services that the runtime provides to the estate pallet: the NFT
/// classes of metaverses, the NFTs themselves, and auctions.
///
/// A runtime implements this trait.  Its spec functions say what the runtime
/// holds; its methods read and change that as their contracts say, and the
/// pallet proves its own contracts from them.
pub trait Config: Sized {
    /// The NFT class of land units in a metaverse, or why there is none.
    spec fn land_class(&self, metaverse_id: MetaverseId) -> Result<ClassId, DispatchError>;

    /// The NFT class of estates in a metaverse, or why there is none.
    spec fn estate_class(&self, metaverse_id: MetaverseId) -> Result<ClassId, DispatchError>;

    /// Token `nft`, if it exists.
    spec fn token(&self, nft: (ClassId, TokenId)) -> Option<NftToken>;

    /// Whether `item_id` is in an auction.
    spec fn in_auction(&self, item_id: ItemId) -> bool;

    /// Whether the runtime lets new tokens of `class_id` be minted.
    spec fn mintable(&self, class_id: ClassId) -> bool;

    /// Whether the runtime lets token `nft` move from one holder to another.
    spec fn transferable(&self, nft: (ClassId, TokenId)) -> bool;

    /// Whether the runtime lets its holder destroy token `nft`.
    spec fn burnable(&self, nft: (ClassId, TokenId)) -> bool;

    /// The NFT class of land units in a metaverse.
    fn get_metaverse_land_class(&self, metaverse_id: MetaverseId) -> (r: Result<ClassId, DispatchError>)
        ensures
            r == self.land_class(metaverse_id),
    ;

    /// The NFT class of estates in a metaverse.
    fn get_metaverse_estate_class(&self, metaverse_id: MetaverseId) -> (r: Result<ClassId, DispatchError>)
        ensures
            r == self.estate_class(metaverse_id),
    ;

    /// Mints a new token of `class_id` for `sender`, with `metadata` and
    /// `attributes`; on failure nothing changes.
    fn mint_token(
        &mut self,
        sender: &AccountId,
        class_id: ClassId,
        metadata: NftMetadata,
        attributes: Attributes,
    ) -> (r: Result<TokenId, DispatchError>)
        ensures
            old(self).mintable(class_id) ==> r is Ok,
            match r {
                Ok(t) => {
                    &&& old(self).token((class_id, t)) is None
                    &&& final(self).token((class_id, t)) == Some(
                        NftToken { owner: *sender, metadata, attributes },
                    )
                },
                Err(_) => *final(self) == *old(self),
            },
            r is Ok ==> forall|n: (ClassId, TokenId)| n != (class_id, r->Ok_0) ==> #[trigger] final(self).token(n)
                == old(self).token(n),
            forall|m: MetaverseId| #[trigger] final(self).land_class(m) == old(self).land_class(m),
            forall|m: MetaverseId| #[trigger] final(self).estate_class(m) == old(self).estate_class(m),
            forall|i: ItemId| #[trigger] final(self).in_auction(i) == old(self).in_auction(i),
            forall|c: ClassId| #[trigger] final(self).mintable(c) == old(self).mintable(c),
    ;

    /// Moves token `nft`, held by `from`, to `to`; on failure nothing changes.
    fn transfer_nft(&mut self, from: &AccountId, to: &AccountId, nft: &(ClassId, TokenId)) -> (r: Result<
        (),
        DispatchError,
    >)
        ensures
            (old(self).token(*nft) matches Some(x) && x.owner == *from) && *from != *to && old(self).transferable(
                *nft,
            ) ==> r is Ok,
            r is Ok ==> (old(self).token(*nft) matches Some(x) && x.owner == *from && final(self).token(*nft)
                == Some(NftToken { owner: *to, ..x })),
            r is Err ==> *final(self) == *old(self),
            forall|n: (ClassId, TokenId)| n != *nft ==> #[trigger] final(self).token(n) == old(self).token(n),
            forall|m: MetaverseId| #[trigger] final(self).land_class(m) == old(self).land_class(m),
            forall|m: MetaverseId| #[trigger] final(self).estate_class(m) == old(self).estate_class(m),
            forall|i: ItemId| #[trigger] final(self).in_auction(i) == old(self).in_auction(i),
            forall|c: ClassId| #[trigger] final(self).mintable(c) == old(self).mintable(c),
    ;

    /// Destroys token `nft` of `account`; on failure nothing changes.
    fn burn_nft(&mut self, account: &AccountId, nft: &(ClassId, TokenId)) -> (r: Result<(), DispatchError>)
        ensures
            (old(self).token(*nft) matches Some(x) && x.owner == *account) && old(self).burnable(*nft) ==> r is Ok,
            r is Ok ==> final(self).token(*nft) is None,
            r is Err ==> *final(self) == *old(self),
            forall|n: (ClassId, TokenId)| n != *nft ==> #[trigger] final(self).token(n) == old(self).token(n),
            forall|m: MetaverseId| #[trigger] final(self).land_class(m) == old(self).land_class(m),
            forall|m: MetaverseId| #[trigger] final(self).estate_class(m) == old(self).estate_class(m),
            forall|i: ItemId| #[trigger] final(self).in_auction(i) == old(self).in_auction(i),
            forall|c: ClassId| #[trigger] final(self).mintable(c) == old(self).mintable(c),
    ;

    /// Whether `account` holds token `nft`; fails where there is no such token.
    fn check_ownership(&self, account: &AccountId, nft: &(ClassId, TokenId)) -> (r: Result<bool, DispatchError>)
        ensures
            match self.token(*nft) {
                Some(x) => r == Ok::<bool, DispatchError>(x.owner == *account),
                None => r is Err,
            },
    ;

    /// Whether `item_id` is in an auction.
    fn check_item_in_auction(&self, item_id: ItemId) -> (r: bool)
        ensures
            r == self.in_auction(item_id),
    ;
}

/// `after` is `before` but perhaps for token `nft`: every other token, every
/// class and every auction is as it was.
pub open spec fn keeps_all_but<T: Config>(before: T, after: T, nft: (ClassId, TokenId)) -> bool {
    &&& forall|n: (ClassId, TokenId)| n != nft ==> #[trigger] after.token(n) == before.token(n)
    &&& forall|m: MetaverseId| #[trigger] after.land_class(m) == before.land_class(m)
    &&& forall|m: MetaverseId| #[trigger] after.estate_class(m) == before.estate_class(m)
    &&& forall|i: ItemId| #[trigger] after.in_auction(i) == before.in_auction(i)
    &&& forall|c: ClassId| #[trigger] after.mintable(c) == before.mintable(c)
}

/// `after` is `before` with token `nft` moved from `from` to `to`.
pub open spec fn moved<T: Config>(before: T, after: T, nft: (ClassId, TokenId), from: AccountId, to: AccountId) -> bool {
    &&& (before.token(nft) matches Some(x) && x.owner == from && after.token(nft) == Some(
        NftToken { owner: to, ..x },
    ))
    &&& keeps_all_but(before, after, nft)
}

/// `after` is `before` with a new token `nft` minted for `owner` with
/// `metadata` and `attributes`.
pub open spec fn minted<T: Config>(
    before: T,
    after: T,
    nft: (ClassId, TokenId),
    owner: AccountId,
    metadata: Seq<u8>,
    attributes: Seq<(Seq<u8>, Seq<u8>)>,
) -> bool {
    &&& before.token(nft) is None
    &&& (after.token(nft) matches Some(x) && x.owner == owner && x.metadata@ == metadata
        && attributes_view(x.attributes) == attributes)
    &&& keeps_all_but(before, after, nft)
}

/// A class lookup's class, or class 0 where the lookup failed.
pub open spec fn class_or_zero(r: Result<ClassId, DispatchError>) -> ClassId {
    match r {
        Ok(c) => c,
        Err(_) => 0,
    }
}

/// The NFT that stands for `owner` in metaverse `metaverse_id`: a land unit's
/// token in the land class, an estate's in the estate class (class 0 where
/// the metaverse has none).
pub open spec fn owner_nft<T: Config>(rt: T, owner: OwnerId, is_estate: bool, metaverse_id: MetaverseId) -> (
    ClassId,
    TokenId,
) {
    let class = if is_estate {
        class_or_zero(rt.estate_class(metaverse_id))
    } else {
        class_or_zero(rt.land_class(metaverse_id))
    };
    (class, owner->Token_0)
}

/// Whether `who` holds, in the runtime `rt`, the token that owns a land unit
/// (or, with `is_estate`, an estate) of `metaverse_id`.  An owner that is an
/// account never counts.
pub open spec fn holds<T: Config>(rt: T, who: AccountId, owner: OwnerId, is_estate: bool, metaverse_id: MetaverseId) -> bool {
    &&& owner is Token
    &&& (rt.token(owner_nft(rt, owner, is_estate, metaverse_id)) matches Some(x) && x.owner == who)
}

/// What minting the token of the land unit at `coordinate` of
/// `metaverse_id` for `beneficiary` leaves, from runtime `before` to runtime
/// `after`, with result `r`: on success, a new token of the metaverse's land
/// class, held by `beneficiary`, with the land unit's metadata and
/// attributes, owns the land unit; on failure the runtime is unchanged, a
/// metaverse without a land class gives that failure, and the runtime did
/// not allow minting in the land class.
pub open spec fn land_token_minted<T: Config>(
    before: T,
    after: T,
    metaverse_id: MetaverseId,
    beneficiary: AccountId,
    coordinate: (i32, i32),
    r: Result<OwnerId, DispatchError>,
) -> bool {
    match r {
        Ok(o) => {
            &&& o is Token
            &&& before.land_class(metaverse_id) is Ok
            &&& minted(
                before,
                after,
                (before.land_class(metaverse_id)->Ok_0, o->Token_0),
                beneficiary,
                land_token_metadata(coordinate),
                land_token_attributes(metaverse_id, coordinate),
            )
        },
        Err(e) => {
            &&& after == before
            &&& (before.land_class(metaverse_id) matches Err(c) ==> e == c)
            &&& !mints_land(before, metaverse_id)
        },
    }
}

/// Whether runtime `rt` has a land class for `metaverse_id` and lets tokens
/// of it be minted.
pub open spec fn mints_land<T: Config>(rt: T, metaverse_id: MetaverseId) -> bool {
    rt.land_class(metaverse_id) matches Ok(c) && rt.mintable(c)
}

/// Whether runtime `rt` has an estate class for `metaverse_id` and lets
/// tokens of it be minted.
pub open spec fn mints_estate<T: Config>(rt: T, metaverse_id: MetaverseId) -> bool {
    rt.estate_class(metaverse_id) matches Ok(c) && rt.mintable(c)
}

/// Whether some of `coordinates` of `metaverse_id` is not a land unit recorded
/// in `lands`.
pub open spec fn coordinates_missing(
    lands: Map<LandUnitKey, OwnerId>,
    metaverse_id: MetaverseId,
    coordinates: Seq<(i32, i32)>,
) -> bool {
    exists|i: int| 0 <= i < coordinates.len() && !lands.contains_key(#[trigger] land_key(metaverse_id, coordinates[i]))
}

/// Whether some of `coordinates` of `metaverse_id` cannot become new land
/// units: one is already recorded in `lands`, or one comes twice.
pub open spec fn coordinates_unavailable(
    lands: Map<LandUnitKey, OwnerId>,
    metaverse_id: MetaverseId,
    coordinates: Seq<(i32, i32)>,
) -> bool {
    ||| exists|i: int|
        0 <= i < coordinates.len() && lands.contains_key(#[trigger] land_key(metaverse_id, coordinates[i]))
    ||| !coordinates.no_duplicates()
}

/// The token that owns the land unit at `coordinate` of `metaverse_id` in
/// `lands`, in the land class of runtime `rt`.
pub open spec fn land_nft<T: Config>(
    rt: T,
    lands: Map<LandUnitKey, OwnerId>,
    metaverse_id: MetaverseId,
    coordinate: (i32, i32),
) -> (ClassId, TokenId) {
    (rt.land_class(metaverse_id)->Ok_0, lands[land_key(metaverse_id, coordinate)]->Token_0)
}

/// `after` is runtime `before` with a new token minted for `beneficiary` for
/// each of `coordinates` of `metaverse_id`, in the metaverse's land class,
/// with that land unit's metadata and attributes, and owning that land unit
/// in `lands`; no other token is new or changed, and classes and auctions
/// are as they were.
pub open spec fn land_tokens_minted<T: Config>(
    before: T,
    after: T,
    metaverse_id: MetaverseId,
    beneficiary: AccountId,
    coordinates: Seq<(i32, i32)>,
    lands: Map<LandUnitKey, OwnerId>,
) -> bool {
    &&& coordinates.len() > 0 ==> before.land_class(metaverse_id) is Ok
    &&& forall|i: int|
        0 <= i < coordinates.len() ==> {
            let nft = #[trigger] land_nft(before, lands, metaverse_id, coordinates[i]);
            &&& lands[land_key(metaverse_id, coordinates[i])] is Token
            &&& before.token(nft) is None
            &&& (after.token(nft) matches Some(x) && x.owner == beneficiary && x.metadata@
                == land_token_metadata(coordinates[i]) && attributes_view(x.attributes)
                == land_token_attributes(metaverse_id, coordinates[i]))
        }
    &&& forall|n: (ClassId, TokenId)|
        #[trigger] after.token(n) != before.token(n) ==> exists|i: int|
            0 <= i < coordinates.len() && n == land_nft(before, lands, metaverse_id, coordinates[i])
    &&& forall|m: MetaverseId| #[trigger] after.land_class(m) == before.land_class(m)
    &&& forall|m: MetaverseId| #[trigger] after.estate_class(m) == before.estate_class(m)
    &&& forall|i: ItemId| #[trigger] after.in_auction(i) == before.in_auction(i)
    &&& forall|c: ClassId| #[trigger] after.mintable(c) == before.mintable(c)
}

/// Why moving the land unit at `coordinate` of `metaverse_id` from `from` to
/// `to` is refused before the runtime is asked to move its token, if it is:
/// the unit must be recorded, go to someone else, and be held by `from`, and
/// the metaverse must have a land class.
pub open spec fn land_transfer_refusal<T: Config>(
    s: EstateState,
    rt: T,
    from: AccountId,
    to: AccountId,
    metaverse_id: MetaverseId,
    coordinate: (i32, i32),
) -> Option<DispatchError> {
    let key = land_key(metaverse_id, coordinate);
    if !s.land_units.contains_key(key) {
        Some(DispatchError::Module(Error::NoPermission))
    } else if from == to {
        Some(DispatchError::Module(Error::AlreadyOwnTheLandUnit))
    } else if !holds(rt, from, s.land_units[key], false, metaverse_id) {
        Some(DispatchError::Module(Error::NoPermission))
    } else if rt.land_class(metaverse_id) is Err {
        Some(rt.land_class(metaverse_id)->Err_0)
    } else {
        None
    }
}

/// Why moving estate `estate_id` from `from` to `to` is refused before the
/// runtime is asked to move its token, if it is: it must go to someone else,
/// exist, and be held by `from`, and its metaverse must have an estate class.
pub open spec fn estate_transfer_refusal<T: Config>(
    s: EstateState,
    rt: T,
    from: AccountId,
    to: AccountId,
    estate_id: EstateId,
) -> Option<DispatchError> {
    let m = s.estates[estate_id].metaverse_id;
    if from == to {
        Some(DispatchError::Module(Error::AlreadyOwnTheEstate))
    } else if !s.estates.contains_key(estate_id) {
        Some(DispatchError::Module(Error::NoPermission))
    } else if !holds(rt, from, s.estate_owner[estate_id], true, m) {
        Some(DispatchError::Module(Error::NoPermission))
    } else if rt.estate_class(m) is Err {
        Some(rt.estate_class(m)->Err_0)
    } else {
        None
    }
}

/// Why the caller `who` may not change estate `estate_id`, if that is so:
/// the estate must not be in an auction, must exist, and its token must be
/// held by `who`.
pub open spec fn estate_change_refusal<T: Config>(
    s: EstateState,
    rt: T,
    who: AccountId,
    estate_id: EstateId,
) -> Option<DispatchError> {
    if rt.in_auction(ItemId::Estate(estate_id)) {
        Some(DispatchError::Module(Error::EstateAlreadyInAuction))
    } else if !s.estates.contains_key(estate_id) {
        Some(DispatchError::Module(Error::EstateDoesNotExist))
    } else if !holds(rt, who, s.estate_owner[estate_id], true, s.estates[estate_id].metaverse_id) {
        Some(DispatchError::Module(Error::NoPermission))
    } else {
        None
    }
}

/// An estate in an auction cannot be changed by anyone: the change is
/// refused with `EstateAlreadyInAuction`, whatever the estate's records.
pub proof fn law_estate_in_auction_is_not_changed<T: Config>(
    s: EstateState,
    rt: T,
    who: AccountId,
    estate_id: EstateId,
)
    ensures
        rt.in_auction(ItemId::Estate(estate_id)) ==> estate_change_refusal(s, rt, who, estate_id) == Some(
            DispatchError::Module(Error::EstateAlreadyInAuction),
        ),
{
}

/// Whether the land unit at `coordinate` of `metaverse_id` is recorded and
/// its token is held by `who`.
pub open spec fn holds_land_unit<T: Config>(
    s: EstateState,
    rt: T,
    who: AccountId,
    metaverse_id: MetaverseId,
    coordinate: (i32, i32),
) -> bool {
    &&& s.land_units.contains_key(land_key(metaverse_id, coordinate))
    &&& holds(rt, who, s.land_units[land_key(metaverse_id, coordinate)], false, metaverse_id)
}

/// `after` is runtime `before` with a new token of the estate class of
/// `metaverse_id`, held by `beneficiary` and minted with estate `estate_id`'s
/// metadata and attributes, standing for `owner`.
pub open spec fn estate_token_minted<T: Config>(
    before: T,
    after: T,
    metaverse_id: MetaverseId,
    estate_id: EstateId,
    beneficiary: AccountId,
    owner: OwnerId,
) -> bool {
    &&& owner is Token
    &&& before.estate_class(metaverse_id) is Ok
    &&& minted(
        before,
        after,
        (before.estate_class(metaverse_id)->Ok_0, owner->Token_0),
        beneficiary,
        estate_token_metadata(metaverse_id, estate_id),
        estate_token_attributes(metaverse_id, estate_id),
    )
}

/// `after` is runtime `before` with a new token minted for `account` for each
/// land unit of `coordinates` of `metaverse_id` that `lands0` records as owned
/// by an account, in the metaverse's land class, with that land unit's
/// metadata and attributes, and owning it in `lands`; no other token is new
/// or changed, and classes and auctions are as they were.
pub open spec fn land_tokens_tokenized<T: Config>(
    before: T,
    after: T,
    metaverse_id: MetaverseId,
    account: AccountId,
    coordinates: Seq<(i32, i32)>,
    lands0: Map<LandUnitKey, OwnerId>,
    lands: Map<LandUnitKey, OwnerId>,
) -> bool {
    &&& forall|i: int|
        0 <= i < coordinates.len() && (#[trigger] lands0[land_key(metaverse_id, coordinates[i])]) is Account
            ==> {
            let nft = land_nft(before, lands, metaverse_id, coordinates[i]);
            &&& before.land_class(metaverse_id) is Ok
            &&& lands[land_key(metaverse_id, coordinates[i])] is Token
            &&& before.token(nft) is None
            &&& (after.token(nft) matches Some(x) && x.owner == account && x.metadata@ == land_token_metadata(
                coordinates[i],
            ) && attributes_view(x.attributes) == land_token_attributes(metaverse_id, coordinates[i]))
        }
    &&& forall|n: (ClassId, TokenId)|
        #[trigger] after.token(n) != before.token(n) ==> exists|i: int|
            0 <= i < coordinates.len() && lands0[land_key(metaverse_id, coordinates[i])] is Account && n
                == land_nft(before, lands, metaverse_id, coordinates[i])
    &&& forall|m: MetaverseId| #[trigger] after.land_class(m) == before.land_class(m)
    &&& forall|m: MetaverseId| #[trigger] after.estate_class(m) == before.estate_class(m)
    &&& forall|i: ItemId| #[trigger] after.in_auction(i) == before.in_auction(i)
    &&& forall|c: ClassId| #[trigger] after.mintable(c) == before.mintable(c)
}

/// What the estate pallet announces.
#[derive(Debug, PartialEq, Eq)]
pub enum Event {
    /// New lands are minted [beneficiary, metaverse, coordinates].
    NewLandsMinted(AccountId, MetaverseId, Vec<(i32, i32)>),
    /// A land unit is transferred [metaverse, coordinate, from, to].
    TransferredLandUnit(MetaverseId, (i32, i32), AccountId, AccountId),
    /// An estate is transferred [estate, from, to].
    TransferredEstate(EstateId, AccountId, AccountId),
    /// A land unit is minted [owner, metaverse, coordinate].
    NewLandUnitMinted(OwnerId, MetaverseId, (i32, i32)),
    /// An estate is minted [estate, owner, metaverse, coordinates].
    NewEstateMinted(EstateId, OwnerId, MetaverseId, Vec<(i32, i32)>),
    /// A max bound is set for a metaverse [metaverse, bound].
    MaxBoundSet(MetaverseId, (i32, i32)),
    /// A land block is deployed [account, metaverse, block, coordinates].
    LandBlockDeployed(AccountId, MetaverseId, UndeployedLandBlockId, Vec<(i32, i32)>),
    /// An undeployed land block is issued [beneficiary, block].
    UndeployedLandBlockIssued(AccountId, UndeployedLandBlockId),
    /// An undeployed land block is transferred [from, to, block].
    UndeployedLandBlockTransferred(AccountId, AccountId, UndeployedLandBlockId),
    /// An undeployed land block is approved [owner, approved account, block].
    UndeployedLandBlockApproved(AccountId, AccountId, UndeployedLandBlockId),
    /// An estate is destroyed [estate, owner].
    EstateDestroyed(EstateId, OwnerId),
    /// An estate is updated [estate, owner, coordinates].
    EstateUpdated(EstateId, OwnerId, Vec<(i32, i32)>),
    /// Land units are added to an estate [estate, owner, coordinates].
    LandUnitAdded(EstateId, OwnerId, Vec<(i32, i32)>),
    /// Land units are removed from an estate [estate, owner, coordinates].
    LandUnitsRemoved(EstateId, OwnerId, Vec<(i32, i32)>),
    /// An undeployed land block is unapproved [block].
    UndeployedLandBlockUnapproved(UndeployedLandBlockId),
    /// An undeployed land block is frozen [block].
    UndeployedLandBlockFreezed(UndeployedLandBlockId),
    /// An undeployed land block is unfrozen [block].
    UndeployedLandBlockUnfreezed(UndeployedLandBlockId),
    /// An undeployed land block is burnt [block].
    UndeployedLandBlockBurnt(UndeployedLandBlockId),
}

/// An estate as a plain value.
#[verifier::ext_equal]
pub struct EstateRecord {
    pub metaverse_id: MetaverseId,
    pub land_units: Seq<(i32, i32)>,
}

/// The storage of the estate pallet as plain values.
#[verifier::ext_equal]
pub struct EstateState {
    /// The pallet from which estate accounts are derived.
    pub land_treasury: PalletId,
    /// The least and greatest coordinate a land block may be deployed at.
    pub default_max_bound: (i32, i32),
    /// The number of land units.
    pub all_land_units_count: u64,
    /// The number of land units in undeployed land blocks.
    pub total_undeployed_land_unit: u64,
    /// Land unit owners, by metaverse and coordinate.
    pub land_units: Map<LandUnitKey, OwnerId>,
    /// The identifier the next estate gets.
    pub next_estate_id: EstateId,
    /// The number of estates.
    pub all_estates_count: u64,
    /// Estates by identifier.
    pub estates: Map<EstateId, EstateRecord>,
    /// Estate owners by estate identifier.
    pub estate_owner: Map<EstateId, OwnerId>,
    /// The identifier the next undeployed land block gets.
    pub next_undeployed_land_block_id: UndeployedLandBlockId,
    /// Undeployed land blocks by identifier.
    pub undeployed_land_blocks: Map<UndeployedLandBlockId, UndeployedLandBlock>,
    /// Undeployed land blocks indexed by owner.
    pub undeployed_land_blocks_owner: Set<BlockOwnerKey>,
    /// The events announced so far.
    pub events: Seq<Event>,
}

/// The invariant that every call of the pallet keeps.
pub open spec fn state_inv(s: EstateState) -> bool {
    &&& core_inv(s)
    &&& s.all_land_units_count == s.land_units.dom().len()
}

/// The owner index holds account `a` under block `b` exactly when block `b`
/// exists and `a` owns it.
pub open spec fn owner_index_exact(s: EstateState) -> bool {
    forall|a: AccountId, b: UndeployedLandBlockId|
        #![trigger s.undeployed_land_blocks_owner.contains(BlockOwnerKey { account: a, block: b })]
        s.undeployed_land_blocks_owner.contains(BlockOwnerKey { account: a, block: b }) <==> (
        s.undeployed_land_blocks.contains_key(b) && s.undeployed_land_blocks[b].owner == a)
}

/// The invariant, but for the count of land units: the tables are finite,
/// counters and identifiers agree with them, and the owner index holds
/// exactly each block under its owner.
pub open spec fn core_inv(s: EstateState) -> bool {
    &&& s.land_units.dom().finite()
    &&& s.estates.dom().finite()
    &&& s.estates.dom() == s.estate_owner.dom()
    &&& s.all_estates_count == s.estates.dom().len()
    &&& forall|e: EstateId| #[trigger] s.estates.contains_key(e) ==> e < s.next_estate_id
    &&& forall|b: UndeployedLandBlockId| #[trigger]
        s.undeployed_land_blocks.contains_key(b) ==> b < s.next_undeployed_land_block_id
            && s.undeployed_land_blocks[b].id == b
    &&& forall|k: BlockOwnerKey| #[trigger]
        s.undeployed_land_blocks_owner.contains(k) ==> s.undeployed_land_blocks.contains_key(k.block)
            && s.undeployed_land_blocks[k.block].owner == k.account
    &&& forall|b: UndeployedLandBlockId| #[trigger]
        s.undeployed_land_blocks.contains_key(b) ==> s.undeployed_land_blocks_owner.contains(
            BlockOwnerKey { account: s.undeployed_land_blocks[b].owner, block: b },
        )
}

/// The pallet: its storage, and the runtime that provides its services.
pub struct Pallet<T> {
    runtime: T,
    land_treasury: PalletId,
    default_max_bound: (i32, i32),
    all_land_units_count: u64,
    total_undeployed_land_unit: u64,
    land_units: Table<LandUnitKey, OwnerId>,
    next_estate_id: EstateId,
    all_estates_count: u64,
    estates: Table<EstateId, EstateInfo>,
    estate_owner: Table<EstateId, OwnerId>,
    next_undeployed_land_block_id: UndeployedLandBlockId,
    undeployed_land_blocks: Table<UndeployedLandBlockId, UndeployedLandBlock>,
    undeployed_land_blocks_owner: Table<BlockOwnerKey, ()>,
    events: Vec<Event>,
}

/// An estate's record.
pub open spec fn estate_record(info: EstateInfo) -> EstateRecord {
    EstateRecord { metaverse_id: info.metaverse_id, land_units: info.land_units@ }
}

impl<T> View for Pallet<T> {
    type V = EstateState;

    closed spec fn view(&self) -> EstateState {
        EstateState {
            land_treasury: self.land_treasury,
            default_max_bound: self.default_max_bound,
            all_land_units_count: self.all_land_units_count,
            total_undeployed_land_unit: self.total_undeployed_land_unit,
            land_units: self.land_units@,
            next_estate_id: self.next_estate_id,
            all_estates_count: self.all_estates_count,
            estates: Map::new(
                |e: EstateId| self.estates@.contains_key(e),
                |e: EstateId| estate_record(self.estates@[e]),
            ),
            estate_owner: self.estate_owner@,
            next_undeployed_land_block_id: self.next_undeployed_land_block_id,
            undeployed_land_blocks: self.undeployed_land_blocks@,
            undeployed_land_blocks_owner: self.undeployed_land_blocks_owner@.dom(),
            events: self.events@,
        }
    }
}

// ---------------------------------------------------------------------------
// Transitions of undeployed land blocks, as functions on the storage.
// ---------------------------------------------------------------------------

/// `block` with its lock set to `locked`.
pub open spec fn with_lock(block: UndeployedLandBlock, locked: bool) -> UndeployedLandBlock {
    UndeployedLandBlock { is_locked: locked, ..block }
}

/// Freezing block `id`.
pub open spec fn freeze_step(s: EstateState, id: UndeployedLandBlockId) -> Result<
    EstateState,
    DispatchError,
> {
    if !s.undeployed_land_blocks.contains_key(id) {
        Err(DispatchError::Module(Error::UndeployedLandBlockNotFound))
    } else if s.undeployed_land_blocks[id].is_locked {
        Err(DispatchError::Module(Error::UndeployedLandBlockAlreadyFreezed))
    } else {
        Ok(
            EstateState {
                undeployed_land_blocks: s.undeployed_land_blocks.insert(
                    id,
                    with_lock(s.undeployed_land_blocks[id], true),
                ),
                events: s.events.push(Event::UndeployedLandBlockFreezed(id)),
                ..s
            },
        )
    }
}

/// Unfreezing block `id`, called by `origin`.
pub open spec fn unfreeze_step(s: EstateState, origin: Origin, id: UndeployedLandBlockId) -> Result<
    EstateState,
    DispatchError,
> {
    if !(origin is Root) {
        Err(DispatchError::BadOrigin)
    } else if !s.undeployed_land_blocks.contains_key(id) {
        Err(DispatchError::Module(Error::UndeployedLandBlockNotFound))
    } else if !s.undeployed_land_blocks[id].is_locked {
        Err(DispatchError::Module(Error::UndeployedLandBlockNotFrozen))
    } else {
        Ok(
            EstateState {
                undeployed_land_blocks: s.undeployed_land_blocks.insert(
                    id,
                    with_lock(s.undeployed_land_blocks[id], false),
                ),
                events: s.events.push(Event::UndeployedLandBlockUnfreezed(id)),
                ..s
            },
        )
    }
}

/// Only the root may unfreeze a block: any other origin is refused with
/// `BadOrigin`, whatever the block.
pub proof fn law_only_root_unfreezes(s: EstateState, origin: Origin, id: UndeployedLandBlockId)
    ensures
        !(origin is Root) ==> unfreeze_step(s, origin, id) == Err::<EstateState, DispatchError>(
            DispatchError::BadOrigin,
        ),
{
}

/// Block `id` taken out of the undeployed land: its record and its owner
/// index entry are removed, its land units leave the total, and its burning
/// is announced.
pub open spec fn consume_block(s: EstateState, id: UndeployedLandBlockId) -> EstateState {
    let block = s.undeployed_land_blocks[id];
    EstateState {
        total_undeployed_land_unit: (s.total_undeployed_land_unit - block.number_land_units) as u64,
        undeployed_land_blocks_owner: s.undeployed_land_blocks_owner.remove(
            BlockOwnerKey { account: block.owner, block: id },
        ),
        undeployed_land_blocks: s.undeployed_land_blocks.remove(id),
        events: s.events.push(Event::UndeployedLandBlockBurnt(id)),
        ..s
    }
}

/// Burning block `id`: only a frozen block can be destroyed.
pub open spec fn burn_step(s: EstateState, id: UndeployedLandBlockId) -> Result<
    EstateState,
    DispatchError,
> {
    if !s.undeployed_land_blocks.contains_key(id) {
        Err(DispatchError::Module(Error::UndeployedLandBlockNotFound))
    } else if !s.undeployed_land_blocks[id].is_locked {
        Err(DispatchError::Module(Error::OnlyFrozenUndeployedLandBlockCanBeDestroyed))
    } else if s.total_undeployed_land_unit < s.undeployed_land_blocks[id].number_land_units {
        Err(DispatchError::Other("Overflow deducting new count to total undeployed lands"))
    } else {
        Ok(consume_block(s, id))
    }
}

/// Moving block `id` from `who` to `to`.
pub open spec fn transfer_block_step(
    s: EstateState,
    who: AccountId,
    to: AccountId,
    id: UndeployedLandBlockId,
) -> Result<EstateState, DispatchError> {
    if !s.undeployed_land_blocks.contains_key(id) {
        Err(DispatchError::Module(Error::UndeployedLandBlockNotFound))
    } else if s.undeployed_land_blocks[id].owner != who {
        Err(DispatchError::Module(Error::NoPermission))
    } else if s.undeployed_land_blocks[id].is_locked {
        Err(DispatchError::Module(Error::UndeployedLandBlockAlreadyFreezed))
    } else if s.undeployed_land_blocks[id].undeployed_land_block_type
        != UndeployedLandBlockType::Transferable {
        Err(DispatchError::Module(Error::UndeployedLandBlockIsNotTransferable))
    } else {
        Ok(
            EstateState {
                undeployed_land_blocks: s.undeployed_land_blocks.insert(
                    id,
                    UndeployedLandBlock { owner: to, ..s.undeployed_land_blocks[id] },
                ),
                undeployed_land_blocks_owner: s.undeployed_land_blocks_owner.remove(
                    BlockOwnerKey { account: who, block: id },
                ).insert(BlockOwnerKey { account: to, block: id }),
                events: s.events.push(Event::UndeployedLandBlockTransferred(who, to, id)),
                ..s
            },
        )
    }
}

/// Setting who else may use block `id`, called by `origin`; `approved` is the
/// new value and `event` what is announced.
pub open spec fn approval_step(
    s: EstateState,
    origin: Origin,
    id: UndeployedLandBlockId,
    approved: Option<AccountId>,
    event: Event,
) -> Result<EstateState, DispatchError> {
    if !(origin is Signed) {
        Err(DispatchError::BadOrigin)
    } else if !s.undeployed_land_blocks.contains_key(id) {
        Err(DispatchError::Module(Error::UndeployedLandBlockNotFound))
    } else if s.undeployed_land_blocks[id].owner != origin->Signed_0 {
        Err(DispatchError::Module(Error::NoPermission))
    } else if s.undeployed_land_blocks[id].is_locked {
        Err(DispatchError::Module(Error::UndeployedLandBlockAlreadyFreezed))
    } else {
        Ok(
            EstateState {
                undeployed_land_blocks: s.undeployed_land_blocks.insert(
                    id,
                    UndeployedLandBlock { approved, ..s.undeployed_land_blocks[id] },
                ),
                events: s.events.push(event),
                ..s
            },
        )
    }
}

/// The identifiers that issuing `n` blocks hands out: consecutive from the
/// next free one.
pub open spec fn issued_ids(s: EstateState, n: nat) -> Seq<UndeployedLandBlockId> {
    Seq::new(n, |k: int| (s.next_undeployed_land_block_id + k) as UndeployedLandBlockId)
}

/// Whether `id` is one of the `n` identifiers that issuing hands out.
pub open spec fn is_issued_id(s: EstateState, n: nat, id: UndeployedLandBlockId) -> bool {
    s.next_undeployed_land_block_id <= id < s.next_undeployed_land_block_id + n
}

/// A freshly issued block.
pub open spec fn new_block(
    id: UndeployedLandBlockId,
    beneficiary: AccountId,
    units: u32,
    block_type: UndeployedLandBlockType,
) -> UndeployedLandBlock {
    UndeployedLandBlock {
        id,
        number_land_units: units,
        undeployed_land_block_type: block_type,
        approved: None,
        is_locked: false,
        owner: beneficiary,
    }
}

/// The storage after `n` blocks of `units` land units each are issued to
/// `beneficiary`.
pub open spec fn issued_state(
    s: EstateState,
    beneficiary: AccountId,
    n: nat,
    units: u32,
    block_type: UndeployedLandBlockType,
) -> EstateState {
    EstateState {
        next_undeployed_land_block_id: (s.next_undeployed_land_block_id
            + n) as UndeployedLandBlockId,
        total_undeployed_land_unit: (s.total_undeployed_land_unit + n * units) as u64,
        undeployed_land_blocks: Map::new(
            |id: UndeployedLandBlockId|
                s.undeployed_land_blocks.contains_key(id) || is_issued_id(s, n, id),
            |id: UndeployedLandBlockId|
                if is_issued_id(s, n, id) {
                    new_block(id, beneficiary, units, block_type)
                } else {
                    s.undeployed_land_blocks[id]
                },
        ),
        undeployed_land_blocks_owner: Set::new(
            |k: BlockOwnerKey|
                s.undeployed_land_blocks_owner.contains(k) || (k.account == beneficiary
                    && is_issued_id(s, n, k.block)),
        ),
        events: s.events + issued_ids(s, n).map_values(
            |id: UndeployedLandBlockId| Event::UndeployedLandBlockIssued(beneficiary, id),
        ),
        ..s
    }
}

/// Issuing `n` blocks of `units` land units each to `beneficiary`: blocks are
/// issued one after another, and the first identifier or total that would
/// overflow stops the whole issue.
pub open spec fn issue_step(
    s: EstateState,
    beneficiary: AccountId,
    n: u32,
    units: u32,
    block_type: UndeployedLandBlockType,
) -> Result<EstateState, DispatchError> {
    if s.next_undeployed_land_block_id + n > u128::MAX && s.total_undeployed_land_unit + (u128::MAX
        - s.next_undeployed_land_block_id) * units <= u64::MAX {
        Err(DispatchError::Module(Error::NoAvailableEstateId))
    } else if s.next_undeployed_land_block_id + n > u128::MAX || s.total_undeployed_land_unit + n
        * units > u64::MAX {
        Err(DispatchError::Other("Overflow adding new count to total undeployed lands"))
    } else {
        Ok(issued_state(s, beneficiary, n as nat, units, block_type))
    }
}

/// The keys of `coordinates` in `metaverse_id`.
pub open spec fn coordinate_keys(metaverse_id: MetaverseId, coordinates: Seq<(i32, i32)>) -> Set<
    LandUnitKey,
> {
    Set::new(
        |k: LandUnitKey| k.metaverse_id == metaverse_id && coordinates.contains((k.x, k.y)),
    )
}

/// `after` holds new land units at `coordinates` of `metaverse_id`, each owned
/// by a token, that `before` did not hold; everything else is as it was.
pub open spec fn fresh_land_units(
    before: Map<LandUnitKey, OwnerId>,
    after: Map<LandUnitKey, OwnerId>,
    metaverse_id: MetaverseId,
    coordinates: Seq<(i32, i32)>,
) -> bool {
    &&& coordinates.no_duplicates()
    &&& forall|i: int|
        0 <= i < coordinates.len() ==> !before.contains_key(
            #[trigger] land_key(metaverse_id, coordinates[i]),
        )
    &&& after.dom() == before.dom() + coordinate_keys(metaverse_id, coordinates)
    &&& forall|k: LandUnitKey| #[trigger] before.contains_key(k) ==> after[k] == before[k]
    &&& forall|i: int|
        0 <= i < coordinates.len() ==> (#[trigger] after[land_key(metaverse_id, coordinates[i])]) is Token
}

/// `after` holds the land units at `coordinates` of `metaverse_id` that
/// `before` held, now each owned by a token: one owned by a token keeps it,
/// one owned by an account gets a new token.  Everything else is as it was.
pub open spec fn tokenized_land_units(
    before: Map<LandUnitKey, OwnerId>,
    after: Map<LandUnitKey, OwnerId>,
    metaverse_id: MetaverseId,
    coordinates: Seq<(i32, i32)>,
) -> bool {
    &&& forall|i: int|
        0 <= i < coordinates.len() ==> before.contains_key(
            #[trigger] land_key(metaverse_id, coordinates[i]),
        )
    &&& after.dom() == before.dom()
    &&& forall|k: LandUnitKey|
        #[trigger] before.contains_key(k) && !coordinate_keys(metaverse_id, coordinates).contains(k)
            ==> after[k] == before[k]
    &&& forall|k: LandUnitKey| #[trigger]
        coordinate_keys(metaverse_id, coordinates).contains(k) ==> after[k] is Token && (
        before[k] is Token ==> after[k] == before[k])
}

/// Whether `coordinate` lies within `bound` on both axes.
pub open spec fn within_max_bound(bound: (i32, i32), coordinate: (i32, i32)) -> bool {
    &&& bound.0 <= coordinate.0 <= bound.1
    &&& bound.0 <= coordinate.1 <= bound.1
}

/// The maximum bound applies to both axes of a coordinate: a coordinate is
/// within it exactly when its first and its second component both lie
/// between the bound's ends.
pub proof fn law_max_bound_covers_both_axes(bound: (i32, i32), coordinate: (i32, i32))
    ensures
        within_max_bound(bound, coordinate) <==> (bound.0 <= coordinate.0 && coordinate.0 <= bound.1
            && bound.0 <= coordinate.1 && coordinate.1 <= bound.1),
{
}

/// `land_units` with each of `removed`, in turn, taken out where it first occurs.
pub open spec fn remove_all(land_units: Seq<(i32, i32)>, removed: Seq<(i32, i32)>) -> Seq<(i32, i32)>
    decreases removed.len(),
{
    if removed.len() == 0 {
        land_units
    } else {
        remove_all(land_units, removed.drop_last()).remove_value(removed.last())
    }
}

/// Whether each of `removed`, in turn, is still there to be taken out of `land_units`.
pub open spec fn removable(land_units: Seq<(i32, i32)>, removed: Seq<(i32, i32)>) -> bool
    decreases removed.len(),
{
    if removed.len() == 0 {
        true
    } else {
        removable(land_units, removed.drop_last()) && remove_all(
            land_units,
            removed.drop_last(),
        ).contains(removed.last())
    }
}

/// The state after `step`, or the state before it if it fails.
pub open spec fn after(s: EstateState, step: Result<EstateState, DispatchError>) -> EstateState {
    match step {
        Ok(t) => t,
        Err(_) => s,
    }
}

impl<T: Config> Pallet<T> {
    /// The pallet's storage is well formed and keeps the invariant.
    pub closed spec fn wf(&self) -> bool {
        &&& self.land_units.wf()
        &&& self.estates.wf()
        &&& self.estate_owner.wf()
        &&& self.undeployed_land_blocks.wf()
        &&& self.undeployed_land_blocks_owner.wf()
        &&& state_inv(self@)
    }

    /// The storage is well formed but for the count of land units.
    pub closed spec fn wf_core(&self) -> bool {
        &&& self.land_units.wf()
        &&& self.estates.wf()
        &&& self.estate_owner.wf()
        &&& self.undeployed_land_blocks.wf()
        &&& self.undeployed_land_blocks_owner.wf()
        &&& core_inv(self@)
    }

    /// The runtime that provides the pallet's services.
    pub closed spec fn spec_runtime(&self) -> T {
        self.runtime
    }

    proof fn lemma_tables(&self)
        requires
            self.land_units.wf(),
            self.estates.wf(),
            self.estate_owner.wf(),
            self.undeployed_land_blocks.wf(),
            self.undeployed_land_blocks_owner.wf(),
        ensures
            self@.land_units.dom().finite(),
            self@.land_units.dom().len() == self.land_units.entries().len(),
            self@.estates.dom().finite(),
            self@.estates.dom().len() == self.estates.entries().len(),
            self@.estates.dom() == self.estates@.dom(),
    {
        self.land_units.lemma_entries();
        self.estates.lemma_entries();
        assert(self@.estates.dom() =~= self.estates@.dom());
    }

    /// A well-formed pallet keeps the invariant: its tables are finite, its
    /// counters and identifiers agree with them, and its owner index is
    /// exact.
    pub proof fn lemma_wf_state_inv(&self)
        requires
            self.wf(),
        ensures
            state_inv(self@),
            owner_index_exact(self@),
    {
        law_invariant_gives_exact_owner_index(self@);
    }

    /// A pallet with empty storage.
    pub fn new(runtime: T, land_treasury: PalletId, default_max_bound: (i32, i32)) -> (p: Self)
        ensures
            p.wf(),
            p.spec_runtime() == runtime,
            p@.land_treasury == land_treasury,
            p@.default_max_bound == default_max_bound,
            p@.all_land_units_count == 0,
            p@.total_undeployed_land_unit == 0,
            p@.land_units == Map::<LandUnitKey, OwnerId>::empty(),
            p@.next_estate_id == 0,
            p@.all_estates_count == 0,
            p@.estates == Map::<EstateId, EstateRecord>::empty(),
            p@.estate_owner == Map::<EstateId, OwnerId>::empty(),
            p@.next_undeployed_land_block_id == 0,
            p@.undeployed_land_blocks == Map::<UndeployedLandBlockId, UndeployedLandBlock>::empty(),
            p@.undeployed_land_blocks_owner == Set::<BlockOwnerKey>::empty(),
            p@.events == Seq::<Event>::empty(),
    {
        let p = Pallet {
            runtime,
            land_treasury,
            default_max_bound,
            all_land_units_count: 0,
            total_undeployed_land_unit: 0,
            land_units: Table::new(),
            next_estate_id: 0,
            all_estates_count: 0,
            estates: Table::new(),
            estate_owner: Table::new(),
            next_undeployed_land_block_id: 0,
            undeployed_land_blocks: Table::new(),
            undeployed_land_blocks_owner: Table::new(),
            events: Vec::new(),
        };
        proof {
            assert(p@.estates =~= Map::<EstateId, EstateRecord>::empty());
            assert(p@.undeployed_land_blocks_owner =~= Set::<BlockOwnerKey>::empty());
        }
        p
    }

    /// The runtime that provides the pallet's services.
    pub fn runtime(&self) -> (r: &T)
        ensures
            *r == self.spec_runtime(),
    {
        &self.runtime
    }

    /// The runtime, to change what it provides; the storage is not touched.
    pub fn runtime_mut(&mut self) -> (r: &mut T)
        ensures
            *r == old(self).spec_runtime(),
            final(self)@ == old(self)@,
            final(self).wf() == old(self).wf(),
    {
        &mut self.runtime
    }

    /// The events announced so far, oldest first.
    pub fn events(&self) -> (r: &Vec<Event>)
        ensures
            r@ == self@.events,
    {
        &self.events
    }

    /// The most recent event, if any.
    pub fn last_event(&self) -> (r: Option<&Event>)
        ensures
            r == (if self@.events.len() == 0 {
                None
            } else {
                Some(&self@.events.last())
            }),
    {
        if self.events.len() == 0 {
            None
        } else {
            Some(&self.events[self.events.len() - 1])
        }
    }

    /// The number of land units.
    pub fn all_land_units_count(&self) -> (r: u64)
        ensures
            r == self@.all_land_units_count,
    {
        self.all_land_units_count
    }

    /// The number of land units in undeployed land blocks.
    pub fn all_undeployed_land_unit(&self) -> (r: u64)
        ensures
            r == self@.total_undeployed_land_unit,
    {
        self.total_undeployed_land_unit
    }

    /// The number of estates.
    pub fn all_estates_count(&self) -> (r: u64)
        ensures
            r == self@.all_estates_count,
    {
        self.all_estates_count
    }

    /// The identifier the next estate gets.
    pub fn next_estate_id(&self) -> (r: EstateId)
        ensures
            r == self@.next_estate_id,
    {
        self.next_estate_id
    }

    /// The identifier the next undeployed land block gets.
    pub fn next_undeployed_land_block_id(&self) -> (r: UndeployedLandBlockId)
        ensures
            r == self@.next_undeployed_land_block_id,
    {
        self.next_undeployed_land_block_id
    }

    /// The owner of the land unit at `coordinate` in `metaverse_id`.
    pub fn get_land_units(&self, metaverse_id: MetaverseId, coordinate: (i32, i32)) -> (r: Option<
        OwnerId,
    >)
        requires
            self.wf(),
        ensures
            r == (if self@.land_units.contains_key(land_key(metaverse_id, coordinate)) {
                Some(self@.land_units[land_key(metaverse_id, coordinate)])
            } else {
                None
            }),
    {
        let key = LandUnitKey { metaverse_id, x: coordinate.0, y: coordinate.1 };
        match self.land_units.get(&key) {
            Some(o) => Some(*o),
            None => None,
        }
    }

    /// The estate `estate_id`.
    pub fn get_estates(&self, estate_id: EstateId) -> (r: Option<EstateInfo>)
        requires
            self.wf(),
        ensures
            match r {
                Some(info) => self@.estates.contains_key(estate_id) && estate_record(info)
                    == self@.estates[estate_id],
                None => !self@.estates.contains_key(estate_id),
            },
    {
        match self.estates.get(&estate_id) {
            Some(info) => Some(
                EstateInfo { metaverse_id: info.metaverse_id, land_units: copy_coordinates(&info.land_units) },
            ),
            None => None,
        }
    }

    /// The owner of estate `estate_id`.
    pub fn get_estate_owner(&self, estate_id: EstateId) -> (r: Option<OwnerId>)
        requires
            self.wf(),
        ensures
            r == (if self@.estate_owner.contains_key(estate_id) {
                Some(self@.estate_owner[estate_id])
            } else {
                None
            }),
    {
        match self.estate_owner.get(&estate_id) {
            Some(o) => Some(*o),
            None => None,
        }
    }

    /// The undeployed land block `id`.
    pub fn get_undeployed_land_block(&self, id: UndeployedLandBlockId) -> (r: Option<
        UndeployedLandBlock,
    >)
        requires
            self.wf(),
        ensures
            r == (if self@.undeployed_land_blocks.contains_key(id) {
                Some(self@.undeployed_land_blocks[id])
            } else {
                None
            }),
    {
        match self.undeployed_land_blocks.get(&id) {
            Some(b) => Some(*b),
            None => None,
        }
    }

    /// Whether `account` is indexed as the owner of undeployed land block `id`.
    pub fn get_undeployed_land_block_owner(&self, account: AccountId, id: UndeployedLandBlockId) -> (r:
        Option<()>)
        requires
            self.wf(),
        ensures
            r == (if self@.undeployed_land_blocks_owner.contains(
                BlockOwnerKey { account, block: id },
            ) {
                Some(())
            } else {
                None
            }),
    {
        if self.undeployed_land_blocks_owner.contains_key(&BlockOwnerKey { account, block: id }) {
            Some(())
        } else {
            None
        }
    }

    /// Takes the next estate identifier and advances the counter.
    fn get_new_estate_id(&mut self) -> (r: Result<EstateId, DispatchError>)
        ensures
            final(self).spec_runtime() == old(self).spec_runtime(),
            r == (if old(self)@.next_estate_id == u64::MAX {
                Err(DispatchError::Module(Error::NoAvailableEstateId))
            } else {
                Ok::<EstateId, DispatchError>(old(self)@.next_estate_id)
            }),
            final(self)@ == (if r is Ok {
                EstateState { next_estate_id: (old(self)@.next_estate_id + 1) as EstateId, ..old(self)@ }
            } else {
                old(self)@
            }),
            final(self).land_units == old(self).land_units,
            final(self).estates == old(self).estates,
            final(self).estate_owner == old(self).estate_owner,
            final(self).undeployed_land_blocks == old(self).undeployed_land_blocks,
            final(self).undeployed_land_blocks_owner == old(self).undeployed_land_blocks_owner,
    {
        let current_id = self.next_estate_id;
        match current_id.checked_add(1) {
            Some(next) => {
                self.next_estate_id = next;
                Ok(current_id)
            },
            None => Err(DispatchError::Module(Error::NoAvailableEstateId)),
        }
    }

    /// Takes the next undeployed land block identifier and advances the counter.
    fn get_new_undeployed_land_block_id(&mut self) -> (r: Result<UndeployedLandBlockId, DispatchError>)
        ensures
            final(self).spec_runtime() == old(self).spec_runtime(),
            r == (if old(self)@.next_undeployed_land_block_id == u128::MAX {
                Err(DispatchError::Module(Error::NoAvailableEstateId))
            } else {
                Ok::<UndeployedLandBlockId, DispatchError>(old(self)@.next_undeployed_land_block_id)
            }),
            final(self)@ == (if r is Ok {
                EstateState {
                    next_undeployed_land_block_id: (old(self)@.next_undeployed_land_block_id
                        + 1) as UndeployedLandBlockId,
                    ..old(self)@
                }
            } else {
                old(self)@
            }),
            final(self).land_units == old(self).land_units,
            final(self).estates == old(self).estates,
            final(self).estate_owner == old(self).estate_owner,
            final(self).undeployed_land_blocks == old(self).undeployed_land_blocks,
            final(self).undeployed_land_blocks_owner == old(self).undeployed_land_blocks_owner,
    {
        let current_id = self.next_undeployed_land_block_id;
        match current_id.checked_add(1) {
            Some(next) => {
                self.next_undeployed_land_block_id = next;
                Ok(current_id)
            },
            None => Err(DispatchError::Module(Error::NoAvailableEstateId)),
        }
    }

    /// Adds `total` to, or with `deduct` takes it from, the number of land units
    /// in undeployed land blocks.
    fn set_total_undeployed_land_unit(&mut self, total: u64, deduct: bool) -> (r: Result<
        (),
        DispatchError,
    >)
        ensures
            final(self).spec_runtime() == old(self).spec_runtime(),
            r == (if deduct && old(self)@.total_undeployed_land_unit < total {
                Err(DispatchError::Other("Overflow deducting new count to total undeployed lands"))
            } else if !deduct && old(self)@.total_undeployed_land_unit + total > u64::MAX {
                Err(DispatchError::Other("Overflow adding new count to total undeployed lands"))
            } else {
                Ok::<(), DispatchError>(())
            }),
            final(self)@ == (if r is Ok {
                EstateState {
                    total_undeployed_land_unit: (if deduct {
                        old(self)@.total_undeployed_land_unit - total
                    } else {
                        old(self)@.total_undeployed_land_unit + total
                    }) as u64,
                    ..old(self)@
                }
            } else {
                old(self)@
            }),
            final(self).land_units == old(self).land_units,
            final(self).estates == old(self).estates,
            final(self).estate_owner == old(self).estate_owner,
            final(self).undeployed_land_blocks == old(self).undeployed_land_blocks,
            final(self).undeployed_land_blocks_owner == old(self).undeployed_land_blocks_owner,
    {
        let current = self.total_undeployed_land_unit;
        if deduct {
            match current.checked_sub(total) {
                Some(v) => {
                    self.total_undeployed_land_unit = v;
                    Ok(())
                },
                None => Err(DispatchError::Other("Overflow deducting new count to total undeployed lands")),
            }
        } else {
            match current.checked_add(total) {
                Some(v) => {
                    self.total_undeployed_land_unit = v;
                    Ok(())
                },
                None => Err(DispatchError::Other("Overflow adding new count to total undeployed lands")),
            }
        }
    }

    /// Adds `total` to, or with `deduct` takes it from, the number of land units.
    fn set_total_land_unit(&mut self, total: u64, deduct: bool) -> (r: Result<(), DispatchError>)
        ensures
            final(self).spec_runtime() == old(self).spec_runtime(),
            r == (if deduct && old(self)@.all_land_units_count < total {
                Err(DispatchError::Other("Overflow deducting new count to total lands"))
            } else if !deduct && old(self)@.all_land_units_count + total > u64::MAX {
                Err(DispatchError::Other("Overflow adding new count to total lands"))
            } else {
                Ok::<(), DispatchError>(())
            }),
            final(self)@ == (if r is Ok {
                EstateState {
                    all_land_units_count: (if deduct {
                        old(self)@.all_land_units_count - total
                    } else {
                        old(self)@.all_land_units_count + total
                    }) as u64,
                    ..old(self)@
                }
            } else {
                old(self)@
            }),
            final(self).land_units == old(self).land_units,
            final(self).estates == old(self).estates,
            final(self).estate_owner == old(self).estate_owner,
            final(self).undeployed_land_blocks == old(self).undeployed_land_blocks,
            final(self).undeployed_land_blocks_owner == old(self).undeployed_land_blocks_owner,
    {
        let current = self.all_land_units_count;
        if deduct {
            match current.checked_sub(total) {
                Some(v) => {
                    self.all_land_units_count = v;
                    Ok(())
                },
                None => Err(DispatchError::Other("Overflow deducting new count to total lands")),
            }
        } else {
            match current.checked_add(total) {
                Some(v) => {
                    self.all_land_units_count = v;
                    Ok(())
                },
                None => Err(DispatchError::Other("Overflow adding new count to total lands")),
            }
        }
    }

    /// Freezes undeployed land block `id`.
    fn do_freeze_undeployed_land_block(&mut self, id: UndeployedLandBlockId) -> (r: Result<
        UndeployedLandBlockId,
        DispatchError,
    >)
        requires
            old(self).wf(),
        ensures
            final(self).wf(),
            final(self).spec_runtime() == old(self).spec_runtime(),
            final(self)@ == after(old(self)@, freeze_step(old(self)@, id)),
            r == (match freeze_step(old(self)@, id) {
                Ok(_) => Ok::<UndeployedLandBlockId, DispatchError>(id),
                Err(e) => Err(e),
            }),
    {
        let block = match self.undeployed_land_blocks.get(&id) {
            Some(b) => *b,
            None => return Err(DispatchError::Module(Error::UndeployedLandBlockNotFound)),
        };
        if block.is_locked {
            return Err(DispatchError::Module(Error::UndeployedLandBlockAlreadyFreezed));
        }
        self.undeployed_land_blocks.insert(id, UndeployedLandBlock { is_locked: true, ..block });
        self.events.push(Event::UndeployedLandBlockFreezed(id));
        proof {
            self.lemma_block_update_keeps_inv(old(self), id);
        }
        Ok(id)
    }

    /// Freezes undeployed land block `id`; root only.
    pub fn freeze_undeployed_land_blocks(&mut self, origin: Origin, id: UndeployedLandBlockId) -> (r:
        Result<(), DispatchError>)
        requires
            old(self).wf(),
        ensures
            final(self).wf(),
            final(self).spec_runtime() == old(self).spec_runtime(),
            !(origin is Root) ==> r == Err::<(), DispatchError>(DispatchError::BadOrigin) && final(self)@
                == old(self)@,
            origin is Root ==> final(self)@ == after(old(self)@, freeze_step(old(self)@, id)) && r == (
            match freeze_step(old(self)@, id) {
                Ok(_) => Ok::<(), DispatchError>(()),
                Err(e) => Err(e),
            }),
    {
        ensure_root(origin)?;
        self.do_freeze_undeployed_land_block(id)?;
        Ok(())
    }

    /// Unfreezes undeployed land block `id`; root only.
    pub fn unfreeze_undeployed_land_blocks(&mut self, origin: Origin, id: UndeployedLandBlockId) -> (r:
        Result<(), DispatchError>)
        requires
            old(self).wf(),
        ensures
            final(self).wf(),
            final(self).spec_runtime() == old(self).spec_runtime(),
            final(self)@ == after(old(self)@, unfreeze_step(old(self)@, origin, id)),
            r == (match unfreeze_step(old(self)@, origin, id) {
                Ok(_) => Ok::<(), DispatchError>(()),
                Err(e) => Err(e),
            }),
            !(origin is Root) ==> r == Err::<(), DispatchError>(DispatchError::BadOrigin) && final(self)@
                == old(self)@,
    {
        proof {
            law_only_root_unfreezes(old(self)@, origin, id);
        }
        ensure_root(origin)?;
        let block = match self.undeployed_land_blocks.get(&id) {
            Some(b) => *b,
            None => return Err(DispatchError::Module(Error::UndeployedLandBlockNotFound)),
        };
        if !block.is_locked {
            return Err(DispatchError::Module(Error::UndeployedLandBlockNotFrozen));
        }
        self.undeployed_land_blocks.insert(id, UndeployedLandBlock { is_locked: false, ..block });
        self.events.push(Event::UndeployedLandBlockUnfreezed(id));
        proof {
            self.lemma_block_update_keeps_inv(old(self), id);
        }
        Ok(())
    }

    /// Approves `to` to use undeployed land block `id`; the block's owner only.
    pub fn approve_undeployed_land_blocks(
        &mut self,
        origin: Origin,
        to: AccountId,
        id: UndeployedLandBlockId,
    ) -> (r: Result<(), DispatchError>)
        requires
            old(self).wf(),
        ensures
            final(self).wf(),
            final(self).spec_runtime() == old(self).spec_runtime(),
            ({
                let step = approval_step(
                    old(self)@,
                    origin,
                    id,
                    Some(to),
                    Event::UndeployedLandBlockApproved(origin->Signed_0, to, id),
                );
                &&& final(self)@ == after(old(self)@, step)
                &&& r == (match step {
                    Ok(_) => Ok::<(), DispatchError>(()),
                    Err(e) => Err(e),
                })
            }),
    {
        let who = ensure_signed(origin)?;
        let block = match self.undeployed_land_blocks.get(&id) {
            Some(b) => *b,
            None => return Err(DispatchError::Module(Error::UndeployedLandBlockNotFound)),
        };
        if block.owner != who {
            return Err(DispatchError::Module(Error::NoPermission));
        }
        if block.is_locked {
            return Err(DispatchError::Module(Error::UndeployedLandBlockAlreadyFreezed));
        }
        self.undeployed_land_blocks.insert(id, UndeployedLandBlock { approved: Some(to), ..block });
        self.events.push(Event::UndeployedLandBlockApproved(who, to, id));
        proof {
            self.lemma_block_update_keeps_inv(old(self), id);
        }
        Ok(())
    }

    /// Withdraws any approval on undeployed land block `id`; the block's owner only.
    pub fn unapprove_undeployed_land_blocks(&mut self, origin: Origin, id: UndeployedLandBlockId) -> (r:
        Result<(), DispatchError>)
        requires
            old(self).wf(),
        ensures
            final(self).wf(),
            final(self).spec_runtime() == old(self).spec_runtime(),
            ({
                let step = approval_step(
                    old(self)@,
                    origin,
                    id,
                    None,
                    Event::UndeployedLandBlockUnapproved(id),
                );
                &&& final(self)@ == after(old(self)@, step)
                &&& r == (match step {
                    Ok(_) => Ok::<(), DispatchError>(()),
                    Err(e) => Err(e),
                })
            }),
    {
        let who = ensure_signed(origin)?;
        let block = match self.undeployed_land_blocks.get(&id) {
            Some(b) => *b,
            None => return Err(DispatchError::Module(Error::UndeployedLandBlockNotFound)),
        };
        if block.owner != who {
            return Err(DispatchError::Module(Error::NoPermission));
        }
        if block.is_locked {
            return Err(DispatchError::Module(Error::UndeployedLandBlockAlreadyFreezed));
        }
        self.undeployed_land_blocks.insert(id, UndeployedLandBlock { approved: None, ..block });
        self.events.push(Event::UndeployedLandBlockUnapproved(id));
        proof {
            self.lemma_block_update_keeps_inv(old(self), id);
        }
        Ok(())
    }

    /// Moves undeployed land block `id` from `who` to `to`.
    fn do_transfer_undeployed_land_block(
        &mut self,
        who: AccountId,
        to: AccountId,
        id: UndeployedLandBlockId,
    ) -> (r: Result<UndeployedLandBlockId, DispatchError>)
        requires
            old(self).wf(),
        ensures
            final(self).wf(),
            final(self).spec_runtime() == old(self).spec_runtime(),
            final(self)@ == after(old(self)@, transfer_block_step(old(self)@, who, to, id)),
            r == (match transfer_block_step(old(self)@, who, to, id) {
                Ok(_) => Ok::<UndeployedLandBlockId, DispatchError>(id),
                Err(e) => Err(e),
            }),
    {
        let block = match self.undeployed_land_blocks.get(&id) {
            Some(b) => *b,
            None => return Err(DispatchError::Module(Error::UndeployedLandBlockNotFound)),
        };
        if block.owner != who {
            return Err(DispatchError::Module(Error::NoPermission));
        }
        if block.is_locked {
            return Err(DispatchError::Module(Error::UndeployedLandBlockAlreadyFreezed));
        }
        if block.undeployed_land_block_type != UndeployedLandBlockType::Transferable {
            return Err(DispatchError::Module(Error::UndeployedLandBlockIsNotTransferable));
        }
        self.undeployed_land_blocks.insert(id, UndeployedLandBlock { owner: to, ..block });
        self.undeployed_land_blocks_owner.remove(&BlockOwnerKey { account: who, block: id });
        self.undeployed_land_blocks_owner.insert(BlockOwnerKey { account: to, block: id }, ());
        self.events.push(Event::UndeployedLandBlockTransferred(who, to, id));
        proof {
            let prev = old(self)@;
            let cur = self@;
            assert(cur.estates =~= prev.estates);
            assert(cur.undeployed_land_blocks_owner =~= prev.undeployed_land_blocks_owner.remove(
                BlockOwnerKey { account: who, block: id },
            ).insert(BlockOwnerKey { account: to, block: id }));
            assert forall|k: BlockOwnerKey| #[trigger]
                cur.undeployed_land_blocks_owner.contains(k) implies cur.undeployed_land_blocks.contains_key(
                k.block,
            ) && cur.undeployed_land_blocks[k.block].owner == k.account by {
                if k != (BlockOwnerKey { account: to, block: id }) {
                    assert(prev.undeployed_land_blocks_owner.contains(k));
                }
            }
        }
        Ok(id)
    }

    /// Moves undeployed land block `id` from the caller to `to`.
    pub fn transfer_undeployed_land_blocks(
        &mut self,
        origin: Origin,
        to: AccountId,
        id: UndeployedLandBlockId,
    ) -> (r: Result<(), DispatchError>)
        requires
            old(self).wf(),
        ensures
            final(self).wf(),
            final(self).spec_runtime() == old(self).spec_runtime(),
            !(origin is Signed) ==> r == Err::<(), DispatchError>(DispatchError::BadOrigin)
                && final(self)@ == old(self)@,
            origin is Signed ==> ({
                let step = transfer_block_step(old(self)@, origin->Signed_0, to, id);
                &&& final(self)@ == after(old(self)@, step)
                &&& r == (match step {
                    Ok(_) => Ok::<(), DispatchError>(()),
                    Err(e) => Err(e),
                })
            }),
    {
        let who = ensure_signed(origin)?;
        self.do_transfer_undeployed_land_block(who, to, id)?;
        Ok(())
    }

    /// Takes block `id` out of the undeployed land (see [`consume_block`]),
    /// failing where the total holds fewer land units than the block.
    fn consume_undeployed_land_block(&mut self, id: UndeployedLandBlockId) -> (r: Result<(), DispatchError>)
        requires
            old(self).wf(),
            old(self)@.undeployed_land_blocks.contains_key(id),
        ensures
            final(self).wf(),
            final(self).spec_runtime() == old(self).spec_runtime(),
            r == (if old(self)@.total_undeployed_land_unit < old(self)@.undeployed_land_blocks[id].number_land_units {
                Err(DispatchError::Other("Overflow deducting new count to total undeployed lands"))
            } else {
                Ok::<(), DispatchError>(())
            }),
            r is Ok ==> final(self)@ == consume_block(old(self)@, id),
            r is Err ==> final(self)@ == old(self)@,
            final(self).land_units == old(self).land_units,
    {
        let block = match self.undeployed_land_blocks.get(&id) {
            Some(b) => *b,
            None => return Err(DispatchError::Module(Error::UndeployedLandBlockNotFound)),
        };
        self.set_total_undeployed_land_unit(block.number_land_units as u64, true)?;
        self.undeployed_land_blocks_owner.remove(&BlockOwnerKey { account: block.owner, block: id });
        self.undeployed_land_blocks.remove(&id);
        self.events.push(Event::UndeployedLandBlockBurnt(id));
        proof {
            let prev = old(self)@;
            let cur = self@;
            assert(cur.estates =~= prev.estates);
            assert forall|k: BlockOwnerKey| #[trigger]
                cur.undeployed_land_blocks_owner.contains(k) implies cur.undeployed_land_blocks.contains_key(
                k.block,
            ) && cur.undeployed_land_blocks[k.block].owner == k.account by {
                assert(prev.undeployed_land_blocks_owner.contains(k));
            }
            assert(cur =~= consume_block(prev, id));
        }
        Ok(())
    }

    /// Burns undeployed land block `id`, which must be frozen.
    fn do_burn_undeployed_land_block(&mut self, id: UndeployedLandBlockId) -> (r: Result<
        UndeployedLandBlockId,
        DispatchError,
    >)
        requires
            old(self).wf(),
        ensures
            final(self).wf(),
            final(self).spec_runtime() == old(self).spec_runtime(),
            final(self)@ == after(old(self)@, burn_step(old(self)@, id)),
            r == (match burn_step(old(self)@, id) {
                Ok(_) => Ok::<UndeployedLandBlockId, DispatchError>(id),
                Err(e) => Err(e),
            }),
            final(self).land_units == old(self).land_units,
    {
        let block = match self.undeployed_land_blocks.get(&id) {
            Some(b) => *b,
            None => return Err(DispatchError::Module(Error::UndeployedLandBlockNotFound)),
        };
        if !block.is_locked {
            return Err(DispatchError::Module(Error::OnlyFrozenUndeployedLandBlockCanBeDestroyed));
        }
        self.consume_undeployed_land_block(id)?;
        Ok(id)
    }

    /// Burns frozen undeployed land block `id`, reducing the total supply; root
    /// only.
    pub fn burn_undeployed_land_blocks(&mut self, origin: Origin, id: UndeployedLandBlockId) -> (r:
        Result<(), DispatchError>)
        requires
            old(self).wf(),
        ensures
            final(self).wf(),
            final(self).spec_runtime() == old(self).spec_runtime(),
            !(origin is Root) ==> r == Err::<(), DispatchError>(DispatchError::BadOrigin) && final(self)@
                == old(self)@,
            origin is Root ==> final(self)@ == after(old(self)@, burn_step(old(self)@, id)) && r == (
            match burn_step(old(self)@, id) {
                Ok(_) => Ok::<(), DispatchError>(()),
                Err(e) => Err(e),
            }),
    {
        ensure_root(origin)?;
        self.do_burn_undeployed_land_block(id)?;
        Ok(())
    }

    /// Issues `n` undeployed land blocks of `units` land units each to
    /// `beneficiary`, giving back their identifiers.
    fn do_issue_undeployed_land_blocks(
        &mut self,
        beneficiary: AccountId,
        n: u32,
        units: u32,
        block_type: UndeployedLandBlockType,
    ) -> (r: Result<Vec<UndeployedLandBlockId>, DispatchError>)
        requires
            old(self).wf(),
        ensures
            final(self).wf(),
            final(self).spec_runtime() == old(self).spec_runtime(),
            final(self)@ == after(old(self)@, issue_step(old(self)@, beneficiary, n, units, block_type)),
            match r {
                Ok(ids) => issue_step(old(self)@, beneficiary, n, units, block_type) is Ok && ids@
                    == issued_ids(old(self)@, n as nat),
                Err(e) => issue_step(old(self)@, beneficiary, n, units, block_type) == Err::<
                    EstateState,
                    DispatchError,
                >(e),
            },
    {
        let ghost s0 = self@;
        let saved_blocks = self.undeployed_land_blocks.duplicate();
        let saved_owners = self.undeployed_land_blocks_owner.duplicate();
        let saved_next = self.next_undeployed_land_block_id;
        let saved_total = self.total_undeployed_land_unit;
        let saved_events = self.events.len();
        let mut ids: Vec<UndeployedLandBlockId> = Vec::new();
        let mut k: u32 = 0;
        proof {
            assert(self@ =~= issued_state(s0, beneficiary, 0, units, block_type));
        }
        while k < n
            invariant
                k <= n,
                self.wf(),
                self.spec_runtime() == old(self).spec_runtime(),
                s0 == old(self)@,
                state_inv(s0),
                self@ == issued_state(s0, beneficiary, k as nat, units, block_type),
                s0.next_undeployed_land_block_id + k <= u128::MAX,
                s0.total_undeployed_land_unit + k * units <= u64::MAX,
                ids@ == issued_ids(s0, k as nat),
                saved_blocks.wf(),
                saved_blocks@ == old(self).undeployed_land_blocks@,
                saved_owners.wf(),
                saved_owners@ == old(self).undeployed_land_blocks_owner@,
                saved_next == s0.next_undeployed_land_block_id,
                saved_total == s0.total_undeployed_land_unit,
                saved_events == s0.events.len(),
                self.land_units == old(self).land_units,
                self.estates == old(self).estates,
                self.estate_owner == old(self).estate_owner,
            decreases n - k,
        {
            let ghost before = self@;
            let id = match self.get_new_undeployed_land_block_id() {
                Ok(id) => id,
                Err(e) => {
                    proof {
                        assert((u128::MAX - s0.next_undeployed_land_block_id) == k);
                    }
                    self.undeployed_land_blocks = saved_blocks;
                    self.undeployed_land_blocks_owner = saved_owners;
                    self.next_undeployed_land_block_id = saved_next;
                    self.total_undeployed_land_unit = saved_total;
                    self.events.truncate(saved_events);
                    proof {
                        assert(self@ =~= s0);
                    }
                    return Err(e);
                },
            };
            match self.set_total_undeployed_land_unit(units as u64, false) {
                Ok(()) => {},
                Err(e) => {
                    proof {
                        assert(s0.total_undeployed_land_unit + (k + 1) * units > u64::MAX) by (nonlinear_arith)
                            requires
                                s0.total_undeployed_land_unit + k * units + units > u64::MAX,
                        ;
                        if s0.next_undeployed_land_block_id + n > u128::MAX {
                            assert(u128::MAX - s0.next_undeployed_land_block_id >= k + 1);
                            assert((u128::MAX - s0.next_undeployed_land_block_id) * units >= (k + 1)
                                * units) by (nonlinear_arith)
                                requires
                                    u128::MAX - s0.next_undeployed_land_block_id >= k + 1,
                            ;
                        }
                        assert(n * units >= (k + 1) * units) by (nonlinear_arith)
                            requires
                                n >= k + 1,
                        ;
                    }
                    self.undeployed_land_blocks = saved_blocks;
                    self.undeployed_land_blocks_owner = saved_owners;
                    self.next_undeployed_land_block_id = saved_next;
                    self.total_undeployed_land_unit = saved_total;
                    self.events.truncate(saved_events);
                    proof {
                        assert(self@ =~= s0);
                    }
                    return Err(e);
                },
            }
            self.undeployed_land_blocks.insert(
                id,
                UndeployedLandBlock {
                    id,
                    number_land_units: units,
                    undeployed_land_block_type: block_type,
                    approved: None,
                    is_locked: false,
                    owner: beneficiary,
                },
            );
            self.undeployed_land_blocks_owner.insert(BlockOwnerKey { account: beneficiary, block: id }, ());
            self.events.push(Event::UndeployedLandBlockIssued(beneficiary, id));
            ids.push(id);
            k = k + 1;
            proof {
                assert((k - 1) * units + units == k * units) by (nonlinear_arith);
                let want = issued_state(s0, beneficiary, k as nat, units, block_type);
                let cur = self@;
                assert(id == s0.next_undeployed_land_block_id + (k - 1));
                assert(cur.undeployed_land_blocks =~= want.undeployed_land_blocks);
                assert(cur.undeployed_land_blocks_owner =~= want.undeployed_land_blocks_owner);
                assert(issued_ids(s0, k as nat) =~= issued_ids(s0, (k - 1) as nat).push(id));
                assert(ids@ =~= issued_ids(s0, k as nat));
                assert(cur.events =~= want.events);
                assert(cur.estates =~= want.estates);
                assert(cur =~= want);
                assert forall|b: UndeployedLandBlockId| #[trigger]
                    cur.undeployed_land_blocks.contains_key(b) implies b
                    < cur.next_undeployed_land_block_id && cur.undeployed_land_blocks[b].id == b by {
                    if b != id {
                        assert(before.undeployed_land_blocks.contains_key(b));
                    }
                }
                assert forall|key: BlockOwnerKey| #[trigger]
                    cur.undeployed_land_blocks_owner.contains(key) implies cur.undeployed_land_blocks.contains_key(
                    key.block,
                ) && cur.undeployed_land_blocks[key.block].owner == key.account by {
                    if key != (BlockOwnerKey { account: beneficiary, block: id }) {
                        assert(before.undeployed_land_blocks_owner.contains(key));
                        assert(before.undeployed_land_blocks.contains_key(key.block));
                        assert(key.block != id);
                    }
                }
            }
        }
        Ok(ids)
    }

    /// Issues `n` undeployed land blocks of `units` land units each to
    /// `beneficiary`; root only.
    pub fn issue_undeployed_land_blocks(
        &mut self,
        origin: Origin,
        beneficiary: AccountId,
        number_of_land_block: u32,
        number_land_units_per_land_block: u32,
        undeployed_land_block_type: UndeployedLandBlockType,
    ) -> (r: Result<(), DispatchError>)
        requires
            old(self).wf(),
        ensures
            final(self).wf(),
            final(self).spec_runtime() == old(self).spec_runtime(),
            !(origin is Root) ==> r == Err::<(), DispatchError>(DispatchError::BadOrigin) && final(self)@
                == old(self)@,
            origin is Root ==> ({
                let step = issue_step(
                    old(self)@,
                    beneficiary,
                    number_of_land_block,
                    number_land_units_per_land_block,
                    undeployed_land_block_type,
                );
                &&& final(self)@ == after(old(self)@, step)
                &&& r == (match step {
                    Ok(_) => Ok::<(), DispatchError>(()),
                    Err(e) => Err(e),
                })
            }),
    {
        ensure_root(origin)?;
        self.do_issue_undeployed_land_blocks(
            beneficiary,
            number_of_land_block,
            number_land_units_per_land_block,
            undeployed_land_block_type,
        )?;
        Ok(())
    }

    /// Whether `who` holds the token that owns a land unit (or, with
    /// `is_estate_owner`, an estate) of `metaverse_id` (see [`holds`]).  An
    /// owner that is an account never counts; for a token, the runtime is
    /// asked, and a failure to answer counts as no.
    fn check_if_land_or_estate_owner(
        &self,
        who: AccountId,
        owner_id: OwnerId,
        is_estate_owner: bool,
        metaverse_id: MetaverseId,
    ) -> (r: bool)
        ensures
            r == holds(self.spec_runtime(), who, owner_id, is_estate_owner, metaverse_id),
    {
        match owner_id {
            OwnerId::Token(asset_id) => {
                let class_id = if is_estate_owner {
                    match self.runtime.get_metaverse_estate_class(metaverse_id) {
                        Ok(c) => c,
                        Err(_) => 0,
                    }
                } else {
                    match self.runtime.get_metaverse_land_class(metaverse_id) {
                        Ok(c) => c,
                        Err(_) => 0,
                    }
                };
                match self.runtime.check_ownership(&who, &(class_id, asset_id)) {
                    Ok(b) => b,
                    Err(_) => false,
                }
            },
            OwnerId::Account(_) => false,
        }
    }

    /// Mints a land unit token for `beneficiary` at `coordinate`, giving back its owner.
    fn mint_new_token(
        &mut self,
        metaverse_id: MetaverseId,
        beneficiary: AccountId,
        coordinate: (i32, i32),
    ) -> (r: Result<OwnerId, DispatchError>)
        ensures
            final(self)@ == old(self)@,
            final(self).land_units == old(self).land_units,
            final(self).estates == old(self).estates,
            final(self).estate_owner == old(self).estate_owner,
            final(self).undeployed_land_blocks == old(self).undeployed_land_blocks,
            final(self).undeployed_land_blocks_owner == old(self).undeployed_land_blocks_owner,
            land_token_minted(
                old(self).spec_runtime(),
                final(self).spec_runtime(),
                metaverse_id,
                beneficiary,
                coordinate,
                r,
            ),
    {
        let token_properties = get_land_token_properties(metaverse_id, coordinate);
        let class_id = self.runtime.get_metaverse_land_class(metaverse_id)?;
        let asset_id = self.runtime.mint_token(
            &beneficiary,
            class_id,
            token_properties.0,
            token_properties.1,
        )?;
        Ok(OwnerId::Token(asset_id))
    }

    /// Records the land unit at `coordinate` of `metaverse_id` as owned by a
    /// token.  A new land unit (`NonExisting`) must not be recorded yet and gets
    /// a token minted for `beneficiary`; an existing one must be recorded, keeps
    /// its token if it has one, and otherwise gets one minted for `beneficiary`.
    fn mint_land_unit(
        &mut self,
        metaverse_id: MetaverseId,
        beneficiary: AccountId,
        coordinate: (i32, i32),
        land_unit_status: LandUnitStatus,
    ) -> (r: Result<OwnerId, DispatchError>)
        requires
            old(self).wf_core(),
        ensures
            final(self).wf_core(),
            ({
                let key = land_key(metaverse_id, coordinate);
                let before = old(self)@;
                &&& (land_unit_status is NonExisting && before.land_units.contains_key(key)) || (
                land_unit_status is Existing && !before.land_units.contains_key(key)) ==> r
                    == Err::<OwnerId, DispatchError>(
                    DispatchError::Module(Error::LandUnitIsNotAvailable),
                ) && final(self).spec_runtime() == old(self).spec_runtime()
                &&& (land_unit_status is NonExisting && !before.land_units.contains_key(key)) || (
                land_unit_status is Existing && before.land_units.contains_key(key)
                    && before.land_units[key] is Account) ==> land_token_minted(
                    old(self).spec_runtime(),
                    final(self).spec_runtime(),
                    metaverse_id,
                    beneficiary,
                    coordinate,
                    r,
                )
                &&& land_unit_status is Existing && before.land_units.contains_key(key)
                    && before.land_units[key] is Token ==> r == Ok::<OwnerId, DispatchError>(
                    before.land_units[key],
                ) && final(self).spec_runtime() == old(self).spec_runtime()
                &&& match r {
                    Ok(owner) => {
                        &&& owner is Token
                        &&& final(self)@ == EstateState {
                            land_units: before.land_units.insert(key, owner),
                            ..before
                        }
                    },
                    Err(_) => final(self)@ == before,
                }
            }),
            final(self).estates == old(self).estates,
            final(self).estate_owner == old(self).estate_owner,
            final(self).undeployed_land_blocks == old(self).undeployed_land_blocks,
            final(self).undeployed_land_blocks_owner == old(self).undeployed_land_blocks_owner,
    {
        let key = LandUnitKey { metaverse_id, x: coordinate.0, y: coordinate.1 };
        let owner = match land_unit_status {
            LandUnitStatus::Existing(_) => {
                match self.land_units.get(&key) {
                    None => return Err(DispatchError::Module(Error::LandUnitIsNotAvailable)),
                    Some(OwnerId::Token(t)) => OwnerId::Token(*t),
                    Some(OwnerId::Account(_)) => self.mint_new_token(
                        metaverse_id,
                        beneficiary,
                        coordinate,
                    )?,
                }
            },
            LandUnitStatus::NonExisting => {
                if self.land_units.contains_key(&key) {
                    return Err(DispatchError::Module(Error::LandUnitIsNotAvailable));
                }
                self.mint_new_token(metaverse_id, beneficiary, coordinate)?
            },
        };
        let ghost mid = self@;
        self.land_units.insert(key, owner);
        proof {
            let cur = self@;
            assert(cur.estates =~= mid.estates);
            self.land_units.lemma_entries();
            if land_unit_status is Existing && old(self)@.land_units[key] is Token {
                assert(cur.land_units =~= old(self)@.land_units);
            }
        }
        Ok(owner)
    }

    /// Mints new land units at `coordinates` for `beneficiary`, stopping at
    /// the first failure.  On success the units are fresh; on failure the
    /// table of land units may hold some of them.
    fn mint_fresh_land_units(
        &mut self,
        metaverse_id: MetaverseId,
        beneficiary: AccountId,
        coordinates: &Vec<(i32, i32)>,
    ) -> (r: Result<(), DispatchError>)
        requires
            old(self).wf_core(),
        ensures
            final(self).wf_core(),
            coordinates@.len() == 0 ==> r is Ok && final(self)@ == old(self)@,
            r is Ok ==> land_tokens_minted(
                old(self).spec_runtime(),
                final(self).spec_runtime(),
                metaverse_id,
                beneficiary,
                coordinates@,
                final(self)@.land_units,
            ),
            coordinates@.len() > 0 && old(self)@.land_units.contains_key(land_key(metaverse_id, coordinates@[0]))
                ==> r == Err::<(), DispatchError>(DispatchError::Module(Error::LandUnitIsNotAvailable))
                && final(self).spec_runtime() == old(self).spec_runtime(),
            coordinates@.len() > 0 && !old(self)@.land_units.contains_key(land_key(metaverse_id, coordinates@[0]))
                && old(self).spec_runtime().land_class(metaverse_id) is Err ==> r == Err::<(), DispatchError>(
                old(self).spec_runtime().land_class(metaverse_id)->Err_0,
            ) && final(self).spec_runtime() == old(self).spec_runtime(),
            r is Ok ==> fresh_land_units(
                old(self)@.land_units,
                final(self)@.land_units,
                metaverse_id,
                coordinates@,
            ) && final(self)@.land_units.dom().len() == old(self)@.land_units.dom().len()
                + coordinates@.len(),
            coordinates_unavailable(old(self)@.land_units, metaverse_id, coordinates@) ==> (r is Err),
            mints_land(old(self).spec_runtime(), metaverse_id) ==> r == if coordinates_unavailable(
                old(self)@.land_units,
                metaverse_id,
                coordinates@,
            ) {
                Err::<(), DispatchError>(DispatchError::Module(Error::LandUnitIsNotAvailable))
            } else {
                Ok::<(), DispatchError>(())
            },
            final(self)@ == (EstateState { land_units: final(self)@.land_units, ..old(self)@ }),
            final(self).estates == old(self).estates,
            final(self).estate_owner == old(self).estate_owner,
            final(self).undeployed_land_blocks == old(self).undeployed_land_blocks,
            final(self).undeployed_land_blocks_owner == old(self).undeployed_land_blocks_owner,
    {
        let ghost s0 = self@;
        let ghost rt0 = self.spec_runtime();
        let mut i: usize = 0;
        proof {
            assert(coordinates@.take(0) =~= Seq::<(i32, i32)>::empty());
            assert(land_tokens_minted(rt0, rt0, metaverse_id, beneficiary, coordinates@.take(0), s0.land_units));
            assert(s0.land_units.dom() + coordinate_keys(metaverse_id, Seq::empty())
                =~= s0.land_units.dom());
        }
        while i < coordinates.len()
            invariant
                i <= coordinates@.len(),
                self.wf_core(),
                s0 == old(self)@,
                core_inv(s0),
                fresh_land_units(s0.land_units, self@.land_units, metaverse_id, coordinates@.take(i as int)),
                self@.land_units.dom().len() == s0.land_units.dom().len() + i,
                self@ == (EstateState { land_units: self@.land_units, ..s0 }),
                rt0 == old(self).spec_runtime(),
                land_tokens_minted(
                    rt0,
                    self.spec_runtime(),
                    metaverse_id,
                    beneficiary,
                    coordinates@.take(i as int),
                    self@.land_units,
                ),
                i == 0 ==> self@ == s0 && self.spec_runtime() == rt0,
                i > 0 ==> rt0.land_class(metaverse_id) is Ok,
                i > 0 ==> !s0.land_units.contains_key(land_key(metaverse_id, coordinates@[0])),
                self.estates == old(self).estates,
                self.estate_owner == old(self).estate_owner,
                self.undeployed_land_blocks == old(self).undeployed_land_blocks,
                self.undeployed_land_blocks_owner == old(self).undeployed_land_blocks_owner,
            decreases coordinates@.len() - i,
        {
            let ghost prev = self@.land_units;
            let ghost rt_i = self.spec_runtime();
            let coordinate = coordinates[i];
            proof {
                let t = coordinates@.take(i as int);
                assert forall|j: int| 0 <= j < t.len() implies prev.contains_key(
                    #[trigger] land_key(metaverse_id, t[j]),
                ) by {
                    assert(coordinate_keys(metaverse_id, t).contains(land_key(metaverse_id, t[j])));
                }
            }
            let res = self.mint_land_unit(metaverse_id, beneficiary, coordinate, LandUnitStatus::NonExisting);
            match res {
                Ok(_) => {},
                Err(e) => {
                    proof {
                        let key = land_key(metaverse_id, coordinate);
                        let t = coordinates@.take(i as int);
                        assert(rt_i.land_class(metaverse_id) == rt0.land_class(metaverse_id));
                        assert(mints_land(rt0, metaverse_id) ==> mints_land(rt_i, metaverse_id)) by {
                            if mints_land(rt0, metaverse_id) {
                                assert(rt_i.mintable(rt0.land_class(metaverse_id)->Ok_0) == rt0.mintable(
                                    rt0.land_class(metaverse_id)->Ok_0,
                                ));
                            }
                        }
                        if prev.contains_key(key) {
                            if s0.land_units.contains_key(key) {
                                assert(s0.land_units.contains_key(land_key(metaverse_id, coordinates@[i as int])));
                            } else {
                                assert(coordinate_keys(metaverse_id, t).contains(key));
                                let j = choose|j: int| 0 <= j < t.len() && t[j] == (key.x, key.y);
                                assert(coordinates@[j] == coordinates@[i as int]);
                                assert(!coordinates@.no_duplicates());
                            }
                            assert(coordinates_unavailable(s0.land_units, metaverse_id, coordinates@));
                        }
                    }
                    return Err(e);
                },
            }
            proof {
                let key = land_key(metaverse_id, coordinate);
                let t = coordinates@.take(i as int);
                let t2 = coordinates@.take(i + 1);
                assert(t2 =~= t.push(coordinate));
                assert(!prev.contains_key(key));
                assert(!s0.land_units.contains_key(key));
                assert(!t.contains(coordinate)) by {
                    if t.contains(coordinate) {
                        let j = choose|j: int| 0 <= j < t.len() && t[j] == coordinate;
                        assert(coordinate_keys(metaverse_id, t).contains(key));
                    }
                }
                assert(t2.no_duplicates()) by {
                    assert forall|a: int, b: int| 0 <= a < t2.len() && 0 <= b < t2.len() && a != b implies t2[a]
                        != t2[b] by {
                        if a < t.len() && b < t.len() {
                            assert(t[a] != t[b]);
                        } else if a == t.len() {
                            assert(t[b] == t2[b]);
                        } else {
                            assert(t[a] == t2[a]);
                        }
                    }
                }
                assert(coordinate_keys(metaverse_id, t2) =~= coordinate_keys(metaverse_id, t).insert(key)) by {
                    assert forall|k: LandUnitKey| #[trigger] coordinate_keys(metaverse_id, t2).contains(k)
                        <==> coordinate_keys(metaverse_id, t).insert(key).contains(k) by {
                        if coordinate_keys(metaverse_id, t2).contains(k) {
                            let j = choose|j: int| 0 <= j < t2.len() && t2[j] == (k.x, k.y);
                            if j < t.len() {
                                assert(t[j] == t2[j]);
                            }
                        }
                        if coordinate_keys(metaverse_id, t).contains(k) {
                            let j = choose|j: int| 0 <= j < t.len() && t[j] == (k.x, k.y);
                            assert(t2[j] == t[j]);
                        }
                        if k == key {
                            assert(t2[t.len() as int] == coordinate);
                        }
                    }
                }
                assert(self@.land_units.dom() =~= s0.land_units.dom() + coordinate_keys(metaverse_id, t2));
                assert forall|j: int| 0 <= j < t2.len() implies !s0.land_units.contains_key(
                    #[trigger] land_key(metaverse_id, t2[j]),
                ) by {
                    if j < t.len() {
                        assert(t[j] == t2[j]);
                    }
                }
                assert forall|j: int| 0 <= j < t2.len() implies (#[trigger] self@.land_units[land_key(
                    metaverse_id,
                    t2[j],
                )]) is Token by {
                    if j < t.len() {
                        assert(t[j] == t2[j]);
                        assert(prev.contains_key(land_key(metaverse_id, t[j])));
                    }
                }
                assert(self@.land_units.dom() == prev.dom().insert(key));
                lemma_land_tokens_step(
                    rt0,
                    rt_i,
                    self.spec_runtime(),
                    metaverse_id,
                    beneficiary,
                    t,
                    coordinate,
                    prev,
                    res->Ok_0,
                );
                assert(self@.land_units == prev.insert(key, res->Ok_0));
            }
            i = i + 1;
        }
        proof {
            assert(coordinates@.take(coordinates@.len() as int) =~= coordinates@);
        }
        Ok(())
    }

    /// Mints a new land unit at `coordinate` of `metaverse_id` for
    /// `beneficiary`; root only.
    pub fn mint_land(
        &mut self,
        origin: Origin,
        beneficiary: AccountId,
        metaverse_id: MetaverseId,
        coordinate: (i32, i32),
    ) -> (r: Result<(), DispatchError>)
        requires
            old(self).wf(),
        ensures
            final(self).wf(),
            ({
                let key = land_key(metaverse_id, coordinate);
                let before = old(self)@;
                &&& !(origin is Root) ==> r == Err::<(), DispatchError>(DispatchError::BadOrigin)
                &&& origin is Root && before.land_units.contains_key(key) ==> r == Err::<
                    (),
                    DispatchError,
                >(DispatchError::Module(Error::LandUnitIsNotAvailable))
                &&& !(origin is Root) || before.land_units.contains_key(key) ==> final(self).spec_runtime()
                    == old(self).spec_runtime()
                &&& origin is Root && !before.land_units.contains_key(key) && before.all_land_units_count
                    < u64::MAX ==> land_token_minted(
                    old(self).spec_runtime(),
                    final(self).spec_runtime(),
                    metaverse_id,
                    beneficiary,
                    coordinate,
                    match r {
                        Ok(_) => Ok::<OwnerId, DispatchError>(final(self)@.land_units[key]),
                        Err(e) => Err(e),
                    },
                )
                &&& r is Ok ==> {
                    let owner = final(self)@.land_units[key];
                    &&& !before.land_units.contains_key(key)
                    &&& owner is Token
                    &&& final(self)@ == (EstateState {
                        land_units: before.land_units.insert(key, owner),
                        all_land_units_count: (before.all_land_units_count + 1) as u64,
                        events: before.events.push(
                            Event::NewLandUnitMinted(owner, metaverse_id, coordinate),
                        ),
                        ..before
                    })
                }
                &&& r is Err ==> final(self)@ == before
            }),
    {
        ensure_root(origin)?;
        let saved_lands = self.land_units.duplicate();
        let owner = self.mint_land_unit(metaverse_id, beneficiary, coordinate, LandUnitStatus::NonExisting)?;
        proof {
            self.land_units.lemma_entries();
            saved_lands.lemma_entries();
        }
        match self.set_total_land_unit(1, false) {
            Ok(()) => {},
            Err(e) => {
                self.land_units = saved_lands;
                proof {
                    assert(self@ =~= old(self)@);
                }
                return Err(e);
            },
        }
        self.events.push(Event::NewLandUnitMinted(owner, metaverse_id, coordinate));
        proof {
            let key = land_key(metaverse_id, coordinate);
            assert(self@.land_units.dom() =~= old(self)@.land_units.dom().insert(key));
            assert(self@.land_units[key] == owner);
        }
        Ok(())
    }

    /// Mints new land units at `coordinates` of `metaverse_id` for
    /// `beneficiary`; root only.
    pub fn mint_lands(
        &mut self,
        origin: Origin,
        beneficiary: AccountId,
        metaverse_id: MetaverseId,
        coordinates: Vec<(i32, i32)>,
    ) -> (r: Result<(), DispatchError>)
        requires
            old(self).wf(),
        ensures
            final(self).wf(),
            ({
                let before = old(self)@;
                &&& !(origin is Root) ==> r == Err::<(), DispatchError>(DispatchError::BadOrigin)
                &&& coordinates_unavailable(before.land_units, metaverse_id, coordinates@) ==> (r is Err)
                &&& origin is Root && coordinates@.len() == 0 ==> r is Ok
                &&& origin is Root && mints_land(old(self).spec_runtime(), metaverse_id) ==> r == if coordinates_unavailable(
                    before.land_units,
                    metaverse_id,
                    coordinates@,
                ) {
                    Err::<(), DispatchError>(DispatchError::Module(Error::LandUnitIsNotAvailable))
                } else if before.all_land_units_count + coordinates@.len() > u64::MAX {
                    Err::<(), DispatchError>(DispatchError::Other("Overflow adding new count to total lands"))
                } else {
                    Ok::<(), DispatchError>(())
                }
                &&& !(origin is Root) ==> final(self).spec_runtime() == old(self).spec_runtime()
                &&& origin is Root && coordinates@.len() > 0 && before.land_units.contains_key(
                    land_key(metaverse_id, coordinates@[0]),
                ) ==> r == Err::<(), DispatchError>(DispatchError::Module(Error::LandUnitIsNotAvailable))
                    && final(self).spec_runtime() == old(self).spec_runtime()
                &&& origin is Root && coordinates@.len() > 0 && !before.land_units.contains_key(
                    land_key(metaverse_id, coordinates@[0]),
                ) && old(self).spec_runtime().land_class(metaverse_id) is Err ==> r == Err::<(), DispatchError>(
                    old(self).spec_runtime().land_class(metaverse_id)->Err_0,
                ) && final(self).spec_runtime() == old(self).spec_runtime()
                &&& r is Ok ==> land_tokens_minted(
                    old(self).spec_runtime(),
                    final(self).spec_runtime(),
                    metaverse_id,
                    beneficiary,
                    coordinates@,
                    final(self)@.land_units,
                )
                &&& r is Ok ==> {
                    &&& fresh_land_units(
                        before.land_units,
                        final(self)@.land_units,
                        metaverse_id,
                        coordinates@,
                    )
                    &&& final(self)@ == (EstateState {
                        land_units: final(self)@.land_units,
                        all_land_units_count: (before.all_land_units_count
                            + coordinates@.len()) as u64,
                        events: before.events.push(
                            Event::NewLandsMinted(beneficiary, metaverse_id, coordinates),
                        ),
                        ..before
                    })
                }
                &&& r is Err ==> final(self)@ == before
            }),
    {
        ensure_root(origin)?;
        let saved_lands = self.land_units.duplicate();
        match self.mint_fresh_land_units(metaverse_id, beneficiary, &coordinates) {
            Ok(()) => {},
            Err(e) => {
                self.land_units = saved_lands;
                proof {
                    assert(self@ =~= old(self)@);
                }
                return Err(e);
            },
        }
        match self.set_total_land_unit(coordinates.len() as u64, false) {
            Ok(()) => {},
            Err(e) => {
                self.land_units = saved_lands;
                proof {
                    assert(self@ =~= old(self)@);
                }
                return Err(e);
            },
        }
        self.events.push(Event::NewLandsMinted(beneficiary, metaverse_id, coordinates));
        Ok(())
    }

    /// Records a new estate `new_estate_id` of `coordinates` in `metaverse_id`,
    /// owned by a token minted for `beneficiary`.
    fn update_estate_information(
        &mut self,
        new_estate_id: EstateId,
        metaverse_id: MetaverseId,
        beneficiary: AccountId,
        coordinates: Vec<(i32, i32)>,
    ) -> (r: Result<(), DispatchError>)
        requires
            old(self).wf(),
            !old(self)@.estates.contains_key(new_estate_id),
            new_estate_id < old(self)@.next_estate_id,
        ensures
            final(self).wf(),
            old(self)@.all_estates_count == u64::MAX ==> r == Err::<(), DispatchError>(
                DispatchError::Other("Overflow adding new count to total estates"),
            ),
            old(self)@.all_estates_count < u64::MAX && old(self).spec_runtime().estate_class(metaverse_id) is Err
                ==> r == Err::<(), DispatchError>(old(self).spec_runtime().estate_class(metaverse_id)->Err_0),
            old(self)@.all_estates_count < u64::MAX && mints_estate(old(self).spec_runtime(), metaverse_id)
                ==> r is Ok,
            r is Err ==> final(self).spec_runtime() == old(self).spec_runtime(),
            r is Ok ==> estate_token_minted(
                old(self).spec_runtime(),
                final(self).spec_runtime(),
                metaverse_id,
                new_estate_id,
                beneficiary,
                final(self)@.estate_owner[new_estate_id],
            ),
            r is Ok ==> {
                let owner = final(self)@.estate_owner[new_estate_id];
                &&& owner is Token
                &&& final(self)@ == (EstateState {
                    estates: old(self)@.estates.insert(
                        new_estate_id,
                        EstateRecord { metaverse_id, land_units: coordinates@ },
                    ),
                    estate_owner: old(self)@.estate_owner.insert(new_estate_id, owner),
                    all_estates_count: (old(self)@.all_estates_count + 1) as u64,
                    events: old(self)@.events.push(
                        Event::NewEstateMinted(new_estate_id, owner, metaverse_id, coordinates),
                    ),
                    ..old(self)@
                })
            },
            r is Err ==> final(self)@ == old(self)@,
            final(self).land_units == old(self).land_units,
            final(self).undeployed_land_blocks == old(self).undeployed_land_blocks,
            final(self).undeployed_land_blocks_owner == old(self).undeployed_land_blocks_owner,
    {
        let new_total_estates_count = match self.all_estates_count.checked_add(1) {
            Some(c) => c,
            None => return Err(DispatchError::Other("Overflow adding new count to total estates")),
        };
        let token_properties = get_estate_token_properties(metaverse_id, new_estate_id);
        let class_id = self.runtime.get_metaverse_estate_class(metaverse_id)?;
        let asset_id = self.runtime.mint_token(
            &beneficiary,
            class_id,
            token_properties.0,
            token_properties.1,
        )?;
        let owner = OwnerId::Token(asset_id);
        let ghost prev = self@;
        proof {
            self.lemma_tables();
        }
        self.estates.insert(
            new_estate_id,
            EstateInfo { metaverse_id, land_units: copy_coordinates(&coordinates) },
        );
        self.estate_owner.insert(new_estate_id, owner);
        self.all_estates_count = new_total_estates_count;
        self.events.push(Event::NewEstateMinted(new_estate_id, owner, metaverse_id, coordinates));
        proof {
            self.lemma_tables();
            let cur = self@;
            assert(cur.estates =~= prev.estates.insert(
                new_estate_id,
                EstateRecord { metaverse_id, land_units: coordinates@ },
            ));
            assert(cur.estates.dom() =~= cur.estate_owner.dom());
        }
        Ok(())
    }

    /// Mints an estate of new land units at `coordinates` of `metaverse_id`
    /// for `beneficiary`; root only.
    pub fn mint_estate(
        &mut self,
        origin: Origin,
        beneficiary: AccountId,
        metaverse_id: MetaverseId,
        coordinates: Vec<(i32, i32)>,
    ) -> (r: Result<(), DispatchError>)
        requires
            old(self).wf(),
        ensures
            final(self).wf(),
            ({
                let before = old(self)@;
                let e = before.next_estate_id;
                &&& !(origin is Root) ==> r == Err::<(), DispatchError>(DispatchError::BadOrigin)
                &&& origin is Root && before.next_estate_id == u64::MAX ==> r == Err::<
                    (),
                    DispatchError,
                >(DispatchError::Module(Error::NoAvailableEstateId))
                &&& coordinates_unavailable(before.land_units, metaverse_id, coordinates@) ==> (r is Err)
                &&& origin is Root && mints_land(old(self).spec_runtime(), metaverse_id) && mints_estate(
                    old(self).spec_runtime(),
                    metaverse_id,
                ) ==> r == if e == u64::MAX {
                    Err::<(), DispatchError>(DispatchError::Module(Error::NoAvailableEstateId))
                } else if coordinates_unavailable(before.land_units, metaverse_id, coordinates@) {
                    Err::<(), DispatchError>(DispatchError::Module(Error::LandUnitIsNotAvailable))
                } else if before.all_land_units_count + coordinates@.len() > u64::MAX {
                    Err::<(), DispatchError>(DispatchError::Other("Overflow adding new count to total lands"))
                } else if before.all_estates_count == u64::MAX {
                    Err::<(), DispatchError>(DispatchError::Other("Overflow adding new count to total estates"))
                } else {
                    Ok::<(), DispatchError>(())
                }
                &&& !(origin is Root) || e == u64::MAX ==> final(self).spec_runtime() == old(self).spec_runtime()
                &&& origin is Root && e < u64::MAX && coordinates@.len() > 0 && before.land_units.contains_key(
                    land_key(metaverse_id, coordinates@[0]),
                ) ==> r == Err::<(), DispatchError>(DispatchError::Module(Error::LandUnitIsNotAvailable))
                    && final(self).spec_runtime() == old(self).spec_runtime()
                &&& r is Ok ==> exists|mid: T|
                    land_tokens_minted(
                        old(self).spec_runtime(),
                        mid,
                        metaverse_id,
                        beneficiary,
                        coordinates@,
                        final(self)@.land_units,
                    ) && estate_token_minted(
                        mid,
                        final(self).spec_runtime(),
                        metaverse_id,
                        e,
                        beneficiary,
                        final(self)@.estate_owner[e],
                    )
                &&& r is Ok ==> {
                    let owner = final(self)@.estate_owner[e];
                    &&& owner is Token
                    &&& fresh_land_units(
                        before.land_units,
                        final(self)@.land_units,
                        metaverse_id,
                        coordinates@,
                    )
                    &&& final(self)@ == (EstateState {
                        land_units: final(self)@.land_units,
                        all_land_units_count: (before.all_land_units_count
                            + coordinates@.len()) as u64,
                        next_estate_id: (e + 1) as EstateId,
                        estates: before.estates.insert(
                            e,
                            EstateRecord { metaverse_id, land_units: coordinates@ },
                        ),
                        estate_owner: before.estate_owner.insert(e, owner),
                        all_estates_count: (before.all_estates_count + 1) as u64,
                        events: before.events.push(
                            Event::NewEstateMinted(e, owner, metaverse_id, coordinates),
                        ),
                        ..before
                    })
                }
                &&& r is Err ==> final(self)@ == before
            }),
    {
        ensure_root(origin)?;
        let new_estate_id = self.get_new_estate_id()?;
        let saved_lands = self.land_units.duplicate();
        let saved_count = self.all_land_units_count;
        match self.mint_fresh_land_units(metaverse_id, beneficiary, &coordinates) {
            Ok(()) => {},
            Err(e) => {
                self.land_units = saved_lands;
                self.next_estate_id = new_estate_id;
                proof {
                    assert(self@ =~= old(self)@);
                }
                return Err(e);
            },
        }
        match self.set_total_land_unit(coordinates.len() as u64, false) {
            Ok(()) => {},
            Err(e) => {
                self.land_units = saved_lands;
                self.next_estate_id = new_estate_id;
                proof {
                    assert(self@ =~= old(self)@);
                }
                return Err(e);
            },
        }
        let ghost mid = self@;
        let ghost mid_rt = self.spec_runtime();
        proof {
            if mints_estate(old(self).spec_runtime(), metaverse_id) {
                let c = old(self).spec_runtime().estate_class(metaverse_id)->Ok_0;
                assert(mid_rt.estate_class(metaverse_id) == old(self).spec_runtime().estate_class(metaverse_id));
                assert(mid_rt.mintable(c) == old(self).spec_runtime().mintable(c));
            }
        }
        match self.update_estate_information(new_estate_id, metaverse_id, beneficiary, coordinates) {
            Ok(()) => {},
            Err(e) => {
                self.land_units = saved_lands;
                self.next_estate_id = new_estate_id;
                self.all_land_units_count = saved_count;
                proof {
                    assert(self@ =~= old(self)@);
                }
                return Err(e);
            },
        }
        proof {
            assert(self@.land_units == mid.land_units);
            assert(land_tokens_minted(
                old(self).spec_runtime(),
                mid_rt,
                metaverse_id,
                beneficiary,
                coordinates@,
                self@.land_units,
            ));
        }
        Ok(())
    }

    /// Turns the land units at `coordinates` of `metaverse_id` into
    /// token-owned ones, minting tokens for `account` where a unit is owned by
    /// an account.  On failure the table of land units may hold some of them.
    fn tokenize_land_units(
        &mut self,
        metaverse_id: MetaverseId,
        account: AccountId,
        beneficiary: AccountId,
        coordinates: &Vec<(i32, i32)>,
    ) -> (r: Result<(), DispatchError>)
        requires
            old(self).wf(),
        ensures
            final(self).wf(),
            r is Ok ==> land_tokens_tokenized(
                old(self).spec_runtime(),
                final(self).spec_runtime(),
                metaverse_id,
                account,
                coordinates@,
                old(self)@.land_units,
                final(self)@.land_units,
            ),
            r is Ok ==> tokenized_land_units(
                old(self)@.land_units,
                final(self)@.land_units,
                metaverse_id,
                coordinates@,
            ),
            coordinates_missing(old(self)@.land_units, metaverse_id, coordinates@) ==> (r is Err),
            mints_land(old(self).spec_runtime(), metaverse_id) ==> r == if coordinates_missing(
                old(self)@.land_units,
                metaverse_id,
                coordinates@,
            ) {
                Err::<(), DispatchError>(DispatchError::Module(Error::LandUnitIsNotAvailable))
            } else {
                Ok::<(), DispatchError>(())
            },
            (forall|i: int|
                0 <= i < coordinates@.len() ==> old(self)@.land_units.contains_key(
                    #[trigger] land_key(metaverse_id, coordinates@[i]),
                ) && old(self)@.land_units[land_key(metaverse_id, coordinates@[i])] is Token) ==> r is Ok
                && final(self)@ == old(self)@ && final(self).spec_runtime() == old(self).spec_runtime(),
            final(self)@ == (EstateState { land_units: final(self)@.land_units, ..old(self)@ }),
            final(self).estates == old(self).estates,
            final(self).estate_owner == old(self).estate_owner,
            final(self).undeployed_land_blocks == old(self).undeployed_land_blocks,
            final(self).undeployed_land_blocks_owner == old(self).undeployed_land_blocks_owner,
    {
        let ghost s0 = self@;
        let mut i: usize = 0;
        proof {
            assert(coordinate_keys(metaverse_id, coordinates@.take(0)) =~= Set::<LandUnitKey>::empty());
            assert(land_tokens_tokenized(
                old(self).spec_runtime(),
                self.spec_runtime(),
                metaverse_id,
                account,
                coordinates@.take(0),
                s0.land_units,
                self@.land_units,
            ));
        }
        while i < coordinates.len()
            invariant
                i <= coordinates@.len(),
                self.wf(),
                s0 == old(self)@,
                tokenized_land_units(s0.land_units, self@.land_units, metaverse_id, coordinates@.take(i as int)),
                land_tokens_tokenized(
                    old(self).spec_runtime(),
                    self.spec_runtime(),
                    metaverse_id,
                    account,
                    coordinates@.take(i as int),
                    s0.land_units,
                    self@.land_units,
                ),
                self@ == (EstateState { land_units: self@.land_units, ..s0 }),
                (forall|j: int|
                    0 <= j < coordinates@.len() ==> s0.land_units.contains_key(
                        #[trigger] land_key(metaverse_id, coordinates@[j]),
                    ) && s0.land_units[land_key(metaverse_id, coordinates@[j])] is Token) ==> self@ == s0
                    && self.spec_runtime() == old(self).spec_runtime(),
                self.estates == old(self).estates,
                self.estate_owner == old(self).estate_owner,
                self.undeployed_land_blocks == old(self).undeployed_land_blocks,
                self.undeployed_land_blocks_owner == old(self).undeployed_land_blocks_owner,
            decreases coordinates@.len() - i,
        {
            let ghost prev = self@.land_units;
            let ghost rt_i = self.spec_runtime();
            let coordinate = coordinates[i];
            proof {
                self.land_units.lemma_entries();
            }
            let res = self.mint_land_unit(
                metaverse_id,
                account,
                coordinate,
                LandUnitStatus::Existing(beneficiary),
            );
            match res {
                Ok(_) => {},
                Err(e) => {
                    proof {
                        let key = land_key(metaverse_id, coordinate);
                        let rt0 = old(self).spec_runtime();
                        assert(rt_i.land_class(metaverse_id) == rt0.land_class(metaverse_id));
                        if mints_land(rt0, metaverse_id) {
                            let c = rt0.land_class(metaverse_id)->Ok_0;
                            assert(rt_i.mintable(c) == rt0.mintable(c));
                        }
                        if !prev.contains_key(key) {
                            assert(!s0.land_units.contains_key(land_key(metaverse_id, coordinates@[i as int])));
                        }
                    }
                    return Err(e);
                },
            }
            proof {
                let key = land_key(metaverse_id, coordinate);
                let t = coordinates@.take(i as int);
                let t2 = coordinates@.take(i + 1);
                assert(t2 =~= t.push(coordinate));
                self.land_units.lemma_entries();
                assert(self@.land_units.dom() =~= prev.dom());
                assert(s0.land_units.contains_key(key));
                if prev[key] is Token {
                    assert(self@.land_units =~= prev);
                } else {
                    assert(self@.land_units[key] == res->Ok_0);
                    assert(self@.land_units =~= prev.insert(key, self@.land_units[key]));
                }
                lemma_tokenize_step(
                    old(self).spec_runtime(),
                    rt_i,
                    self.spec_runtime(),
                    metaverse_id,
                    account,
                    t,
                    coordinate,
                    s0.land_units,
                    prev,
                    self@.land_units,
                );
                assert(coordinate_keys(metaverse_id, t2) =~= coordinate_keys(metaverse_id, t).insert(key)) by {
                    assert forall|k: LandUnitKey| #[trigger] coordinate_keys(metaverse_id, t2).contains(k)
                        <==> coordinate_keys(metaverse_id, t).insert(key).contains(k) by {
                        if coordinate_keys(metaverse_id, t2).contains(k) {
                            let j = choose|j: int| 0 <= j < t2.len() && t2[j] == (k.x, k.y);
                            if j < t.len() {
                                assert(t[j] == t2[j]);
                            }
                        }
                        if coordinate_keys(metaverse_id, t).contains(k) {
                            let j = choose|j: int| 0 <= j < t.len() && t[j] == (k.x, k.y);
                            assert(t2[j] == t[j]);
                        }
                        if k == key {
                            assert(t2[t.len() as int] == coordinate);
                        }
                    }
                }
                assert forall|j: int| 0 <= j < t2.len() implies s0.land_units.contains_key(
                    #[trigger] land_key(metaverse_id, t2[j]),
                ) by {
                    if j < t.len() {
                        assert(t[j] == t2[j]);
                    }
                }
            }
            i = i + 1;
        }
        proof {
            assert(coordinates@.take(coordinates@.len() as int) =~= coordinates@);
        }
        Ok(())
    }

    /// Makes an estate of existing land units at `coordinates` of
    /// `metaverse_id`, owned by a token minted for `beneficiary`; land units
    /// owned by accounts get tokens minted for the estate's own account (the
    /// land treasury's sub-account for the estate).  The coordinates must be
    /// next to each other on each axis.  Root only.
    pub fn create_estate(
        &mut self,
        origin: Origin,
        beneficiary: AccountId,
        metaverse_id: MetaverseId,
        coordinates: Vec<(i32, i32)>,
    ) -> (r: Result<(), DispatchError>)
        requires
            old(self).wf(),
        ensures
            final(self).wf(),
            ({
                let before = old(self)@;
                let e = before.next_estate_id;
                let adjacent = contiguous(x_axis(coordinates@)) && contiguous(y_axis(coordinates@));
                &&& !(origin is Root) ==> r == Err::<(), DispatchError>(DispatchError::BadOrigin)
                &&& origin is Root && !adjacent ==> r == Err::<(), DispatchError>(
                    DispatchError::Module(Error::CoordinatesForEstateIsNotValid),
                ) && final(self).spec_runtime() == old(self).spec_runtime()
                &&& r is Ok ==> adjacent
                &&& origin is Root && adjacent && before.next_estate_id == u64::MAX ==> r == Err::<
                    (),
                    DispatchError,
                >(DispatchError::Module(Error::NoAvailableEstateId))
                &&& coordinates_missing(before.land_units, metaverse_id, coordinates@) ==> (r is Err)
                &&& origin is Root && adjacent && mints_land(old(self).spec_runtime(), metaverse_id) && mints_estate(
                    old(self).spec_runtime(),
                    metaverse_id,
                ) ==> r == if e == u64::MAX {
                    Err::<(), DispatchError>(DispatchError::Module(Error::NoAvailableEstateId))
                } else if coordinates_missing(before.land_units, metaverse_id, coordinates@) {
                    Err::<(), DispatchError>(DispatchError::Module(Error::LandUnitIsNotAvailable))
                } else if before.all_estates_count == u64::MAX {
                    Err::<(), DispatchError>(DispatchError::Other("Overflow adding new count to total estates"))
                } else {
                    Ok::<(), DispatchError>(())
                }
                &&& !(origin is Root) || !adjacent || e == u64::MAX ==> final(self).spec_runtime() == old(
                    self,
                ).spec_runtime()
                &&& r is Ok ==> exists|mid: T|
                    land_tokens_tokenized(
                        old(self).spec_runtime(),
                        mid,
                        metaverse_id,
                        pallet_sub_account(before.land_treasury, e),
                        coordinates@,
                        before.land_units,
                        final(self)@.land_units,
                    ) && estate_token_minted(
                        mid,
                        final(self).spec_runtime(),
                        metaverse_id,
                        e,
                        beneficiary,
                        final(self)@.estate_owner[e],
                    )
                &&& r is Ok ==> {
                    let owner = final(self)@.estate_owner[e];
                    &&& owner is Token
                    &&& tokenized_land_units(
                        before.land_units,
                        final(self)@.land_units,
                        metaverse_id,
                        coordinates@,
                    )
                    &&& final(self)@ == (EstateState {
                        land_units: final(self)@.land_units,
                        next_estate_id: (e + 1) as EstateId,
                        estates: before.estates.insert(
                            e,
                            EstateRecord { metaverse_id, land_units: coordinates@ },
                        ),
                        estate_owner: before.estate_owner.insert(e, owner),
                        all_estates_count: (before.all_estates_count + 1) as u64,
                        events: before.events.push(
                            Event::NewEstateMinted(e, owner, metaverse_id, coordinates),
                        ),
                        ..before
                    })
                }
                &&& r is Err ==> final(self)@ == before
            }),
    {
        ensure_root(origin)?;
        if !verify_land_unit_for_estate(&coordinates) {
            return Err(DispatchError::Module(Error::CoordinatesForEstateIsNotValid));
        }
        let new_estate_id = self.get_new_estate_id()?;
        let estate_account_id = into_sub_account(&self.land_treasury, new_estate_id);
        let saved_lands = self.land_units.duplicate();
        match self.tokenize_land_units(metaverse_id, estate_account_id, beneficiary, &coordinates) {
            Ok(()) => {},
            Err(e) => {
                self.land_units = saved_lands;
                self.next_estate_id = new_estate_id;
                proof {
                    assert(self@ =~= old(self)@);
                }
                return Err(e);
            },
        }
        let ghost mid_rt = self.spec_runtime();
        let ghost mid_lands = self@.land_units;
        proof {
            if mints_estate(old(self).spec_runtime(), metaverse_id) {
                let c = old(self).spec_runtime().estate_class(metaverse_id)->Ok_0;
                assert(mid_rt.estate_class(metaverse_id) == old(self).spec_runtime().estate_class(metaverse_id));
                assert(mid_rt.mintable(c) == old(self).spec_runtime().mintable(c));
            }
        }
        match self.update_estate_information(new_estate_id, metaverse_id, beneficiary, coordinates) {
            Ok(()) => {},
            Err(e) => {
                self.land_units = saved_lands;
                self.next_estate_id = new_estate_id;
                proof {
                    assert(self@ =~= old(self)@);
                }
                return Err(e);
            },
        }
        proof {
            assert(self@.land_units == mid_lands);
            assert(land_tokens_tokenized(
                old(self).spec_runtime(),
                mid_rt,
                metaverse_id,
                pallet_sub_account(old(self)@.land_treasury, new_estate_id),
                coordinates@,
                old(self)@.land_units,
                self@.land_units,
            ));
        }
        Ok(())
    }

    /// Deploys undeployed land block `id` of the caller into `metaverse_id`
    /// as new land units at `coordinates`, near `land_block_coordinate`.
    ///
    /// The block is turned into the land units: it is taken out of the
    /// undeployed land (its record, its owner index entry and its units in the
    /// undeployed total) and its burning is announced, so it is deployed once.
    pub fn deploy_land_block(
        &mut self,
        origin: Origin,
        id: UndeployedLandBlockId,
        metaverse_id: MetaverseId,
        land_block_coordinate: (i32, i32),
        coordinates: Vec<(i32, i32)>,
    ) -> (r: Result<(), DispatchError>)
        requires
            old(self).wf(),
            origin is Signed && within_max_bound(old(self)@.default_max_bound, land_block_coordinate)
                ==> coordinates@.len() > 0,
        ensures
            final(self).wf(),
            ({
                let before = old(self)@;
                let who = origin->Signed_0;
                let block = before.undeployed_land_blocks[id];
                &&& !(origin is Signed) ==> r == Err::<(), DispatchError>(DispatchError::BadOrigin)
                &&& origin is Signed && !(before.default_max_bound.0 <= land_block_coordinate.0
                    && land_block_coordinate.0 <= before.default_max_bound.1 && before.default_max_bound.0
                    <= land_block_coordinate.1 && land_block_coordinate.1 <= before.default_max_bound.1) ==> r
                    == Err::<(), DispatchError>(DispatchError::Module(Error::LandUnitIsOutOfBound))
                    && final(self)@ == before && final(self).spec_runtime() == old(self).spec_runtime()
                &&& origin is Signed ==> {
                    if !within_max_bound(before.default_max_bound, land_block_coordinate) || !in_bound(
                        land_block_coordinate,
                        coordinates@,
                    ) {
                        r == Err::<(), DispatchError>(DispatchError::Module(Error::LandUnitIsOutOfBound))
                    } else if !before.undeployed_land_blocks.contains_key(id) {
                        r == Err::<(), DispatchError>(
                            DispatchError::Module(Error::UndeployedLandBlockNotFound),
                        )
                    } else if block.owner != who {
                        r == Err::<(), DispatchError>(DispatchError::Module(Error::NoPermission))
                    } else if block.is_locked {
                        r == Err::<(), DispatchError>(
                            DispatchError::Module(Error::UndeployedLandBlockFreezed),
                        )
                    } else if block.number_land_units != coordinates@.len() as u32 {
                        r == Err::<(), DispatchError>(
                            DispatchError::Module(Error::UndeployedLandBlockUnitAndInputDoesNotMatch),
                        )
                    } else {
                        &&& coordinates_unavailable(before.land_units, metaverse_id, coordinates@) ==> (r is Err)
                        &&& mints_land(old(self).spec_runtime(), metaverse_id) ==> r == if coordinates_unavailable(
                            before.land_units,
                            metaverse_id,
                            coordinates@,
                        ) {
                            Err::<(), DispatchError>(DispatchError::Module(Error::LandUnitIsNotAvailable))
                        } else if before.all_land_units_count + coordinates@.len() > u64::MAX {
                            Err::<(), DispatchError>(DispatchError::Other("Overflow adding new count to total lands"))
                        } else if before.total_undeployed_land_unit < block.number_land_units {
                            Err::<(), DispatchError>(
                                DispatchError::Other("Overflow deducting new count to total undeployed lands"),
                            )
                        } else {
                            Ok::<(), DispatchError>(())
                        }
                        &&& coordinates@.len() > 0 && before.land_units.contains_key(
                            land_key(metaverse_id, coordinates@[0]),
                        ) ==> r == Err::<(), DispatchError>(
                            DispatchError::Module(Error::LandUnitIsNotAvailable),
                        ) && final(self).spec_runtime() == old(self).spec_runtime()
                        &&& coordinates@.len() > 0 && !before.land_units.contains_key(
                            land_key(metaverse_id, coordinates@[0]),
                        ) && old(self).spec_runtime().land_class(metaverse_id) is Err ==> r == Err::<
                            (),
                            DispatchError,
                        >(old(self).spec_runtime().land_class(metaverse_id)->Err_0)
                            && final(self).spec_runtime() == old(self).spec_runtime()
                    }
                }
                &&& !(origin is Signed) || !within_max_bound(before.default_max_bound, land_block_coordinate)
                    || !in_bound(land_block_coordinate, coordinates@) || !before.undeployed_land_blocks.contains_key(
                    id,
                ) || block.owner != who || block.is_locked || block.number_land_units
                    != coordinates@.len() as u32 ==> final(self).spec_runtime() == old(self).spec_runtime()
                &&& r is Ok ==> land_tokens_minted(
                    old(self).spec_runtime(),
                    final(self).spec_runtime(),
                    metaverse_id,
                    who,
                    coordinates@,
                    final(self)@.land_units,
                )
                &&& r is Ok ==> {
                    &&& before.undeployed_land_blocks.contains_key(id)
                    &&& block.owner == who
                    &&& block.number_land_units <= before.total_undeployed_land_unit
                    &&& fresh_land_units(
                        before.land_units,
                        final(self)@.land_units,
                        metaverse_id,
                        coordinates@,
                    )
                    &&& final(self)@ == (EstateState {
                        land_units: final(self)@.land_units,
                        all_land_units_count: (before.all_land_units_count
                            + coordinates@.len()) as u64,
                        events: consume_block(before, id).events.push(
                            Event::LandBlockDeployed(who, metaverse_id, id, coordinates),
                        ),
                        ..consume_block(before, id)
                    })
                }
                &&& r is Err ==> final(self)@ == before
            }),
    {
        proof {
            law_max_bound_covers_both_axes(old(self)@.default_max_bound, land_block_coordinate);
        }
        let who = ensure_signed(origin)?;
        let max_bound = self.default_max_bound;
        if !((land_block_coordinate.0 >= max_bound.0 && max_bound.1 >= land_block_coordinate.0) && (
        land_block_coordinate.1 >= max_bound.0 && max_bound.1 >= land_block_coordinate.1)) {
            return Err(DispatchError::Module(Error::LandUnitIsOutOfBound));
        }
        if !verify_land_unit_in_bound(land_block_coordinate, &coordinates) {
            return Err(DispatchError::Module(Error::LandUnitIsOutOfBound));
        }
        let record = match self.undeployed_land_blocks.get(&id) {
            Some(b) => *b,
            None => return Err(DispatchError::Module(Error::UndeployedLandBlockNotFound)),
        };
        if record.owner != who {
            return Err(DispatchError::Module(Error::NoPermission));
        }
        if record.is_locked {
            return Err(DispatchError::Module(Error::UndeployedLandBlockFreezed));
        }
        let land_units_to_mint = coordinates.len() as u32;
        if record.number_land_units != land_units_to_mint {
            return Err(DispatchError::Module(Error::UndeployedLandBlockUnitAndInputDoesNotMatch));
        }
        let saved_lands = self.land_units.duplicate();
        let saved_count = self.all_land_units_count;
        match self.mint_fresh_land_units(metaverse_id, who, &coordinates) {
            Ok(()) => {},
            Err(e) => {
                self.land_units = saved_lands;
                proof {
                    assert(self@ =~= old(self)@);
                }
                return Err(e);
            },
        }
        match self.set_total_land_unit(coordinates.len() as u64, false) {
            Ok(()) => {},
            Err(e) => {
                self.land_units = saved_lands;
                proof {
                    assert(self@ =~= old(self)@);
                }
                return Err(e);
            },
        }
        let ghost minted = self@;
        match self.consume_undeployed_land_block(id) {
            Ok(()) => {},
            Err(e) => {
                self.land_units = saved_lands;
                self.all_land_units_count = saved_count;
                proof {
                    assert(self@ =~= old(self)@);
                }
                return Err(e);
            },
        }
        self.events.push(Event::LandBlockDeployed(who, metaverse_id, id, coordinates));
        Ok(())
    }

    /// Moves the land unit at `coordinate` of `metaverse_id` from `from` to `to`
    /// by moving its token, which `from` must hold; the land unit table is not
    /// changed.
    fn do_transfer_landunit(
        &mut self,
        coordinate: (i32, i32),
        from: AccountId,
        to: AccountId,
        metaverse_id: MetaverseId,
    ) -> (r: Result<(i32, i32), DispatchError>)
        requires
            old(self).wf(),
        ensures
            final(self).wf(),
            ({
                let before = old(self)@;
                let rt = old(self).spec_runtime();
                let key = land_key(metaverse_id, coordinate);
                &&& !before.land_units.contains_key(key) ==> r == Err::<(i32, i32), DispatchError>(
                    DispatchError::Module(Error::NoPermission),
                )
                &&& before.land_units.contains_key(key) && from == to ==> r == Err::<
                    (i32, i32),
                    DispatchError,
                >(DispatchError::Module(Error::AlreadyOwnTheLandUnit))
                &&& before.land_units.contains_key(key) && from != to && !holds(
                    rt,
                    from,
                    before.land_units[key],
                    false,
                    metaverse_id,
                ) ==> r == Err::<(i32, i32), DispatchError>(DispatchError::Module(Error::NoPermission))
                &&& before.land_units.contains_key(key) && from != to && holds(
                    rt,
                    from,
                    before.land_units[key],
                    false,
                    metaverse_id,
                ) && rt.land_class(metaverse_id) is Err ==> r == Err::<(i32, i32), DispatchError>(
                    rt.land_class(metaverse_id)->Err_0,
                )
                &&& land_transfer_refusal(before, rt, from, to, metaverse_id, coordinate) is None && rt.transferable(
                    owner_nft(rt, before.land_units[key], false, metaverse_id),
                ) ==> r is Ok
                &&& r is Err ==> final(self).spec_runtime() == rt
                &&& r is Ok ==> {
                    &&& r == Ok::<(i32, i32), DispatchError>(coordinate)
                    &&& before.land_units.contains_key(key)
                    &&& holds(rt, from, before.land_units[key], false, metaverse_id)
                    &&& rt.land_class(metaverse_id) is Ok
                    &&& moved(
                        rt,
                        final(self).spec_runtime(),
                        owner_nft(rt, before.land_units[key], false, metaverse_id),
                        from,
                        to,
                    )
                    &&& from != to
                    &&& final(self)@ == (EstateState {
                        events: before.events.push(
                            Event::TransferredLandUnit(metaverse_id, coordinate, from, to),
                        ),
                        ..before
                    })
                }
                &&& r is Err ==> final(self)@ == before
            }),
    {
        let key = LandUnitKey { metaverse_id, x: coordinate.0, y: coordinate.1 };
        let owner = match self.land_units.get(&key) {
            Some(o) => *o,
            None => return Err(DispatchError::Module(Error::NoPermission)),
        };
        if from == to {
            return Err(DispatchError::Module(Error::AlreadyOwnTheLandUnit));
        }
        if !self.check_if_land_or_estate_owner(from, owner, false, metaverse_id) {
            return Err(DispatchError::Module(Error::NoPermission));
        }
        match owner {
            OwnerId::Token(t) => {
                let land_class_id = self.runtime.get_metaverse_land_class(metaverse_id)?;
                self.runtime.transfer_nft(&from, &to, &(land_class_id, t))?;
                self.events.push(Event::TransferredLandUnit(metaverse_id, coordinate, from, to));
                Ok(coordinate)
            },
            OwnerId::Account(_) => Err(DispatchError::Module(Error::InvalidOwnerValue)),
        }
    }

    /// Moves the caller's land unit at `coordinate` of `metaverse_id` to `to`,
    /// unless it is in an auction.
    pub fn transfer_land(
        &mut self,
        origin: Origin,
        to: AccountId,
        metaverse_id: MetaverseId,
        coordinate: (i32, i32),
    ) -> (r: Result<(), DispatchError>)
        requires
            old(self).wf(),
        ensures
            final(self).wf(),
            ({
                let before = old(self)@;
                let rt = old(self).spec_runtime();
                let key = land_key(metaverse_id, coordinate);
                let who = origin->Signed_0;
                let refusal = land_transfer_refusal(before, rt, who, to, metaverse_id, coordinate);
                &&& !(origin is Signed) ==> r == Err::<(), DispatchError>(DispatchError::BadOrigin)
                &&& origin is Signed && rt.in_auction(ItemId::LandUnit(coordinate, metaverse_id)) ==> r
                    == Err::<(), DispatchError>(DispatchError::Module(Error::LandUnitAlreadyInAuction))
                &&& origin is Signed && !rt.in_auction(ItemId::LandUnit(coordinate, metaverse_id))
                    && refusal is Some ==> r == Err::<(), DispatchError>(refusal->Some_0)
                &&& origin is Signed && !rt.in_auction(ItemId::LandUnit(coordinate, metaverse_id)) && refusal is None
                    && rt.transferable(owner_nft(rt, before.land_units[key], false, metaverse_id)) ==> r is Ok
                &&& r is Ok ==> {
                    &&& origin is Signed
                    &&& !rt.in_auction(ItemId::LandUnit(coordinate, metaverse_id))
                    &&& refusal is None
                    &&& moved(rt, final(self).spec_runtime(), owner_nft(rt, before.land_units[key], false, metaverse_id), who, to)
                    &&& final(self)@ == (EstateState {
                        events: before.events.push(
                            Event::TransferredLandUnit(metaverse_id, coordinate, who, to),
                        ),
                        ..before
                    })
                }
                &&& r is Err ==> final(self)@ == before && final(self).spec_runtime() == rt
            }),
    {
        let who = ensure_signed(origin)?;
        if self.runtime.check_item_in_auction(ItemId::LandUnit(coordinate, metaverse_id)) {
            return Err(DispatchError::Module(Error::LandUnitAlreadyInAuction));
        }
        self.do_transfer_landunit(coordinate, who, to, metaverse_id)?;
        Ok(())
    }

    /// Moves estate `estate_id` from `from` to `to` by moving its token, which
    /// `from` must hold.
    fn do_transfer_estate(&mut self, estate_id: EstateId, from: AccountId, to: AccountId) -> (r: Result<
        EstateId,
        DispatchError,
    >)
        requires
            old(self).wf(),
        ensures
            final(self).wf(),
            ({
                let before = old(self)@;
                let rt = old(self).spec_runtime();
                let m = before.estates[estate_id].metaverse_id;
                let owner = before.estate_owner[estate_id];
                &&& from == to ==> r == Err::<EstateId, DispatchError>(
                    DispatchError::Module(Error::AlreadyOwnTheEstate),
                )
                &&& from != to && !before.estates.contains_key(estate_id) ==> r == Err::<
                    EstateId,
                    DispatchError,
                >(DispatchError::Module(Error::NoPermission))
                &&& from != to && before.estates.contains_key(estate_id) && !holds(rt, from, owner, true, m)
                    ==> r == Err::<EstateId, DispatchError>(DispatchError::Module(Error::NoPermission))
                &&& from != to && before.estates.contains_key(estate_id) && holds(rt, from, owner, true, m)
                    && rt.estate_class(m) is Err ==> r == Err::<EstateId, DispatchError>(
                    rt.estate_class(m)->Err_0,
                )
                &&& estate_transfer_refusal(before, rt, from, to, estate_id) is None && rt.transferable(
                    owner_nft(rt, owner, true, m),
                ) ==> r is Ok
                &&& r is Err ==> final(self).spec_runtime() == rt
                &&& r is Ok ==> {
                    &&& r == Ok::<EstateId, DispatchError>(estate_id)
                    &&& before.estates.contains_key(estate_id)
                    &&& holds(rt, from, owner, true, m)
                    &&& rt.estate_class(m) is Ok
                    &&& moved(rt, final(self).spec_runtime(), owner_nft(rt, owner, true, m), from, to)
                    &&& from != to
                    &&& final(self)@ == (EstateState {
                        events: before.events.push(Event::TransferredEstate(estate_id, from, to)),
                        ..before
                    })
                }
                &&& r is Err ==> final(self)@ == before
            }),
    {
        if from == to {
            return Err(DispatchError::Module(Error::AlreadyOwnTheEstate));
        }
        proof {
            self.lemma_tables();
        }
        let estate_owner_value = match self.estate_owner.get(&estate_id) {
            Some(o) => *o,
            None => return Err(DispatchError::Module(Error::NoPermission)),
        };
        let metaverse_id = match self.estates.get(&estate_id) {
            Some(info) => info.metaverse_id,
            None => return Err(DispatchError::Module(Error::EstateDoesNotExist)),
        };
        if !self.check_if_land_or_estate_owner(from, estate_owner_value, true, metaverse_id) {
            return Err(DispatchError::Module(Error::NoPermission));
        }
        match estate_owner_value {
            OwnerId::Token(t) => {
                let estate_class_id = self.runtime.get_metaverse_estate_class(metaverse_id)?;
                self.runtime.transfer_nft(&from, &to, &(estate_class_id, t))?;
                self.events.push(Event::TransferredEstate(estate_id, from, to));
                Ok(estate_id)
            },
            OwnerId::Account(_) => Err(DispatchError::Module(Error::InvalidOwnerValue)),
        }
    }

    /// Moves the caller's estate `estate_id` to `to`, unless it is in an auction.
    pub fn transfer_estate(&mut self, origin: Origin, to: AccountId, estate_id: EstateId) -> (r: Result<
        (),
        DispatchError,
    >)
        requires
            old(self).wf(),
        ensures
            final(self).wf(),
            ({
                let before = old(self)@;
                let rt = old(self).spec_runtime();
                let who = origin->Signed_0;
                let refusal = estate_transfer_refusal(before, rt, who, to, estate_id);
                &&& !(origin is Signed) ==> r == Err::<(), DispatchError>(DispatchError::BadOrigin)
                &&& origin is Signed && rt.in_auction(ItemId::Estate(estate_id)) ==> r == Err::<(), DispatchError>(
                    DispatchError::Module(Error::EstateAlreadyInAuction),
                )
                &&& origin is Signed && !rt.in_auction(ItemId::Estate(estate_id)) && refusal is Some ==> r
                    == Err::<(), DispatchError>(refusal->Some_0)
                &&& origin is Signed && !rt.in_auction(ItemId::Estate(estate_id)) && refusal is None && rt.transferable(
                    owner_nft(rt, before.estate_owner[estate_id], true, before.estates[estate_id].metaverse_id),
                ) ==> r is Ok
                &&& r is Ok ==> {
                    &&& origin is Signed
                    &&& !rt.in_auction(ItemId::Estate(estate_id))
                    &&& refusal is None
                    &&& moved(
                        rt,
                        final(self).spec_runtime(),
                        owner_nft(rt, before.estate_owner[estate_id], true, before.estates[estate_id].metaverse_id),
                        who,
                        to,
                    )
                    &&& final(self)@ == (EstateState {
                        events: before.events.push(Event::TransferredEstate(estate_id, who, to)),
                        ..before
                    })
                }
                &&& r is Err ==> final(self)@ == before && final(self).spec_runtime() == rt
            }),
    {
        let who = ensure_signed(origin)?;
        if self.runtime.check_item_in_auction(ItemId::Estate(estate_id)) {
            return Err(DispatchError::Module(Error::EstateAlreadyInAuction));
        }
        self.do_transfer_estate(estate_id, who, to)?;
        Ok(())
    }

    /// The estate must be in an auction and pass [`estate_transfer_refusal`];
    /// then its token moves from `from` to `to`.
    fn transfer_estate_in_auction(&mut self, estate_id: EstateId, from: AccountId, to: AccountId) -> (r: Result<
        EstateId,
        DispatchError,
    >)
        requires
            old(self).wf(),
        ensures
            final(self).wf(),
            ({
                let rt = old(self).spec_runtime();
                let before = old(self)@;
                let refusal = estate_transfer_refusal(before, rt, from, to, estate_id);
                &&& !rt.in_auction(ItemId::Estate(estate_id)) ==> r == Err::<EstateId, DispatchError>(
                    DispatchError::Module(Error::EstateNotInAuction),
                )
                &&& rt.in_auction(ItemId::Estate(estate_id)) && refusal is Some ==> r == Err::<
                    EstateId,
                    DispatchError,
                >(refusal->Some_0)
                &&& rt.in_auction(ItemId::Estate(estate_id)) && refusal is None && rt.transferable(
                    owner_nft(rt, before.estate_owner[estate_id], true, before.estates[estate_id].metaverse_id),
                ) ==> r is Ok
                &&& r is Ok ==> r == Ok::<EstateId, DispatchError>(estate_id) && rt.in_auction(ItemId::Estate(estate_id)) && refusal is None
                    && final(self)@ == (EstateState {
                    events: before.events.push(Event::TransferredEstate(estate_id, from, to)),
                    ..before
                }) && moved(
                    rt,
                    final(self).spec_runtime(),
                    owner_nft(rt, before.estate_owner[estate_id], true, before.estates[estate_id].metaverse_id),
                    from,
                    to,
                )
                &&& r is Err ==> final(self).spec_runtime() == rt && final(self)@ == before
            }),
    {
        if !self.runtime.check_item_in_auction(ItemId::Estate(estate_id)) {
            return Err(DispatchError::Module(Error::EstateNotInAuction));
        }
        self.do_transfer_estate(estate_id, from, to)
    }

    /// Dissolves the caller's estate `estate_id`, whose token the caller must
    /// hold; its land units stay as they are.  Fails if the estate is in an
    /// auction.  The runtime is asked to burn the estate's token; the estate
    /// is dissolved whether or not the runtime does so.
    pub fn dissolve_estate(&mut self, origin: Origin, estate_id: EstateId) -> (r: Result<(), DispatchError>)
        requires
            old(self).wf(),
        ensures
            final(self).wf(),
            ({
                let before = old(self)@;
                let rt = old(self).spec_runtime();
                let who = origin->Signed_0;
                let m = before.estates[estate_id].metaverse_id;
                let owner = before.estate_owner[estate_id];
                let checked = origin is Signed && !rt.in_auction(ItemId::Estate(estate_id));
                &&& !(origin is Signed) ==> r == Err::<(), DispatchError>(DispatchError::BadOrigin)
                &&& origin is Signed && rt.in_auction(ItemId::Estate(estate_id)) ==> r == Err::<(), DispatchError>(
                    DispatchError::Module(Error::EstateAlreadyInAuction),
                )
                &&& checked && !before.estates.contains_key(estate_id) ==> r == Err::<(), DispatchError>(
                    DispatchError::Module(Error::EstateDoesNotExist),
                )
                &&& checked && before.estates.contains_key(estate_id) && !holds(rt, who, owner, true, m) ==> r
                    == Err::<(), DispatchError>(DispatchError::Module(Error::NoPermission))
                &&& checked && before.estates.contains_key(estate_id) && holds(rt, who, owner, true, m)
                    && rt.estate_class(m) is Err ==> r == Err::<(), DispatchError>(rt.estate_class(m)->Err_0)
                &&& checked && before.estates.contains_key(estate_id) && holds(rt, who, owner, true, m)
                    && rt.estate_class(m) is Ok ==> r is Ok
                &&& r is Ok ==> {
                    let nft = owner_nft(rt, owner, true, m);
                    let rt1 = final(self).spec_runtime();
                    &&& checked
                    &&& before.estates.contains_key(estate_id)
                    &&& holds(rt, who, owner, true, m)
                    &&& rt.estate_class(m) is Ok
                    &&& rt.burnable(nft) ==> rt1.token(nft) is None
                    &&& (rt1.token(nft) is None && keeps_all_but(rt, rt1, nft)) || rt1 == rt
                    &&& final(self)@ == (EstateState {
                        estates: before.estates.remove(estate_id),
                        estate_owner: before.estate_owner.remove(estate_id),
                        all_estates_count: (before.all_estates_count - 1) as u64,
                        events: before.events.push(Event::EstateDestroyed(estate_id, owner)),
                        ..before
                    })
                }
                &&& r is Err ==> final(self)@ == before && final(self).spec_runtime() == rt
            }),
    {
        let who = ensure_signed(origin)?;
        if self.runtime.check_item_in_auction(ItemId::Estate(estate_id)) {
            return Err(DispatchError::Module(Error::EstateAlreadyInAuction));
        }
        proof {
            self.lemma_tables();
        }
        let metaverse_id = match self.estates.get(&estate_id) {
            Some(info) => info.metaverse_id,
            None => return Err(DispatchError::Module(Error::EstateDoesNotExist)),
        };
        let estate_owner_value = match self.estate_owner.get(&estate_id) {
            Some(o) => *o,
            None => return Err(DispatchError::Module(Error::NoPermission)),
        };
        if !self.check_if_land_or_estate_owner(who, estate_owner_value, true, metaverse_id) {
            return Err(DispatchError::Module(Error::NoPermission));
        }
        let new_total_estates_count = match self.all_estates_count.checked_sub(1) {
            Some(c) => c,
            None => return Err(DispatchError::Other("Overflow adding new count to total estates")),
        };
        match estate_owner_value {
            OwnerId::Token(t) => {
                let estate_class_id = self.runtime.get_metaverse_estate_class(metaverse_id)?;
                let _ = self.runtime.burn_nft(&who, &(estate_class_id, t));
            },
            OwnerId::Account(_) => {},
        }
        let ghost prev = self@;
        self.estate_owner.remove(&estate_id);
        self.estates.remove(&estate_id);
        self.all_estates_count = new_total_estates_count;
        self.events.push(Event::EstateDestroyed(estate_id, estate_owner_value));
        proof {
            self.lemma_tables();
            let cur = self@;
            assert(cur.estates =~= prev.estates.remove(estate_id));
            assert(cur.estates.dom() =~= cur.estate_owner.dom());
        }
        Ok(())
    }

    /// Checks that the caller may change estate `estate_id`, giving back the
    /// estate's metaverse and owner.
    fn check_estate_change(&self, who: AccountId, estate_id: EstateId) -> (r: Result<
        (MetaverseId, OwnerId),
        DispatchError,
    >)
        requires
            self.wf(),
        ensures
            r == (match estate_change_refusal(self@, self.spec_runtime(), who, estate_id) {
                Some(e) => Err(e),
                None => Ok::<(MetaverseId, OwnerId), DispatchError>(
                    (self@.estates[estate_id].metaverse_id, self@.estate_owner[estate_id]),
                ),
            }),
            self.spec_runtime().in_auction(ItemId::Estate(estate_id)) ==> r == Err::<
                (MetaverseId, OwnerId),
                DispatchError,
            >(DispatchError::Module(Error::EstateAlreadyInAuction)),
    {
        proof {
            law_estate_in_auction_is_not_changed(self@, self.spec_runtime(), who, estate_id);
        }
        if self.runtime.check_item_in_auction(ItemId::Estate(estate_id)) {
            return Err(DispatchError::Module(Error::EstateAlreadyInAuction));
        }
        proof {
            self.lemma_tables();
        }
        let metaverse_id = match self.estates.get(&estate_id) {
            Some(info) => info.metaverse_id,
            None => return Err(DispatchError::Module(Error::EstateDoesNotExist)),
        };
        let estate_owner_value = match self.estate_owner.get(&estate_id) {
            Some(o) => *o,
            None => return Err(DispatchError::Module(Error::NoPermission)),
        };
        if !self.check_if_land_or_estate_owner(who, estate_owner_value, true, metaverse_id) {
            return Err(DispatchError::Module(Error::NoPermission));
        }
        Ok((metaverse_id, estate_owner_value))
    }

    /// Adds the caller's land units at `land_units` to the caller's estate
    /// `estate_id`, unless it is in an auction.  Each land unit must be
    /// recorded in the estate's metaverse.
    pub fn add_land_unit_to_estate(&mut self, origin: Origin, estate_id: EstateId, land_units: Vec<
        (i32, i32),
    >) -> (r: Result<(), DispatchError>)
        requires
            old(self).wf(),
            origin is Signed && estate_change_refusal(
                old(self)@,
                old(self).spec_runtime(),
                origin->Signed_0,
                estate_id,
            ) is None ==> forall|i: int|
                0 <= i < land_units@.len() && !old(self)@.land_units.contains_key(
                    #[trigger] land_key(old(self)@.estates[estate_id].metaverse_id, land_units@[i]),
                ) ==> exists|j: int|
                    0 <= j < i && !holds_land_unit(
                        old(self)@,
                        old(self).spec_runtime(),
                        origin->Signed_0,
                        old(self)@.estates[estate_id].metaverse_id,
                        #[trigger] land_units@[j],
                    ),
        ensures
            final(self).wf(),
            final(self).spec_runtime() == old(self).spec_runtime(),
            origin is Signed && old(self).spec_runtime().in_auction(ItemId::Estate(estate_id)) ==> r == Err::<
                (),
                DispatchError,
            >(DispatchError::Module(Error::EstateAlreadyInAuction)) && final(self)@ == old(self)@,
            ({
                let before = old(self)@;
                let rt = old(self).spec_runtime();
                let who = origin->Signed_0;
                let estate = before.estates[estate_id];
                let refusal = estate_change_refusal(before, rt, who, estate_id);
                let all_held = forall|i: int|
                    0 <= i < land_units@.len() ==> holds_land_unit(
                        before,
                        rt,
                        who,
                        estate.metaverse_id,
                        #[trigger] land_units@[i],
                    );
                &&& !(origin is Signed) ==> r == Err::<(), DispatchError>(DispatchError::BadOrigin)
                &&& origin is Signed && refusal is Some ==> r == Err::<(), DispatchError>(refusal->Some_0)
                &&& origin is Signed && refusal is None && !all_held ==> r == Err::<(), DispatchError>(
                    DispatchError::Module(Error::LandUnitDoesNotExist),
                )
                &&& origin is Signed && refusal is None && all_held ==> r is Ok
                &&& r is Ok ==> final(self)@ == (EstateState {
                    estates: before.estates.insert(
                        estate_id,
                        EstateRecord {
                            metaverse_id: estate.metaverse_id,
                            land_units: estate.land_units + land_units@,
                        },
                    ),
                    events: before.events.push(
                        Event::LandUnitAdded(estate_id, before.estate_owner[estate_id], land_units),
                    ),
                    ..before
                })
                &&& r is Err ==> final(self)@ == before
            }),
    {
        proof {
            law_estate_in_auction_is_not_changed(
                old(self)@,
                old(self).spec_runtime(),
                origin->Signed_0,
                estate_id,
            );
        }
        let who = ensure_signed(origin)?;
        let (metaverse_id, estate_owner_value) = self.check_estate_change(who, estate_id)?;
        let mut i: usize = 0;
        while i < land_units.len()
            invariant
                i <= land_units@.len(),
                self.wf(),
                self@ == old(self)@,
                origin == Origin::Signed(who),
                self@.estates.contains_key(estate_id),
                metaverse_id == self@.estates[estate_id].metaverse_id,
                self.spec_runtime() == old(self).spec_runtime(),
                estate_change_refusal(self@, self.spec_runtime(), who, estate_id) is None,
                forall|k: int|
                    0 <= k < land_units@.len() && !self@.land_units.contains_key(
                        #[trigger] land_key(metaverse_id, land_units@[k]),
                    ) ==> exists|j: int|
                        0 <= j < k && !holds_land_unit(
                            self@,
                            self.spec_runtime(),
                            who,
                            metaverse_id,
                            #[trigger] land_units@[j],
                        ),
                forall|j: int|
                    0 <= j < i ==> holds_land_unit(
                        self@,
                        self.spec_runtime(),
                        who,
                        metaverse_id,
                        #[trigger] land_units@[j],
                    ),
            decreases land_units@.len() - i,
        {
            let land_unit = land_units[i];
            let owner = match self.get_land_units(metaverse_id, land_unit) {
                Some(o) => o,
                None => {
                    proof {
                        let k = i as int;
                        assert(!self@.land_units.contains_key(land_key(metaverse_id, land_units@[k])));
                        let j = choose|j: int|
                            0 <= j < k && !holds_land_unit(
                                self@,
                                self.spec_runtime(),
                                who,
                                metaverse_id,
                                #[trigger] land_units@[j],
                            );
                        assert(holds_land_unit(self@, self.spec_runtime(), who, metaverse_id, land_units@[j]));
                    }
                    return Err(DispatchError::Module(Error::LandUnitDoesNotExist));
                },
            };
            if !self.check_if_land_or_estate_owner(who, owner, false, metaverse_id) {
                proof {
                    assert(!holds_land_unit(self@, self.spec_runtime(), who, metaverse_id, land_units@[i as int]));
                }
                return Err(DispatchError::Module(Error::LandUnitDoesNotExist));
            }
            i = i + 1;
        }
        proof {
            self.lemma_tables();
        }
        let ghost prev = self@;
        let mut info = match self.estates.remove(&estate_id) {
            Some(info) => info,
            None => return Err(DispatchError::Module(Error::EstateDoesNotExist)),
        };
        let mut added = copy_coordinates(&land_units);
        info.land_units.append(&mut added);
        self.estates.insert(estate_id, info);
        self.events.push(Event::LandUnitAdded(estate_id, estate_owner_value, land_units));
        proof {
            self.lemma_tables();
            let cur = self@;
            assert(cur.estates =~= prev.estates.insert(
                estate_id,
                EstateRecord {
                    metaverse_id,
                    land_units: prev.estates[estate_id].land_units + land_units@,
                },
            ));
        }
        Ok(())
    }

    /// Takes each of `land_units`, in turn, out of the caller's estate
    /// `estate_id`, where it first occurs, unless the estate is in an auction.
    /// Each must still be in the estate when its turn comes.
    pub fn remove_land_unit_from_estate(
        &mut self,
        origin: Origin,
        estate_id: EstateId,
        land_units: Vec<(i32, i32)>,
    ) -> (r: Result<(), DispatchError>)
        requires
            old(self).wf(),
            origin is Signed && estate_change_refusal(
                old(self)@,
                old(self).spec_runtime(),
                origin->Signed_0,
                estate_id,
            ) is None ==> removable(old(self)@.estates[estate_id].land_units, land_units@),
        ensures
            final(self).wf(),
            final(self).spec_runtime() == old(self).spec_runtime(),
            origin is Signed && old(self).spec_runtime().in_auction(ItemId::Estate(estate_id)) ==> r == Err::<
                (),
                DispatchError,
            >(DispatchError::Module(Error::EstateAlreadyInAuction)) && final(self)@ == old(self)@,
            ({
                let before = old(self)@;
                let estate = before.estates[estate_id];
                let refusal = estate_change_refusal(before, old(self).spec_runtime(), origin->Signed_0, estate_id);
                &&& !(origin is Signed) ==> r == Err::<(), DispatchError>(DispatchError::BadOrigin)
                &&& origin is Signed && refusal is Some ==> r == Err::<(), DispatchError>(refusal->Some_0)
                &&& origin is Signed && refusal is None ==> r is Ok
                &&& r is Ok ==> final(self)@ == (EstateState {
                    estates: before.estates.insert(
                        estate_id,
                        EstateRecord {
                            metaverse_id: estate.metaverse_id,
                            land_units: remove_all(estate.land_units, land_units@),
                        },
                    ),
                    events: before.events.push(
                        Event::LandUnitsRemoved(estate_id, before.estate_owner[estate_id], land_units),
                    ),
                    ..before
                })
                &&& r is Err ==> final(self)@ == before
            }),
    {
        proof {
            law_estate_in_auction_is_not_changed(
                old(self)@,
                old(self).spec_runtime(),
                origin->Signed_0,
                estate_id,
            );
        }
        let who = ensure_signed(origin)?;
        let (metaverse_id, estate_owner_value) = self.check_estate_change(who, estate_id)?;
        proof {
            self.lemma_tables();
        }
        let ghost prev = self@;
        let mut info = match self.estates.remove(&estate_id) {
            Some(info) => info,
            None => return Err(DispatchError::Module(Error::EstateDoesNotExist)),
        };
        let ghost initial = info.land_units@;
        let mut i: usize = 0;
        proof {
            assert(land_units@.take(0) =~= Seq::<(i32, i32)>::empty());
            lemma_removable_prefix(initial, land_units@, 0);
        }
        while i < land_units.len()
            invariant
                i <= land_units@.len(),
                removable(initial, land_units@),
                info.land_units@ == remove_all(initial, land_units@.take(i as int)),
                info.metaverse_id == metaverse_id,
            decreases land_units@.len() - i,
        {
            let land_unit = land_units[i];
            proof {
                lemma_removable_prefix(initial, land_units@, i + 1);
                let t2 = land_units@.take(i + 1);
                assert(t2.drop_last() =~= land_units@.take(i as int));
                assert(t2.last() == land_unit);
            }
            let mut p: usize = 0;
            while p < info.land_units.len() && (info.land_units[p].0 != land_unit.0 || info.land_units[p].1
                != land_unit.1)
                invariant
                    p <= info.land_units@.len(),
                    forall|q: int| 0 <= q < p ==> info.land_units@[q] != land_unit,
                decreases info.land_units@.len() - p,
            {
                p = p + 1;
            }
            proof {
                let cur = info.land_units@;
                assert(cur.contains(land_unit));
                if p == cur.len() {
                    let q = choose|q: int| 0 <= q < cur.len() && cur[q] == land_unit;
                    assert(false);
                }
                cur.index_of_first_ensures(land_unit);
                let first = cur.index_of_first(land_unit).unwrap();
                assert(first == p) by {
                    if first < p {
                        assert(cur[first] != land_unit);
                    } else if first > p {
                        assert(cur[p as int] == land_unit);
                    }
                }
            }
            info.land_units.remove(p);
            i = i + 1;
            proof {
                let t2 = land_units@.take(i as int);
                assert(t2.drop_last() =~= land_units@.take(i - 1));
            }
        }
        proof {
            assert(land_units@.take(land_units@.len() as int) =~= land_units@);
        }
        self.estates.insert(estate_id, info);
        self.events.push(Event::LandUnitsRemoved(estate_id, estate_owner_value, land_units));
        proof {
            self.lemma_tables();
            let cur = self@;
            assert(cur.estates =~= prev.estates.insert(
                estate_id,
                EstateRecord { metaverse_id, land_units: remove_all(initial, land_units@) },
            ));
        }
        Ok(())
    }

    /// Replacing block `id` by one with the same identifier and owner keeps
    /// the invariant.
    proof fn lemma_block_update_keeps_inv(&self, prev: &Self, id: UndeployedLandBlockId)
        requires
            prev.wf(),
            self.land_units == prev.land_units,
            self.estates == prev.estates,
            self.estate_owner == prev.estate_owner,
            self.undeployed_land_blocks_owner == prev.undeployed_land_blocks_owner,
            self.undeployed_land_blocks.wf(),
            prev@.undeployed_land_blocks.contains_key(id),
            self@.undeployed_land_blocks.dom() =~= prev@.undeployed_land_blocks.dom(),
            self@.undeployed_land_blocks[id].id == prev@.undeployed_land_blocks[id].id,
            self@.undeployed_land_blocks[id].owner == prev@.undeployed_land_blocks[id].owner,
            forall|b: UndeployedLandBlockId|
                b != id ==> self@.undeployed_land_blocks[b] == prev@.undeployed_land_blocks[b],
            self.all_land_units_count == prev.all_land_units_count,
            self.all_estates_count == prev.all_estates_count,
            self.next_estate_id == prev.next_estate_id,
            self.next_undeployed_land_block_id == prev.next_undeployed_land_block_id,
        ensures
            self.wf(),
    {
        assert(self@.estates =~= prev@.estates);
        assert forall|k: BlockOwnerKey| #[trigger]
            self@.undeployed_land_blocks_owner.contains(k) implies self@.undeployed_land_blocks.contains_key(
            k.block,
        ) && self@.undeployed_land_blocks[k.block].owner == k.account by {
            assert(prev@.undeployed_land_blocks_owner.contains(k));
        }
    }
}

/// What the estate pallet offers other pallets about land in metaverses.
pub trait MetaverseLandTrait {
    /// The pallet's storage is well formed.
    spec fn well_formed(&self) -> bool;

    /// The coordinates of the land units of `metaverse_id` held by `who`.
    fn get_user_land_units(&self, who: &AccountId, metaverse_id: &MetaverseId) -> Vec<(i32, i32)>
        requires
            self.well_formed(),
    ;

    /// Whether `who` holds any land unit of `metaverse_id`.
    fn is_user_own_metaverse_land(&self, who: &AccountId, metaverse_id: &MetaverseId) -> bool
        requires
            self.well_formed(),
    ;
}

impl<T: Config> MetaverseLandTrait for Pallet<T> {
    open spec fn well_formed(&self) -> bool {
        self.wf()
    }

    /// The coordinates of the land units of `metaverse_id` whose token `who`
    /// holds, each once, in the order the table keeps them.
    fn get_user_land_units(&self, who: &AccountId, metaverse_id: &MetaverseId) -> (r: Vec<(i32, i32)>)
        ensures
            r@.no_duplicates(),
            forall|c: (i32, i32)|
                #[trigger] r@.contains(c) <==> holds_land_unit(self@, self.spec_runtime(), *who, *metaverse_id, c),
    {
        let mut total_land_units: Vec<(i32, i32)> = Vec::new();
        let n = self.land_units.entry_count();
        let mut i: usize = 0;
        proof {
            self.land_units.lemma_entries();
        }
        while i < n
            invariant
                i <= n,
                n == self.land_units.entries().len(),
                self.wf(),
                forall|t: int|
                    0 <= t < total_land_units@.len() ==> exists|j: int|
                        0 <= j < i && #[trigger] self.land_units.entries()[j].0 == land_key(
                            *metaverse_id,
                            #[trigger] total_land_units@[t],
                        ),
                forall|t: int|
                    0 <= t < total_land_units@.len() ==> self@.land_units.contains_key(
                        #[trigger] land_key(*metaverse_id, total_land_units@[t]),
                    ) && self@.land_units[land_key(*metaverse_id, total_land_units@[t])] is Token,
                total_land_units@.no_duplicates(),
                forall|t: int|
                    0 <= t < total_land_units@.len() ==> holds_land_unit(
                        self@,
                        self.spec_runtime(),
                        *who,
                        *metaverse_id,
                        #[trigger] total_land_units@[t],
                    ),
                forall|j: int|
                    0 <= j < i && (#[trigger] self.land_units.entries()[j]).0.metaverse_id == *metaverse_id && holds(
                        self.spec_runtime(),
                        *who,
                        self.land_units.entries()[j].1,
                        false,
                        *metaverse_id,
                    ) ==> total_land_units@.contains((self.land_units.entries()[j].0.x, self.land_units.entries()[j].0.y)),
            decreases n - i,
        {
            let entry = self.land_units.entry_at(i);
            let key = entry.0;
            let owner = entry.1;
            if key.metaverse_id == *metaverse_id && self.check_if_land_or_estate_owner(
                *who,
                owner,
                false,
                *metaverse_id,
            ) {
                let ghost before = total_land_units@;
                let coordinate = (key.x, key.y);
                proof {
                    self.land_units.lemma_entries();
                    assert(land_key(*metaverse_id, coordinate) == key);
                    assert forall|t: int| 0 <= t < before.len() implies before[t] != coordinate by {
                        let j = choose|j: int|
                            0 <= j < i && #[trigger] self.land_units.entries()[j].0 == land_key(
                                *metaverse_id,
                                before[t],
                            );
                        if before[t] == coordinate {
                            assert(self.land_units.entries()[j].0 == self.land_units.entries()[i as int].0);
                        }
                    }
                }
                total_land_units.push(coordinate);
                proof {
                    let after = total_land_units@;
                    assert forall|a: int, b: int| 0 <= a < after.len() && 0 <= b < after.len() && a != b implies after[a]
                        != after[b] by {
                        if a < before.len() && b < before.len() {
                            assert(before[a] != before[b]);
                        } else if a == before.len() {
                            assert(before[b] != coordinate);
                        } else {
                            assert(before[a] != coordinate);
                        }
                    }
                    assert forall|t: int| 0 <= t < after.len() implies exists|j: int|
                        0 <= j < i + 1 && #[trigger] self.land_units.entries()[j].0 == land_key(
                            *metaverse_id,
                            #[trigger] after[t],
                        ) by {
                        if t < before.len() {
                            assert(after[t] == before[t]);
                            let j = choose|j: int|
                                0 <= j < i && #[trigger] self.land_units.entries()[j].0 == land_key(
                                    *metaverse_id,
                                    before[t],
                                );
                            assert(0 <= j < i + 1);
                        } else {
                            assert(self.land_units.entries()[i as int].0 == land_key(*metaverse_id, after[t]));
                        }
                    }
                    assert(after == before.push(coordinate));
                    assert(after[before.len() as int] == coordinate);
                    assert forall|x: (i32, i32)| before.contains(x) implies #[trigger] after.contains(x) by {
                        let t = choose|t: int| 0 <= t < before.len() && before[t] == x;
                        assert(after[t] == x);
                    }
                    assert(holds_land_unit(self@, self.spec_runtime(), *who, *metaverse_id, coordinate)) by {
                        assert(self@.land_units.contains_key(key));
                        assert(self@.land_units[key] == owner);
                    }
                }
            }
            i = i + 1;
        }
        proof {
            self.land_units.lemma_entries();
            assert forall|c: (i32, i32)| holds_land_unit(self@, self.spec_runtime(), *who, *metaverse_id, c) implies #[trigger] total_land_units@.contains(c) by {
                let key = land_key(*metaverse_id, c);
                let j = choose|j: int| 0 <= j < self.land_units.entries().len() && #[trigger] self.land_units.entries()[j].0 == key;
                assert(self@.land_units[key] == self.land_units.entries()[j].1);
            }
            assert forall|c: (i32, i32)| #[trigger] total_land_units@.contains(c) implies holds_land_unit(self@, self.spec_runtime(), *who, *metaverse_id, c) by {
                let t = choose|t: int| 0 <= t < total_land_units@.len() && total_land_units@[t] == c;
                assert(holds_land_unit(self@, self.spec_runtime(), *who, *metaverse_id, total_land_units@[t]));
            }
        }
        total_land_units
    }

    /// Whether `who` holds the token of some land unit of `metaverse_id`.
    fn is_user_own_metaverse_land(&self, who: &AccountId, metaverse_id: &MetaverseId) -> (r: bool)
        ensures
            r == exists|c: (i32, i32)| #[trigger] holds_land_unit(self@, self.spec_runtime(), *who, *metaverse_id, c),
    {
        let units = self.get_user_land_units(who, metaverse_id);
        if units.len() > 0 {
            proof {
                assert(units@.contains(units@[0]));
            }
            true
        } else {
            proof {
                assert forall|c: (i32, i32)| !holds_land_unit(self@, self.spec_runtime(), *who, *metaverse_id, c) by {
                    if holds_land_unit(self@, self.spec_runtime(), *who, *metaverse_id, c) {
                        assert(units@.contains(c));
                    }
                }
            }
            false
        }
    }
}

/// What the estate pallet offers other pallets about undeployed land blocks.
pub trait UndeployedLandBlocksTrait: Sized {
    /// The pallet's storage is well formed.
    spec fn blocks_well_formed(&self) -> bool;

    /// The pallet's storage.
    spec fn blocks_state(&self) -> EstateState;

    /// Issues `number_of_land_block` blocks of `number_land_units_per_land_block`
    /// land units each to `beneficiary`, giving back their identifiers.
    fn issue_undeployed_land_blocks(
        &mut self,
        beneficiary: &AccountId,
        number_of_land_block: u32,
        number_land_units_per_land_block: u32,
        undeployed_land_block_type: UndeployedLandBlockType,
    ) -> (r: Result<Vec<UndeployedLandBlockId>, DispatchError>)
        requires
            old(self).blocks_well_formed(),
        ensures
            final(self).blocks_well_formed(),
            ({
                let step = issue_step(
                    old(self).blocks_state(),
                    *beneficiary,
                    number_of_land_block,
                    number_land_units_per_land_block,
                    undeployed_land_block_type,
                );
                &&& final(self).blocks_state() == after(old(self).blocks_state(), step)
                &&& match r {
                    Ok(ids) => step is Ok && ids@ == issued_ids(
                        old(self).blocks_state(),
                        number_of_land_block as nat,
                    ),
                    Err(e) => step == Err::<EstateState, DispatchError>(e),
                }
            }),
    ;

    /// Moves block `undeployed_land_block_id` from `who` to `to`.
    fn transfer_undeployed_land_block(
        &mut self,
        who: &AccountId,
        to: &AccountId,
        undeployed_land_block_id: UndeployedLandBlockId,
    ) -> (r: Result<UndeployedLandBlockId, DispatchError>)
        requires
            old(self).blocks_well_formed(),
        ensures
            final(self).blocks_well_formed(),
            ({
                let step = transfer_block_step(
                    old(self).blocks_state(),
                    *who,
                    *to,
                    undeployed_land_block_id,
                );
                &&& final(self).blocks_state() == after(old(self).blocks_state(), step)
                &&& r == (match step {
                    Ok(_) => Ok::<UndeployedLandBlockId, DispatchError>(undeployed_land_block_id),
                    Err(e) => Err(e),
                })
            }),
    ;

    /// Burns block `undeployed_land_block_id`, which must be frozen.
    fn burn_undeployed_land_block(&mut self, undeployed_land_block_id: UndeployedLandBlockId) -> (r:
        Result<UndeployedLandBlockId, DispatchError>)
        requires
            old(self).blocks_well_formed(),
        ensures
            final(self).blocks_well_formed(),
            final(self).blocks_state() == after(
                old(self).blocks_state(),
                burn_step(old(self).blocks_state(), undeployed_land_block_id),
            ),
            r == (match burn_step(old(self).blocks_state(), undeployed_land_block_id) {
                Ok(_) => Ok::<UndeployedLandBlockId, DispatchError>(undeployed_land_block_id),
                Err(e) => Err(e),
            }),
    ;

    /// Freezes block `undeployed_land_block_id`.
    fn freeze_undeployed_land_block(&mut self, undeployed_land_block_id: UndeployedLandBlockId) -> (r:
        Result<UndeployedLandBlockId, DispatchError>)
        requires
            old(self).blocks_well_formed(),
        ensures
            final(self).blocks_well_formed(),
            final(self).blocks_state() == after(
                old(self).blocks_state(),
                freeze_step(old(self).blocks_state(), undeployed_land_block_id),
            ),
            r == (match freeze_step(old(self).blocks_state(), undeployed_land_block_id) {
                Ok(_) => Ok::<UndeployedLandBlockId, DispatchError>(undeployed_land_block_id),
                Err(e) => Err(e),
            }),
    ;
}

impl<T: Config> UndeployedLandBlocksTrait for Pallet<T> {
    open spec fn blocks_well_formed(&self) -> bool {
        self.wf()
    }

    open spec fn blocks_state(&self) -> EstateState {
        self@
    }

    fn issue_undeployed_land_blocks(
        &mut self,
        beneficiary: &AccountId,
        number_of_land_block: u32,
        number_land_units_per_land_block: u32,
        undeployed_land_block_type: UndeployedLandBlockType,
    ) -> (r: Result<Vec<UndeployedLandBlockId>, DispatchError>) {
        self.do_issue_undeployed_land_blocks(
            *beneficiary,
            number_of_land_block,
            number_land_units_per_land_block,
            undeployed_land_block_type,
        )
    }

    fn transfer_undeployed_land_block(
        &mut self,
        who: &AccountId,
        to: &AccountId,
        undeployed_land_block_id: UndeployedLandBlockId,
    ) -> (r: Result<UndeployedLandBlockId, DispatchError>) {
        self.do_transfer_undeployed_land_block(*who, *to, undeployed_land_block_id)
    }

    fn burn_undeployed_land_block(&mut self, undeployed_land_block_id: UndeployedLandBlockId) -> (r:
        Result<UndeployedLandBlockId, DispatchError>) {
        self.do_burn_undeployed_land_block(undeployed_land_block_id)
    }

    fn freeze_undeployed_land_block(&mut self, undeployed_land_block_id: UndeployedLandBlockId) -> (r:
        Result<UndeployedLandBlockId, DispatchError>) {
        self.do_freeze_undeployed_land_block(undeployed_land_block_id)
    }
}

/// What the estate pallet offers the auction pallet about estates and land units.
pub trait Estate: Sized {
    /// The pallet's storage is well formed.
    spec fn estate_well_formed(&self) -> bool;

    /// The pallet's storage.
    spec fn estate_state(&self) -> EstateState;

    /// Whether `item_id` is in an auction.
    spec fn item_in_auction(&self, item_id: ItemId) -> bool;

    /// Why moving estate `estate_id` from `from` to `to` is refused before its
    /// token is asked to move, if it is.
    spec fn estate_transfer_refused(&self, estate_id: EstateId, from: AccountId, to: AccountId) -> Option<
        DispatchError,
    >;

    /// Why moving the land unit at `coordinate` of `metaverse_id` from `from`
    /// to `to` is refused before its token is asked to move, if it is.
    spec fn land_transfer_refused(
        &self,
        coordinate: (i32, i32),
        from: AccountId,
        to: AccountId,
        metaverse_id: MetaverseId,
    ) -> Option<DispatchError>;

    /// Whether the token of estate `estate_id` may move between holders.
    spec fn estate_token_transferable(&self, estate_id: EstateId) -> bool;

    /// Whether the token of the land unit at `coordinate` of `metaverse_id`
    /// may move between holders.
    spec fn land_token_transferable(&self, coordinate: (i32, i32), metaverse_id: MetaverseId) -> bool;

    /// `self` is `before` with the token of estate `estate_id` moved from
    /// `from` to `to`, and nothing else of the tokens changed.
    spec fn estate_token_moved(&self, before: Self, estate_id: EstateId, from: AccountId, to: AccountId) -> bool;

    /// `self` is `before` with the token of the land unit at `coordinate` of
    /// `metaverse_id` moved from `from` to `to`, and nothing else of the
    /// tokens changed.
    spec fn land_token_moved(
        &self,
        before: Self,
        coordinate: (i32, i32),
        from: AccountId,
        to: AccountId,
        metaverse_id: MetaverseId,
    ) -> bool;

    /// The tokens, classes and auctions of `self` are those of `before`.
    spec fn same_runtime(&self, before: Self) -> bool;

    /// Moves estate `estate_id`, which must be in an auction, from `from` to `to`.
    fn transfer_estate(&mut self, estate_id: EstateId, from: &AccountId, to: &AccountId) -> (r: Result<
        EstateId,
        DispatchError,
    >)
        requires
            old(self).estate_well_formed(),
        ensures
            final(self).estate_well_formed(),
            ({
                let before = old(self).estate_state();
                let in_auction = old(self).item_in_auction(ItemId::Estate(estate_id));
                let refusal = old(self).estate_transfer_refused(estate_id, *from, *to);
                &&& !in_auction ==> r == Err::<EstateId, DispatchError>(
                    DispatchError::Module(Error::EstateNotInAuction),
                )
                &&& in_auction && refusal is Some ==> r == Err::<EstateId, DispatchError>(refusal->Some_0)
                &&& in_auction && refusal is None && old(self).estate_token_transferable(estate_id) ==> r is Ok
                &&& in_auction && *from == *to ==> r == Err::<EstateId, DispatchError>(
                    DispatchError::Module(Error::AlreadyOwnTheEstate),
                )
                &&& r is Ok ==> {
                    &&& r == Ok::<EstateId, DispatchError>(estate_id)
                    &&& in_auction
                    &&& refusal is None
                    &&& before.estates.contains_key(estate_id)
                    &&& before.estate_owner[estate_id] is Token
                    &&& *from != *to
                    &&& final(self).estate_state() == (EstateState {
                        events: before.events.push(Event::TransferredEstate(estate_id, *from, *to)),
                        ..before
                    })
                    &&& final(self).estate_token_moved(*old(self), estate_id, *from, *to)
                }
                &&& r is Err ==> final(self).estate_state() == before && final(self).same_runtime(*old(self))
            }),
    ;

    /// Moves the land unit at `coordinate`, which must be in an auction, from
    /// `from` to the account in `to`, within the metaverse in `to`.
    fn transfer_landunit(&mut self, coordinate: (i32, i32), from: &AccountId, to: &(AccountId, MetaverseId)) -> (r:
        Result<(i32, i32), DispatchError>)
        requires
            old(self).estate_well_formed(),
        ensures
            final(self).estate_well_formed(),
            ({
                let before = old(self).estate_state();
                let key = land_key(to.1, coordinate);
                let in_auction = old(self).item_in_auction(ItemId::LandUnit(coordinate, to.1));
                let refusal = old(self).land_transfer_refused(coordinate, *from, to.0, to.1);
                &&& !in_auction ==> r == Err::<(i32, i32), DispatchError>(
                    DispatchError::Module(Error::LandUnitNotInAuction),
                )
                &&& in_auction && refusal is Some ==> r == Err::<(i32, i32), DispatchError>(refusal->Some_0)
                &&& in_auction && refusal is None && old(self).land_token_transferable(coordinate, to.1) ==> r is Ok
                &&& in_auction && !before.land_units.contains_key(key) ==> r == Err::<(i32, i32), DispatchError>(
                    DispatchError::Module(Error::NoPermission),
                )
                &&& in_auction && before.land_units.contains_key(key) && *from == to.0 ==> r == Err::<
                    (i32, i32),
                    DispatchError,
                >(DispatchError::Module(Error::AlreadyOwnTheLandUnit))
                &&& r is Ok ==> {
                    &&& r == Ok::<(i32, i32), DispatchError>(coordinate)
                    &&& in_auction
                    &&& refusal is None
                    &&& before.land_units.contains_key(key)
                    &&& before.land_units[key] is Token
                    &&& *from != to.0
                    &&& final(self).estate_state() == (EstateState {
                        events: before.events.push(
                            Event::TransferredLandUnit(to.1, coordinate, *from, to.0),
                        ),
                        ..before
                    })
                    &&& final(self).land_token_moved(*old(self), coordinate, *from, to.0, to.1)
                }
                &&& r is Err ==> final(self).estate_state() == before && final(self).same_runtime(*old(self))
            }),
    ;

    /// Whether estate `estate_id` exists.
    fn check_estate(&self, estate_id: EstateId) -> (r: Result<bool, DispatchError>)
        requires
            self.estate_well_formed(),
        ensures
            r == Ok::<bool, DispatchError>(self.estate_state().estates.contains_key(estate_id)),
    ;

    /// Whether the land unit at `coordinate` of `metaverse_id` exists.
    fn check_landunit(&self, metaverse_id: MetaverseId, coordinate: (i32, i32)) -> (r: Result<
        bool,
        DispatchError,
    >)
        requires
            self.estate_well_formed(),
        ensures
            r == Ok::<bool, DispatchError>(
                self.estate_state().land_units.contains_key(land_key(metaverse_id, coordinate)),
            ),
    ;

    /// The number of land units.
    fn get_total_land_units(&self) -> (r: u64)
        ensures
            r == self.estate_state().all_land_units_count,
    ;

    /// The number of land units in undeployed land blocks.
    fn get_total_undeploy_land_units(&self) -> (r: u64)
        ensures
            r == self.estate_state().total_undeployed_land_unit,
    ;
}

impl<T: Config> Estate for Pallet<T> {
    open spec fn estate_well_formed(&self) -> bool {
        self.wf()
    }

    open spec fn estate_state(&self) -> EstateState {
        self@
    }

    open spec fn item_in_auction(&self, item_id: ItemId) -> bool {
        self.spec_runtime().in_auction(item_id)
    }

    open spec fn estate_transfer_refused(&self, estate_id: EstateId, from: AccountId, to: AccountId) -> Option<
        DispatchError,
    > {
        estate_transfer_refusal(self@, self.spec_runtime(), from, to, estate_id)
    }

    open spec fn land_transfer_refused(
        &self,
        coordinate: (i32, i32),
        from: AccountId,
        to: AccountId,
        metaverse_id: MetaverseId,
    ) -> Option<DispatchError> {
        land_transfer_refusal(self@, self.spec_runtime(), from, to, metaverse_id, coordinate)
    }

    open spec fn estate_token_transferable(&self, estate_id: EstateId) -> bool {
        self.spec_runtime().transferable(
            owner_nft(self.spec_runtime(), self@.estate_owner[estate_id], true, self@.estates[estate_id].metaverse_id),
        )
    }

    open spec fn land_token_transferable(&self, coordinate: (i32, i32), metaverse_id: MetaverseId) -> bool {
        self.spec_runtime().transferable(
            owner_nft(self.spec_runtime(), self@.land_units[land_key(metaverse_id, coordinate)], false, metaverse_id),
        )
    }

    open spec fn estate_token_moved(&self, before: Self, estate_id: EstateId, from: AccountId, to: AccountId) -> bool {
        let rt = before.spec_runtime();
        moved(
            rt,
            self.spec_runtime(),
            owner_nft(rt, before@.estate_owner[estate_id], true, before@.estates[estate_id].metaverse_id),
            from,
            to,
        )
    }

    open spec fn land_token_moved(
        &self,
        before: Self,
        coordinate: (i32, i32),
        from: AccountId,
        to: AccountId,
        metaverse_id: MetaverseId,
    ) -> bool {
        let rt = before.spec_runtime();
        moved(
            rt,
            self.spec_runtime(),
            owner_nft(rt, before@.land_units[land_key(metaverse_id, coordinate)], false, metaverse_id),
            from,
            to,
        )
    }

    open spec fn same_runtime(&self, before: Self) -> bool {
        self.spec_runtime() == before.spec_runtime()
    }

    fn transfer_estate(&mut self, estate_id: EstateId, from: &AccountId, to: &AccountId) -> (r: Result<
        EstateId,
        DispatchError,
    >) {
        self.transfer_estate_in_auction(estate_id, *from, *to)
    }

    fn transfer_landunit(&mut self, coordinate: (i32, i32), from: &AccountId, to: &(AccountId, MetaverseId)) -> (r:
        Result<(i32, i32), DispatchError>) {
        if !self.runtime.check_item_in_auction(ItemId::LandUnit(coordinate, to.1)) {
            return Err(DispatchError::Module(Error::LandUnitNotInAuction));
        }
        self.do_transfer_landunit(coordinate, *from, to.0, to.1)
    }

    fn check_estate(&self, estate_id: EstateId) -> (r: Result<bool, DispatchError>) {
        proof {
            self.lemma_tables();
        }
        Ok(self.estates.contains_key(&estate_id))
    }

    fn check_landunit(&self, metaverse_id: MetaverseId, coordinate: (i32, i32)) -> (r: Result<
        bool,
        DispatchError,
    >) {
        Ok(self.land_units.contains_key(&LandUnitKey { metaverse_id, x: coordinate.0, y: coordinate.1 }))
    }

    fn get_total_land_units(&self) -> (r: u64) {
        self.all_land_units_count
    }

    fn get_total_undeploy_land_units(&self) -> (r: u64) {
        self.total_undeployed_land_unit
    }
}

/// Freezing a block and then unfreezing it gives the blocks back as they were;
/// only the two events remain.
pub proof fn law_freeze_then_unfreeze(s: EstateState, id: UndeployedLandBlockId)
    requires
        freeze_step(s, id) is Ok,
    ensures
        unfreeze_step(freeze_step(s, id)->Ok_0, Origin::Root, id) == Ok::<EstateState, DispatchError>(
            EstateState {
                events: s.events.push(Event::UndeployedLandBlockFreezed(id)).push(
                    Event::UndeployedLandBlockUnfreezed(id),
                ),
                ..s
            },
        ),
{
    let t = freeze_step(s, id)->Ok_0;
    let b = s.undeployed_land_blocks[id];
    assert(with_lock(with_lock(b, true), false) == b);
    assert(t.undeployed_land_blocks.insert(id, with_lock(t.undeployed_land_blocks[id], false))
        =~= s.undeployed_land_blocks);
}

/// Unfreezing a frozen block and then freezing it gives the blocks back as
/// they were; only the two events remain.
pub proof fn law_unfreeze_then_freeze(s: EstateState, id: UndeployedLandBlockId)
    requires
        unfreeze_step(s, Origin::Root, id) is Ok,
    ensures
        freeze_step(unfreeze_step(s, Origin::Root, id)->Ok_0, id) == Ok::<EstateState, DispatchError>(
            EstateState {
                events: s.events.push(Event::UndeployedLandBlockUnfreezed(id)).push(
                    Event::UndeployedLandBlockFreezed(id),
                ),
                ..s
            },
        ),
{
    let t = unfreeze_step(s, Origin::Root, id)->Ok_0;
    let b = s.undeployed_land_blocks[id];
    assert(with_lock(with_lock(b, false), true) == b);
    assert(t.undeployed_land_blocks.insert(id, with_lock(t.undeployed_land_blocks[id], true))
        =~= s.undeployed_land_blocks);
}

/// Approving an account for a block and then withdrawing the approval leaves
/// the block unapproved and otherwise as it was; a block that had no approval
/// is back as it was.
pub proof fn law_approve_then_unapprove(
    s: EstateState,
    who: AccountId,
    to: AccountId,
    id: UndeployedLandBlockId,
)
    requires
        approval_step(
            s,
            Origin::Signed(who),
            id,
            Some(to),
            Event::UndeployedLandBlockApproved(who, to, id),
        ) is Ok,
    ensures
        ({
            let t = approval_step(
                s,
                Origin::Signed(who),
                id,
                Some(to),
                Event::UndeployedLandBlockApproved(who, to, id),
            )->Ok_0;
            let u = approval_step(
                t,
                Origin::Signed(who),
                id,
                None,
                Event::UndeployedLandBlockUnapproved(id),
            );
            &&& u is Ok
            &&& u->Ok_0.undeployed_land_blocks == s.undeployed_land_blocks.insert(
                id,
                UndeployedLandBlock { approved: None, ..s.undeployed_land_blocks[id] },
            )
            &&& s.undeployed_land_blocks[id].approved is None ==> u->Ok_0.undeployed_land_blocks
                == s.undeployed_land_blocks
        }),
{
    let t = approval_step(
        s,
        Origin::Signed(who),
        id,
        Some(to),
        Event::UndeployedLandBlockApproved(who, to, id),
    )->Ok_0;
    let u = approval_step(t, Origin::Signed(who), id, None, Event::UndeployedLandBlockUnapproved(id))->Ok_0;
    assert(u.undeployed_land_blocks =~= s.undeployed_land_blocks.insert(
        id,
        UndeployedLandBlock { approved: None, ..s.undeployed_land_blocks[id] },
    ));
    if s.undeployed_land_blocks[id].approved is None {
        assert(u.undeployed_land_blocks =~= s.undeployed_land_blocks);
    }
}

/// Moving a block to another account and back gives the blocks and the owner
/// index back as they were.
pub proof fn law_transfer_there_and_back(
    s: EstateState,
    who: AccountId,
    to: AccountId,
    id: UndeployedLandBlockId,
)
    requires
        state_inv(s),
        transfer_block_step(s, who, to, id) is Ok,
    ensures
        ({
            let t = transfer_block_step(s, who, to, id)->Ok_0;
            let u = transfer_block_step(t, to, who, id);
            &&& u is Ok
            &&& u->Ok_0.undeployed_land_blocks == s.undeployed_land_blocks
            &&& u->Ok_0.undeployed_land_blocks_owner == s.undeployed_land_blocks_owner
            &&& u->Ok_0.events == s.events.push(Event::UndeployedLandBlockTransferred(who, to, id)).push(
                Event::UndeployedLandBlockTransferred(to, who, id),
            )
        }),
{
    let t = transfer_block_step(s, who, to, id)->Ok_0;
    let u = transfer_block_step(t, to, who, id)->Ok_0;
    assert(u.undeployed_land_blocks =~= s.undeployed_land_blocks);
    let kw = BlockOwnerKey { account: who, block: id };
    let kt = BlockOwnerKey { account: to, block: id };
    if who != to {
        assert(!s.undeployed_land_blocks_owner.contains(kt));
    }
    assert(u.undeployed_land_blocks_owner =~= s.undeployed_land_blocks_owner);
}

/// Under the invariant, the owner index holds an account under a block
/// exactly when the block exists and the account owns it.
pub proof fn law_invariant_gives_exact_owner_index(s: EstateState)
    requires
        state_inv(s),
    ensures
        owner_index_exact(s),
{
    assert forall|a: AccountId, b: UndeployedLandBlockId|
        #[trigger] s.undeployed_land_blocks_owner.contains(BlockOwnerKey { account: a, block: b }) <==> (
        s.undeployed_land_blocks.contains_key(b) && s.undeployed_land_blocks[b].owner == a) by {
        if s.undeployed_land_blocks.contains_key(b) && s.undeployed_land_blocks[b].owner == a {
            assert(s.undeployed_land_blocks_owner.contains(
                BlockOwnerKey { account: s.undeployed_land_blocks[b].owner, block: b },
            ));
        }
    }
}

/// Moving a block, whether it succeeds or fails, keeps the owner index
/// exact: afterwards it holds an account under a block exactly when the block
/// exists and the account owns it.
pub proof fn law_transfer_keeps_owner_index(
    s: EstateState,
    who: AccountId,
    to: AccountId,
    id: UndeployedLandBlockId,
)
    requires
        owner_index_exact(s),
    ensures
        owner_index_exact(after(s, transfer_block_step(s, who, to, id))),
{
    let t = after(s, transfer_block_step(s, who, to, id));
    if transfer_block_step(s, who, to, id) is Ok {
        assert forall|a: AccountId, b: UndeployedLandBlockId|
            #[trigger] t.undeployed_land_blocks_owner.contains(BlockOwnerKey { account: a, block: b }) <==> (
            t.undeployed_land_blocks.contains_key(b) && t.undeployed_land_blocks[b].owner == a) by {
            assert(s.undeployed_land_blocks_owner.contains(BlockOwnerKey { account: a, block: b }) <==> (
            s.undeployed_land_blocks.contains_key(b) && s.undeployed_land_blocks[b].owner == a));
        }
    }
}

/// Issuing one block, freezing it and burning it gives the blocks, the owner
/// index and the undeployed total back as they were; the identifier stays
/// used.
pub proof fn law_issue_freeze_burn(
    s: EstateState,
    beneficiary: AccountId,
    units: u32,
    block_type: UndeployedLandBlockType,
)
    requires
        state_inv(s),
        issue_step(s, beneficiary, 1, units, block_type) is Ok,
    ensures
        ({
            let id = s.next_undeployed_land_block_id;
            let t = issue_step(s, beneficiary, 1, units, block_type)->Ok_0;
            let f = freeze_step(t, id);
            let u = burn_step(f->Ok_0, id);
            &&& f is Ok
            &&& u is Ok
            &&& u->Ok_0.undeployed_land_blocks == s.undeployed_land_blocks
            &&& u->Ok_0.undeployed_land_blocks_owner == s.undeployed_land_blocks_owner
            &&& u->Ok_0.total_undeployed_land_unit == s.total_undeployed_land_unit
            &&& u->Ok_0.next_undeployed_land_block_id == id + 1
            &&& u->Ok_0.events == s.events.push(Event::UndeployedLandBlockIssued(beneficiary, id)).push(
                Event::UndeployedLandBlockFreezed(id),
            ).push(Event::UndeployedLandBlockBurnt(id))
        }),
{
    let id = s.next_undeployed_land_block_id;
    let t = issue_step(s, beneficiary, 1, units, block_type)->Ok_0;
    assert(t.undeployed_land_blocks.contains_key(id));
    assert(t.undeployed_land_blocks[id] == new_block(id, beneficiary, units, block_type));
    let f = freeze_step(t, id)->Ok_0;
    let u = burn_step(f, id)->Ok_0;
    assert(!s.undeployed_land_blocks.contains_key(id));
    assert(u.undeployed_land_blocks =~= s.undeployed_land_blocks);
    let k = BlockOwnerKey { account: beneficiary, block: id };
    assert(!s.undeployed_land_blocks_owner.contains(k));
    assert(u.undeployed_land_blocks_owner =~= s.undeployed_land_blocks_owner);
    assert(issued_ids(s, 1) =~= seq![id]);
    assert(u.events =~= s.events.push(Event::UndeployedLandBlockIssued(beneficiary, id)).push(
        Event::UndeployedLandBlockFreezed(id),
    ).push(Event::UndeployedLandBlockBurnt(id)));
}

/// The identifiers that new estates and newly issued blocks get are not in
/// use: the next estate identifier names no estate, and issuing hands out
/// identifiers that name no block, each once (as many as fit below the
/// largest identifier, which is all that issuing ever hands out).
pub proof fn law_new_identifiers_are_fresh(s: EstateState, n: nat)
    requires
        state_inv(s),
        s.next_undeployed_land_block_id + n <= u128::MAX,
    ensures
        !s.estates.contains_key(s.next_estate_id),
        !s.estate_owner.contains_key(s.next_estate_id),
        forall|i: int| 0 <= i < n ==> !s.undeployed_land_blocks.contains_key(#[trigger] issued_ids(s, n)[i]),
        issued_ids(s, n).no_duplicates(),
{
    assert forall|i: int| 0 <= i < n implies !s.undeployed_land_blocks.contains_key(
        #[trigger] issued_ids(s, n)[i],
    ) by {
        let id = issued_ids(s, n)[i];
        assert(id == s.next_undeployed_land_block_id + i);
        if s.undeployed_land_blocks.contains_key(id) {
            assert(id < s.next_undeployed_land_block_id);
        }
    }
    assert forall|i: int, j: int| 0 <= i < n && 0 <= j < n && i != j implies issued_ids(s, n)[i]
        != issued_ids(s, n)[j] by {
        assert(issued_ids(s, n)[i] == s.next_undeployed_land_block_id + i);
        assert(issued_ids(s, n)[j] == s.next_undeployed_land_block_id + j);
    }
}

/// Minting the token of one more land unit extends the tokens minted so far.
proof fn lemma_land_tokens_step<T: Config>(
    rt0: T,
    rti: T,
    rt1: T,
    metaverse_id: MetaverseId,
    beneficiary: AccountId,
    done: Seq<(i32, i32)>,
    coordinate: (i32, i32),
    lands_i: Map<LandUnitKey, OwnerId>,
    owner: OwnerId,
)
    requires
        land_tokens_minted(rt0, rti, metaverse_id, beneficiary, done, lands_i),
        land_token_minted(rti, rt1, metaverse_id, beneficiary, coordinate, Ok(owner)),
        !lands_i.contains_key(land_key(metaverse_id, coordinate)),
        forall|j: int| 0 <= j < done.len() ==> lands_i.contains_key(#[trigger] land_key(metaverse_id, done[j])),
    ensures
        land_tokens_minted(
            rt0,
            rt1,
            metaverse_id,
            beneficiary,
            done.push(coordinate),
            lands_i.insert(land_key(metaverse_id, coordinate), owner),
        ),
{
    let lands1 = lands_i.insert(land_key(metaverse_id, coordinate), owner);
    let all = done.push(coordinate);
    let class = rti.land_class(metaverse_id)->Ok_0;
    assert(rt0.land_class(metaverse_id) == rti.land_class(metaverse_id));
    let nft_new = (class, owner->Token_0);
    assert(land_nft(rt0, lands1, metaverse_id, coordinate) == nft_new);
    assert forall|j: int| 0 <= j < done.len() implies land_nft(rt0, lands1, metaverse_id, done[j]) == land_nft(
        rt0,
        lands_i,
        metaverse_id,
        done[j],
    ) && #[trigger] land_nft(rt0, lands_i, metaverse_id, done[j]) != nft_new && rti.token(land_nft(rt0, lands_i, metaverse_id, done[j]))
        is Some by {
        assert(lands_i.contains_key(land_key(metaverse_id, done[j])));
        let nj = land_nft(rt0, lands_i, metaverse_id, done[j]);
        assert(rti.token(nj) is Some);
    }
    assert(rt0.token(nft_new) is None) by {
        if rt0.token(nft_new) != rti.token(nft_new) {
            let j = choose|j: int|
                0 <= j < done.len() && nft_new == land_nft(rt0, lands_i, metaverse_id, done[j]);
            assert(land_nft(rt0, lands_i, metaverse_id, done[j]) != nft_new);
        }
    }
    assert forall|i: int| 0 <= i < all.len() implies {
        let nft = #[trigger] land_nft(rt0, lands1, metaverse_id, all[i]);
        &&& lands1[land_key(metaverse_id, all[i])] is Token
        &&& rt0.token(nft) is None
        &&& (rt1.token(nft) matches Some(x) && x.owner == beneficiary && x.metadata@ == land_token_metadata(all[i])
            && attributes_view(x.attributes) == land_token_attributes(metaverse_id, all[i]))
    } by {
        if i < done.len() {
            assert(all[i] == done[i]);
            let nj = land_nft(rt0, lands_i, metaverse_id, done[i]);
            assert(rt1.token(nj) == rti.token(nj));
        } else {
            assert(all[i] == coordinate);
        }
    }
    assert forall|n: (ClassId, TokenId)| #[trigger] rt1.token(n) != rt0.token(n) implies exists|i: int|
        0 <= i < all.len() && n == land_nft(rt0, lands1, metaverse_id, all[i]) by {
        if n == nft_new {
            assert(all[done.len() as int] == coordinate);
        } else {
            assert(rt1.token(n) == rti.token(n));
            let j = choose|j: int| 0 <= j < done.len() && n == land_nft(rt0, lands_i, metaverse_id, done[j]);
            assert(all[j] == done[j]);
            assert(land_nft(rt0, lands1, metaverse_id, done[j]) == land_nft(rt0, lands_i, metaverse_id, done[j]));
        }
    }
}

/// Turning one more land unit into a token-owned one extends what was
/// tokenized so far: a unit already owned by a token changes nothing, and a
/// unit owned by an account gets a new token.
proof fn lemma_tokenize_step<T: Config>(
    rt0: T,
    rti: T,
    rt1: T,
    metaverse_id: MetaverseId,
    account: AccountId,
    done: Seq<(i32, i32)>,
    coordinate: (i32, i32),
    lands0: Map<LandUnitKey, OwnerId>,
    lands_i: Map<LandUnitKey, OwnerId>,
    lands1: Map<LandUnitKey, OwnerId>,
)
    requires
        land_tokens_tokenized(rt0, rti, metaverse_id, account, done, lands0, lands_i),
        tokenized_land_units(lands0, lands_i, metaverse_id, done),
        lands0.contains_key(land_key(metaverse_id, coordinate)),
        lands_i[land_key(metaverse_id, coordinate)] is Token ==> rt1 == rti && lands1 == lands_i,
        lands_i[land_key(metaverse_id, coordinate)] is Account ==> land_token_minted(
            rti,
            rt1,
            metaverse_id,
            account,
            coordinate,
            Ok(lands1[land_key(metaverse_id, coordinate)]),
        ) && lands1 == lands_i.insert(land_key(metaverse_id, coordinate), lands1[land_key(metaverse_id, coordinate)]),
    ensures
        land_tokens_tokenized(rt0, rt1, metaverse_id, account, done.push(coordinate), lands0, lands1),
{
    let key = land_key(metaverse_id, coordinate);
    let all = done.push(coordinate);
    assert forall|j: int| 0 <= j < done.len() && (#[trigger] lands0[land_key(metaverse_id, done[j])]) is Account implies lands_i[land_key(
        metaverse_id,
        done[j],
    )] is Token by {
        assert(coordinate_keys(metaverse_id, done).contains(land_key(metaverse_id, done[j])));
    }
    if lands_i[key] is Token {
        if lands0[key] is Account {
            assert(coordinate_keys(metaverse_id, done).contains(key));
            let j = choose|j: int| 0 <= j < done.len() && done[j] == (key.x, key.y);
            assert(done[j] == coordinate);
            assert(all[j] == coordinate);
        }
        assert forall|i: int|
            0 <= i < all.len() && (#[trigger] lands0[land_key(metaverse_id, all[i])]) is Account implies {
            let nft = land_nft(rt0, lands1, metaverse_id, all[i]);
            &&& rt0.land_class(metaverse_id) is Ok
            &&& lands1[land_key(metaverse_id, all[i])] is Token
            &&& rt0.token(nft) is None
            &&& (rt1.token(nft) matches Some(x) && x.owner == account && x.metadata@ == land_token_metadata(all[i])
                && attributes_view(x.attributes) == land_token_attributes(metaverse_id, all[i]))
        } by {
            if i < done.len() {
                assert(all[i] == done[i]);
            } else {
                assert(all[i] == coordinate);
                let j = choose|j: int| 0 <= j < done.len() && done[j] == (key.x, key.y);
                assert(lands0[land_key(metaverse_id, done[j])] is Account);
            }
        }
        assert forall|n: (ClassId, TokenId)| #[trigger] rt1.token(n) != rt0.token(n) implies exists|i: int|
            0 <= i < all.len() && lands0[land_key(metaverse_id, all[i])] is Account && n == land_nft(
                rt0,
                lands1,
                metaverse_id,
                all[i],
            ) by {
            let j = choose|j: int|
                0 <= j < done.len() && lands0[land_key(metaverse_id, done[j])] is Account && n == land_nft(
                    rt0,
                    lands_i,
                    metaverse_id,
                    done[j],
                );
            assert(all[j] == done[j]);
        }
    } else {
        assert(!coordinate_keys(metaverse_id, done).contains(key)) by {
            if coordinate_keys(metaverse_id, done).contains(key) {
                assert(lands_i[key] is Token);
            }
        }
        assert(lands0[key] == lands_i[key]);
        let owner = lands1[key];
        let class = rti.land_class(metaverse_id)->Ok_0;
        let nft_new = (class, owner->Token_0);
        assert(rt0.land_class(metaverse_id) == rti.land_class(metaverse_id));
        assert(land_nft(rt0, lands1, metaverse_id, coordinate) == nft_new);
        assert forall|j: int| 0 <= j < done.len() && (#[trigger] lands0[land_key(metaverse_id, done[j])]) is Account implies land_nft(
            rt0,
            lands1,
            metaverse_id,
            done[j],
        ) == land_nft(rt0, lands_i, metaverse_id, done[j]) && land_nft(rt0, lands_i, metaverse_id, done[j]) != nft_new
            && rti.token(land_nft(rt0, lands_i, metaverse_id, done[j])) is Some by {
            assert(lands_i[land_key(metaverse_id, done[j])] is Token);
            assert(land_key(metaverse_id, done[j]) != key);
        }
        assert(rt0.token(nft_new) is None) by {
            if rt0.token(nft_new) != rti.token(nft_new) {
                let j = choose|j: int|
                    0 <= j < done.len() && lands0[land_key(metaverse_id, done[j])] is Account && nft_new == land_nft(
                        rt0,
                        lands_i,
                        metaverse_id,
                        done[j],
                    );
                assert(land_nft(rt0, lands_i, metaverse_id, done[j]) != nft_new);
            }
        }
        assert forall|i: int|
            0 <= i < all.len() && (#[trigger] lands0[land_key(metaverse_id, all[i])]) is Account implies {
            let nft = land_nft(rt0, lands1, metaverse_id, all[i]);
            &&& rt0.land_class(metaverse_id) is Ok
            &&& lands1[land_key(metaverse_id, all[i])] is Token
            &&& rt0.token(nft) is None
            &&& (rt1.token(nft) matches Some(x) && x.owner == account && x.metadata@ == land_token_metadata(all[i])
                && attributes_view(x.attributes) == land_token_attributes(metaverse_id, all[i]))
        } by {
            if i < done.len() {
                assert(all[i] == done[i]);
                let nj = land_nft(rt0, lands_i, metaverse_id, done[i]);
                assert(rt1.token(nj) == rti.token(nj));
                assert(land_key(metaverse_id, done[i]) != key);
            } else {
                assert(all[i] == coordinate);
            }
        }
        assert forall|n: (ClassId, TokenId)| #[trigger] rt1.token(n) != rt0.token(n) implies exists|i: int|
            0 <= i < all.len() && lands0[land_key(metaverse_id, all[i])] is Account && n == land_nft(
                rt0,
                lands1,
                metaverse_id,
                all[i],
            ) by {
            if n == nft_new {
                assert(all[done.len() as int] == coordinate);
            } else {
                assert(rt1.token(n) == rti.token(n));
                let j = choose|j: int|
                    0 <= j < done.len() && lands0[land_key(metaverse_id, done[j])] is Account && n == land_nft(
                        rt0,
                        lands_i,
                        metaverse_id,
                        done[j],
                    );
                assert(all[j] == done[j]);
                assert(land_key(metaverse_id, done[j]) != key);
            }
        }
    }
}

/// Land ownership moves with the token: where moving the land unit at
/// `coordinate` of `metaverse_id` from `from` to `to` is not refused and its
/// token moves, `to` holds the land unit and `from` no longer does, and every
/// land unit that another token stands for is held as before.
pub proof fn law_land_moves_with_token<T: Config>(
    s: EstateState,
    rt: T,
    rt1: T,
    from: AccountId,
    to: AccountId,
    metaverse_id: MetaverseId,
    coordinate: (i32, i32),
)
    requires
        land_transfer_refusal(s, rt, from, to, metaverse_id, coordinate) is None,
        moved(rt, rt1, owner_nft(rt, s.land_units[land_key(metaverse_id, coordinate)], false, metaverse_id), from, to),
    ensures
        holds_land_unit(s, rt1, to, metaverse_id, coordinate),
        !holds_land_unit(s, rt1, from, metaverse_id, coordinate),
        forall|who: AccountId, m: MetaverseId, c: (i32, i32)|
            s.land_units.contains_key(land_key(m, c)) && owner_nft(rt, s.land_units[land_key(m, c)], false, m)
                != owner_nft(rt, s.land_units[land_key(metaverse_id, coordinate)], false, metaverse_id) ==> (
            #[trigger] holds_land_unit(s, rt1, who, m, c) == holds_land_unit(s, rt, who, m, c)),
{
    assert forall|who: AccountId, m: MetaverseId, c: (i32, i32)|
        s.land_units.contains_key(land_key(m, c)) && owner_nft(rt, s.land_units[land_key(m, c)], false, m)
            != owner_nft(rt, s.land_units[land_key(metaverse_id, coordinate)], false, metaverse_id) implies (
        #[trigger] holds_land_unit(s, rt1, who, m, c) == holds_land_unit(s, rt, who, m, c)) by {
        assert(rt1.land_class(m) == rt.land_class(m));
        assert(owner_nft(rt1, s.land_units[land_key(m, c)], false, m) == owner_nft(rt, s.land_units[land_key(m, c)], false, m));
    }
    assert(rt1.land_class(metaverse_id) == rt.land_class(metaverse_id));
}

/// Estate ownership moves with the token: where moving estate `estate_id`
/// from `from` to `to` is not refused and its token moves, `to` holds the
/// estate and `from` no longer does.
pub proof fn law_estate_moves_with_token<T: Config>(
    s: EstateState,
    rt: T,
    rt1: T,
    from: AccountId,
    to: AccountId,
    estate_id: EstateId,
)
    requires
        estate_transfer_refusal(s, rt, from, to, estate_id) is None,
        moved(
            rt,
            rt1,
            owner_nft(rt, s.estate_owner[estate_id], true, s.estates[estate_id].metaverse_id),
            from,
            to,
        ),
    ensures
        holds(rt1, to, s.estate_owner[estate_id], true, s.estates[estate_id].metaverse_id),
        !holds(rt1, from, s.estate_owner[estate_id], true, s.estates[estate_id].metaverse_id),
{
    let m = s.estates[estate_id].metaverse_id;
    assert(rt1.estate_class(m) == rt.estate_class(m));
}

/// A block that is burnt or deployed is gone: it is no longer an undeployed
/// block, so a later deploy of it finds no block, and the owner index names
/// it under no account.
pub proof fn law_consumed_block_is_gone(s: EstateState, id: UndeployedLandBlockId)
    requires
        state_inv(s),
        s.undeployed_land_blocks.contains_key(id),
    ensures
        !consume_block(s, id).undeployed_land_blocks.contains_key(id),
        forall|a: AccountId| !#[trigger] consume_block(s, id).undeployed_land_blocks_owner.contains(
            BlockOwnerKey { account: a, block: id },
        ),
{
    assert forall|a: AccountId| !#[trigger] consume_block(s, id).undeployed_land_blocks_owner.contains(
        BlockOwnerKey { account: a, block: id },
    ) by {
        if a != s.undeployed_land_blocks[id].owner {
            assert(!s.undeployed_land_blocks_owner.contains(BlockOwnerKey { account: a, block: id }));
        }
    }
}

/// Whatever can be removed in turn can be removed in turn up to any point.
proof fn lemma_removable_prefix(land_units: Seq<(i32, i32)>, removed: Seq<(i32, i32)>, n: int)
    requires
        removable(land_units, removed),
        0 <= n <= removed.len(),
    ensures
        removable(land_units, removed.take(n)),
    decreases removed.len(),
{
    if n < removed.len() {
        assert(removed.drop_last().take(n) =~= removed.take(n));
        lemma_removable_prefix(land_units, removed.drop_last(), n);
    } else {
        assert(removed.take(n) =~= removed);
    }
}

/// Land units can be taken out in turn as long as each occurs at least as
/// often as it is taken out; what remains is the difference of the two.
proof fn lemma_remove_all_counts(land_units: Seq<(i32, i32)>, removed: Seq<(i32, i32)>)
    requires
        removed.to_multiset().subset_of(land_units.to_multiset()),
    ensures
        removable(land_units, removed),
        remove_all(land_units, removed).to_multiset() == land_units.to_multiset().sub(
            removed.to_multiset(),
        ),
    decreases removed.len(),
{
    broadcast use vstd::seq_lib::group_to_multiset_ensures;
    broadcast use vstd::multiset::group_multiset_axioms;

    if removed.len() == 0 {
        assert(removed.to_multiset() =~= vstd::multiset::Multiset::<(i32, i32)>::empty());
        assert(land_units.to_multiset().sub(removed.to_multiset()) =~= land_units.to_multiset());
    } else {
        let front = removed.drop_last();
        let v = removed.last();
        assert(removed =~= front.push(v));
        assert(front.to_multiset().subset_of(land_units.to_multiset())) by {
            assert forall|x: (i32, i32)| #[trigger] front.to_multiset().count(x) <= land_units.to_multiset().count(
                x,
            ) by {
                assert(removed.to_multiset().count(x) <= land_units.to_multiset().count(x));
            }
        }
        lemma_remove_all_counts(land_units, front);
        let rest = remove_all(land_units, front);
        assert(removed.to_multiset().count(v) <= land_units.to_multiset().count(v));
        assert(rest.to_multiset().count(v) > 0);
        assert(rest.contains(v));
        let i = rest.index_of_first(v);
        rest.index_of_first_ensures(v);
        let j = i->Some_0;
        assert(rest.remove_value(v) == rest.remove(j));
        assert(remove_all(land_units, removed) == rest.remove_value(v));
        assert(remove_all(land_units, removed).to_multiset() =~= land_units.to_multiset().sub(
            removed.to_multiset(),
        ));
    }
}

/// Adding land units to an estate and then removing the same land units can
/// always be done, and leaves the estate with the land units it had, each as
/// often as before; where none of the added ones was there already, in the
/// same order.  (Where one was, its earlier copy is the one removed.)
pub proof fn law_add_then_remove_land_units(land_units: Seq<(i32, i32)>, added: Seq<(i32, i32)>)
    ensures
        removable(land_units + added, added),
        remove_all(land_units + added, added).to_multiset() == land_units.to_multiset(),
        (forall|i: int| 0 <= i < added.len() ==> !land_units.contains(#[trigger] added[i]))
            ==> remove_all(land_units + added, added) == land_units,
{
    broadcast use vstd::seq_lib::group_to_multiset_ensures;
    broadcast use vstd::multiset::group_multiset_axioms;

    vstd::seq_lib::lemma_multiset_commutative(land_units, added);
    lemma_remove_all_counts(land_units + added, added);
    assert(remove_all(land_units + added, added).to_multiset() =~= land_units.to_multiset());
    if forall|i: int| 0 <= i < added.len() ==> !land_units.contains(#[trigger] added[i]) {
        lemma_remove_all_fresh(land_units, added, added.len() as int);
        assert(added.take(added.len() as int) =~= added);
        assert(land_units + added.skip(added.len() as int) =~= land_units);
    }
}

/// Taking out, in turn, the first `k` of land units that were appended after
/// `land_units`, none of which occurs in it, leaves `land_units` and the
/// appended ones that were not taken.
proof fn lemma_remove_all_fresh(land_units: Seq<(i32, i32)>, added: Seq<(i32, i32)>, k: int)
    requires
        forall|i: int| 0 <= i < added.len() ==> !land_units.contains(#[trigger] added[i]),
        0 <= k <= added.len(),
    ensures
        remove_all(land_units + added, added.take(k)) == land_units + added.skip(k),
    decreases k,
{
    if k == 0 {
        assert(added.take(0) =~= Seq::<(i32, i32)>::empty());
        assert(added.skip(0) =~= added);
    } else {
        lemma_remove_all_fresh(land_units, added, k - 1);
        let taken = added.take(k);
        assert(taken.drop_last() =~= added.take(k - 1));
        let v = added[k - 1];
        let rest = land_units + added.skip(k - 1);
        assert(rest[land_units.len() as int] == v);
        assert(!land_units.contains(v));
        rest.index_of_first_ensures(v);
        let j = rest.index_of_first(v)->Some_0;
        assert(j == land_units.len()) by {
            if j < land_units.len() {
                assert(land_units[j] == v);
            }
        }
        assert(rest.remove(j) =~= land_units + added.skip(k));
    }
}

/// A copy of a coordinate list.
pub fn copy_coordinates(v: &Vec<(i32, i32)>) -> (r: Vec<(i32, i32)>)
    ensures
        r@ == v@,
{
    let mut r: Vec<(i32, i32)> = Vec::new();
    let mut i: usize = 0;
    while i < v.len()
        invariant
            i <= v@.len(),
            r@ == v@.subrange(0, i as int),
        decreases v@.len() - i,
    {
        r.push(v[i]);
        i = i + 1;
        assert(r@ =~= v@.subrange(0, i as int));
    }
    assert(r@ =~= v@);
    r
}

} // verus!
