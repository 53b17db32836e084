use std::collections::BTreeMap;

use metaverse::estate::{Config, Estate, Event, MetaverseLandTrait, Pallet, UndeployedLandBlocksTrait};
use metaverse::types::{
    AccountId, Attributes, ClassId, DispatchError, Error, ItemId, MetaverseId, NftMetadata, Origin,
    NftToken, OwnerId, PalletId, TokenId, UndeployedLandBlock, UndeployedLandBlockType,
};

const ALICE: AccountId = 1;
const BOB: AccountId = 5;
const METAVERSE_ID: MetaverseId = 1;
const OTHER_METAVERSE_ID: MetaverseId = 9;
const LAND_CLASS: ClassId = 15;
const ESTATE_CLASS: ClassId = 16;

#[derive(Default)]
struct MockRuntime {
    next_token: TokenId,
    tokens: BTreeMap<(ClassId, TokenId), NftToken>,
    minted: Vec<(AccountId, ClassId, NftMetadata, Attributes)>,
    burnt: Vec<(ClassId, TokenId)>,
    in_auction: Vec<ItemId>,
    keeps_tokens: bool,
}

impl MockRuntime {
    fn owner(&self, nft: (ClassId, TokenId)) -> Option<AccountId> {
        self.tokens.get(&nft).map(|t| t.owner)
    }
}

impl Config for MockRuntime {
    fn land_class(&self, metaverse_id: MetaverseId) -> Result<ClassId, DispatchError> {
        if metaverse_id == OTHER_METAVERSE_ID {
            Err(DispatchError::Other("metaverse has no land class"))
        } else {
            Ok(LAND_CLASS)
        }
    }

    fn estate_class(&self, metaverse_id: MetaverseId) -> Result<ClassId, DispatchError> {
        if metaverse_id == OTHER_METAVERSE_ID {
            Err(DispatchError::Other("metaverse has no estate class"))
        } else {
            Ok(ESTATE_CLASS)
        }
    }

    fn token(&self, nft: (ClassId, TokenId)) -> Option<NftToken> {
        self.tokens.get(&nft).cloned()
    }

    fn in_auction(&self, item_id: ItemId) -> bool {
        self.in_auction.contains(&item_id)
    }

    fn mintable(&self, _class_id: ClassId) -> bool {
        true
    }

    fn transferable(&self, _nft: (ClassId, TokenId)) -> bool {
        true
    }

    fn burnable(&self, _nft: (ClassId, TokenId)) -> bool {
        !self.keeps_tokens
    }

    fn get_metaverse_land_class(&self, metaverse_id: MetaverseId) -> Result<ClassId, DispatchError> {
        self.land_class(metaverse_id)
    }

    fn get_metaverse_estate_class(&self, metaverse_id: MetaverseId) -> Result<ClassId, DispatchError> {
        self.estate_class(metaverse_id)
    }

    fn mint_token(
        &mut self,
        sender: &AccountId,
        class_id: ClassId,
        metadata: NftMetadata,
        attributes: Attributes,
    ) -> Result<TokenId, DispatchError> {
        let t = self.next_token;
        self.next_token += 1;
        self.tokens.insert(
            (class_id, t),
            NftToken { owner: *sender, metadata: metadata.clone(), attributes: attributes.clone() },
        );
        self.minted.push((*sender, class_id, metadata, attributes));
        Ok(t)
    }

    fn transfer_nft(&mut self, from: &AccountId, to: &AccountId, nft: &(ClassId, TokenId)) -> Result<(), DispatchError> {
        match self.tokens.get_mut(nft) {
            Some(t) if t.owner == *from => {
                t.owner = *to;
                Ok(())
            }
            _ => Err(DispatchError::Other("not owner")),
        }
    }

    fn burn_nft(&mut self, _account: &AccountId, nft: &(ClassId, TokenId)) -> Result<(), DispatchError> {
        if self.keeps_tokens {
            return Err(DispatchError::Other("token cannot be burnt"));
        }
        self.tokens.remove(nft);
        self.burnt.push(*nft);
        Ok(())
    }

    fn check_ownership(&self, account: &AccountId, nft: &(ClassId, TokenId)) -> Result<bool, DispatchError> {
        match self.tokens.get(nft) {
            Some(t) => Ok(t.owner == *account),
            None => Err(DispatchError::Other("asset not found")),
        }
    }

    fn check_item_in_auction(&self, item_id: ItemId) -> bool {
        self.in_auction(item_id)
    }
}

fn new_pallet() -> Pallet<MockRuntime> {
    Pallet::new(MockRuntime::default(), PalletId(*b"bit/land"), (-100, 100))
}

fn module(e: Error) -> DispatchError {
    DispatchError::Module(e)
}

#[test]
fn mint_land_should_reject_non_root() {
    let mut p = new_pallet();
    assert_eq!(p.mint_land(Origin::Signed(ALICE), BOB, METAVERSE_ID, (0, 0)), Err(DispatchError::BadOrigin));
    assert_eq!(p.all_land_units_count(), 0);
}

#[test]
fn mint_land_should_work() {
    let mut p = new_pallet();
    assert_eq!(p.mint_land(Origin::Root, BOB, METAVERSE_ID, (0, 0)), Ok(()));
    assert_eq!(p.get_land_units(METAVERSE_ID, (0, 0)), Some(OwnerId::Token(0)));
    assert_eq!(p.all_land_units_count(), 1);
    assert_eq!(p.last_event(), Some(&Event::NewLandUnitMinted(OwnerId::Token(0), METAVERSE_ID, (0, 0))));
    let minted = &p.runtime().minted[0];
    assert_eq!(minted.0, BOB);
    assert_eq!(minted.1, LAND_CLASS);
    assert_eq!(minted.2, vec![0, 0, 0, 0, 0, 0, 0, 0]);
    assert_eq!(p.runtime().owner((LAND_CLASS, 0)), Some(BOB));
}

#[test]
fn mint_land_should_reject_existing_coordinate() {
    let mut p = new_pallet();
    assert_eq!(p.mint_land(Origin::Root, BOB, METAVERSE_ID, (0, 0)), Ok(()));
    assert_eq!(
        p.mint_land(Origin::Root, ALICE, METAVERSE_ID, (0, 0)),
        Err(module(Error::LandUnitIsNotAvailable))
    );
    assert_eq!(p.all_land_units_count(), 1);
    assert_eq!(p.events().len(), 1);
}

#[test]
fn mint_land_fails_where_the_metaverse_has_no_land_class() {
    let mut p = new_pallet();
    assert_eq!(
        p.mint_land(Origin::Root, BOB, OTHER_METAVERSE_ID, (0, 0)),
        Err(DispatchError::Other("metaverse has no land class"))
    );
    assert_eq!(p.get_land_units(OTHER_METAVERSE_ID, (0, 0)), None);
}

#[test]
fn mint_lands_should_work() {
    let mut p = new_pallet();
    assert_eq!(p.mint_lands(Origin::Root, BOB, METAVERSE_ID, vec![(0, 0), (1, 0)]), Ok(()));
    assert_eq!(p.all_land_units_count(), 2);
    assert_eq!(p.get_land_units(METAVERSE_ID, (1, 0)), Some(OwnerId::Token(1)));
    assert_eq!(p.last_event(), Some(&Event::NewLandsMinted(BOB, METAVERSE_ID, vec![(0, 0), (1, 0)])));
}

#[test]
fn mint_lands_with_a_repeated_coordinate_changes_nothing() {
    let mut p = new_pallet();
    assert_eq!(
        p.mint_lands(Origin::Root, BOB, METAVERSE_ID, vec![(0, 0), (1, 0), (0, 0)]),
        Err(module(Error::LandUnitIsNotAvailable))
    );
    assert_eq!(p.all_land_units_count(), 0);
    assert_eq!(p.get_land_units(METAVERSE_ID, (0, 0)), None);
    assert_eq!(p.get_land_units(METAVERSE_ID, (1, 0)), None);
    assert!(p.events().is_empty());
}

#[test]
fn mint_lands_of_no_coordinates_mints_nothing() {
    let mut p = new_pallet();
    assert_eq!(p.mint_lands(Origin::Root, BOB, METAVERSE_ID, vec![]), Ok(()));
    assert_eq!(p.all_land_units_count(), 0);
    assert!(p.runtime().minted.is_empty());
    assert_eq!(p.last_event(), Some(&Event::NewLandsMinted(BOB, METAVERSE_ID, vec![])));
}

#[test]
fn mint_lands_with_a_taken_later_coordinate_should_fail() {
    let mut p = new_pallet();
    p.mint_land(Origin::Root, BOB, METAVERSE_ID, (1, 0)).unwrap();
    assert_eq!(
        p.mint_lands(Origin::Root, BOB, METAVERSE_ID, vec![(0, 0), (1, 0)]),
        Err(module(Error::LandUnitIsNotAvailable))
    );
    assert_eq!(p.all_land_units_count(), 1);
    assert_eq!(p.get_land_units(METAVERSE_ID, (0, 0)), None);
}

#[test]
fn transfer_land_should_work() {
    let mut p = new_pallet();
    p.mint_land(Origin::Root, BOB, METAVERSE_ID, (0, 0)).unwrap();
    assert_eq!(p.transfer_land(Origin::Signed(BOB), ALICE, METAVERSE_ID, (0, 0)), Ok(()));
    assert_eq!(p.last_event(), Some(&Event::TransferredLandUnit(METAVERSE_ID, (0, 0), BOB, ALICE)));
    assert_eq!(p.runtime().owner((LAND_CLASS, 0)), Some(ALICE));
    assert_eq!(p.get_land_units(METAVERSE_ID, (0, 0)), Some(OwnerId::Token(0)));
}

#[test]
fn transfer_land_should_fail() {
    let mut p = new_pallet();
    p.mint_land(Origin::Root, BOB, METAVERSE_ID, (0, 0)).unwrap();
    assert_eq!(p.transfer_land(Origin::Root, ALICE, METAVERSE_ID, (0, 0)), Err(DispatchError::BadOrigin));
    assert_eq!(
        p.transfer_land(Origin::Signed(ALICE), BOB, METAVERSE_ID, (0, 0)),
        Err(module(Error::NoPermission))
    );
    assert_eq!(
        p.transfer_land(Origin::Signed(BOB), BOB, METAVERSE_ID, (0, 0)),
        Err(module(Error::AlreadyOwnTheLandUnit))
    );
    assert_eq!(
        p.transfer_land(Origin::Signed(BOB), ALICE, METAVERSE_ID, (5, 5)),
        Err(module(Error::NoPermission))
    );
}

#[test]
fn transfer_land_in_auction_should_fail() {
    let mut runtime = MockRuntime::default();
    runtime.in_auction.push(ItemId::LandUnit((0, 0), METAVERSE_ID));
    let mut p = Pallet::new(runtime, PalletId(*b"bit/land"), (-100, 100));
    p.mint_land(Origin::Root, BOB, METAVERSE_ID, (0, 0)).unwrap();
    assert_eq!(
        p.transfer_land(Origin::Signed(BOB), ALICE, METAVERSE_ID, (0, 0)),
        Err(module(Error::LandUnitAlreadyInAuction))
    );
    assert_eq!(p.events().len(), 1);
}

#[test]
fn mint_estate_should_work() {
    let mut p = new_pallet();
    assert_eq!(p.mint_estate(Origin::Root, BOB, METAVERSE_ID, vec![(0, 0), (0, 1)]), Ok(()));
    assert_eq!(p.all_land_units_count(), 2);
    assert_eq!(p.all_estates_count(), 1);
    assert_eq!(p.next_estate_id(), 1);
    let info = p.get_estates(0).unwrap();
    assert_eq!(info.metaverse_id, METAVERSE_ID);
    assert_eq!(info.land_units, vec![(0, 0), (0, 1)]);
    assert_eq!(p.get_estate_owner(0), Some(OwnerId::Token(2)));
    assert_eq!(p.runtime().owner((ESTATE_CLASS, 2)), Some(BOB));
    assert_eq!(
        p.last_event(),
        Some(&Event::NewEstateMinted(0, OwnerId::Token(2), METAVERSE_ID, vec![(0, 0), (0, 1)]))
    );
    let estate_token = &p.runtime().minted[2];
    assert_eq!(estate_token.2, vec![0, 0, 0, 0, 0, 0, 0, 1, 0, 0, 0, 0, 0, 0, 0, 0]);
}

#[test]
fn mint_estate_with_taken_coordinate_changes_nothing() {
    let mut p = new_pallet();
    p.mint_land(Origin::Root, BOB, METAVERSE_ID, (0, 1)).unwrap();
    assert_eq!(
        p.mint_estate(Origin::Root, BOB, METAVERSE_ID, vec![(0, 0), (0, 1)]),
        Err(module(Error::LandUnitIsNotAvailable))
    );
    assert_eq!(p.next_estate_id(), 0);
    assert_eq!(p.all_estates_count(), 0);
    assert_eq!(p.all_land_units_count(), 1);
    assert_eq!(p.get_land_units(METAVERSE_ID, (0, 0)), None);
}

#[test]
fn create_estate_should_work() {
    let mut p = new_pallet();
    p.mint_lands(Origin::Root, BOB, METAVERSE_ID, vec![(0, 0), (0, 1)]).unwrap();
    assert_eq!(p.create_estate(Origin::Root, BOB, METAVERSE_ID, vec![(0, 0), (0, 1)]), Ok(()));
    assert_eq!(p.all_land_units_count(), 2);
    assert_eq!(p.get_land_units(METAVERSE_ID, (0, 0)), Some(OwnerId::Token(0)));
    assert_eq!(p.get_land_units(METAVERSE_ID, (0, 1)), Some(OwnerId::Token(1)));
    assert_eq!(p.get_estate_owner(0), Some(OwnerId::Token(2)));
    assert_eq!(p.all_estates_count(), 1);
}

#[test]
fn create_estate_of_missing_land_should_fail() {
    let mut p = new_pallet();
    p.mint_land(Origin::Root, BOB, METAVERSE_ID, (0, 0)).unwrap();
    assert_eq!(
        p.create_estate(Origin::Root, BOB, METAVERSE_ID, vec![(0, 0), (0, 1)]),
        Err(module(Error::LandUnitIsNotAvailable))
    );
    assert_eq!(p.next_estate_id(), 0);
    assert_eq!(p.create_estate(Origin::Signed(BOB), BOB, METAVERSE_ID, vec![(0, 0)]), Err(DispatchError::BadOrigin));
}

#[test]
fn transfer_estate_should_work() {
    let mut p = new_pallet();
    p.mint_estate(Origin::Root, BOB, METAVERSE_ID, vec![(0, 0)]).unwrap();
    assert_eq!(p.transfer_estate(Origin::Signed(BOB), ALICE, 0), Ok(()));
    assert_eq!(p.last_event(), Some(&Event::TransferredEstate(0, BOB, ALICE)));
    assert_eq!(p.runtime().owner((ESTATE_CLASS, 1)), Some(ALICE));
}

#[test]
fn transfer_estate_should_fail() {
    let mut p = new_pallet();
    p.mint_estate(Origin::Root, BOB, METAVERSE_ID, vec![(0, 0)]).unwrap();
    assert_eq!(p.transfer_estate(Origin::Signed(ALICE), BOB, 0), Err(module(Error::NoPermission)));
    assert_eq!(p.transfer_estate(Origin::Signed(BOB), BOB, 0), Err(module(Error::AlreadyOwnTheEstate)));
    assert_eq!(p.transfer_estate(Origin::Signed(BOB), ALICE, 3), Err(module(Error::NoPermission)));
}

#[test]
fn estate_trait_transfers_need_an_auction() {
    let mut p = new_pallet();
    p.mint_estate(Origin::Root, BOB, METAVERSE_ID, vec![(0, 0)]).unwrap();
    assert_eq!(Estate::transfer_estate(&mut p, 0, &BOB, &ALICE), Err(module(Error::EstateNotInAuction)));
    assert_eq!(
        p.transfer_landunit((0, 0), &BOB, &(ALICE, METAVERSE_ID)),
        Err(module(Error::LandUnitNotInAuction))
    );
    p.runtime_mut().in_auction.push(ItemId::Estate(0));
    p.runtime_mut().in_auction.push(ItemId::LandUnit((0, 0), METAVERSE_ID));
    assert_eq!(Estate::transfer_estate(&mut p, 0, &BOB, &ALICE), Ok(0));
    assert_eq!(p.transfer_landunit((0, 0), &BOB, &(ALICE, METAVERSE_ID)), Ok((0, 0)));
    assert_eq!(p.check_estate(0), Ok(true));
    assert_eq!(p.check_estate(1), Ok(false));
    assert_eq!(p.check_landunit(METAVERSE_ID, (0, 0)), Ok(true));
    assert_eq!(p.check_landunit(METAVERSE_ID, (0, 1)), Ok(false));
    assert_eq!(p.get_total_land_units(), 1);
    assert_eq!(p.get_total_undeploy_land_units(), 0);
}

#[test]
fn dissolve_estate_should_work() {
    let mut p = new_pallet();
    p.mint_estate(Origin::Root, BOB, METAVERSE_ID, vec![(0, 0), (0, 1)]).unwrap();
    assert_eq!(p.dissolve_estate(Origin::Signed(BOB), 0), Ok(()));
    assert_eq!(p.get_estates(0), None);
    assert_eq!(p.get_estate_owner(0), None);
    assert_eq!(p.all_estates_count(), 0);
    assert_eq!(p.all_land_units_count(), 2);
    assert_eq!(p.last_event(), Some(&Event::EstateDestroyed(0, OwnerId::Token(2))));
    assert_eq!(p.runtime().burnt, vec![(ESTATE_CLASS, 2)]);
}

#[test]
fn dissolve_estate_whose_token_the_runtime_keeps_still_dissolves_it() {
    let mut p = new_pallet();
    p.mint_estate(Origin::Root, BOB, METAVERSE_ID, vec![(0, 0)]).unwrap();
    p.runtime_mut().keeps_tokens = true;
    assert_eq!(p.dissolve_estate(Origin::Signed(BOB), 0), Ok(()));
    assert_eq!(p.get_estates(0), None);
    assert_eq!(p.get_estate_owner(0), None);
    assert_eq!(p.all_estates_count(), 0);
    assert_eq!(p.last_event(), Some(&Event::EstateDestroyed(0, OwnerId::Token(1))));
    assert!(p.runtime().burnt.is_empty());
    assert_eq!(p.runtime().owner((ESTATE_CLASS, 1)), Some(BOB));
}

#[test]
fn dissolve_estate_should_fail() {
    let mut p = new_pallet();
    p.mint_estate(Origin::Root, BOB, METAVERSE_ID, vec![(0, 0)]).unwrap();
    assert_eq!(p.dissolve_estate(Origin::Signed(ALICE), 0), Err(module(Error::NoPermission)));
    assert_eq!(p.dissolve_estate(Origin::Signed(BOB), 4), Err(module(Error::EstateDoesNotExist)));
    p.runtime_mut().in_auction.push(ItemId::Estate(0));
    assert_eq!(p.dissolve_estate(Origin::Signed(BOB), 0), Err(module(Error::EstateAlreadyInAuction)));
    assert_eq!(p.all_estates_count(), 1);
}

#[test]
fn add_land_unit_to_estate_should_work() {
    let mut p = new_pallet();
    p.mint_estate(Origin::Root, BOB, METAVERSE_ID, vec![(0, 0)]).unwrap();
    p.mint_land(Origin::Root, BOB, METAVERSE_ID, (0, 1)).unwrap();
    assert_eq!(p.add_land_unit_to_estate(Origin::Signed(BOB), 0, vec![(0, 1)]), Ok(()));
    assert_eq!(p.get_estates(0).unwrap().land_units, vec![(0, 0), (0, 1)]);
    assert_eq!(p.last_event(), Some(&Event::LandUnitAdded(0, OwnerId::Token(1), vec![(0, 1)])));
}

#[test]
fn add_land_unit_of_another_owner_should_fail() {
    let mut p = new_pallet();
    p.mint_estate(Origin::Root, BOB, METAVERSE_ID, vec![(0, 0)]).unwrap();
    p.mint_land(Origin::Root, ALICE, METAVERSE_ID, (0, 1)).unwrap();
    assert_eq!(
        p.add_land_unit_to_estate(Origin::Signed(BOB), 0, vec![(0, 1)]),
        Err(module(Error::LandUnitDoesNotExist))
    );
    assert_eq!(p.get_estates(0).unwrap().land_units, vec![(0, 0)]);
}

#[test]
fn remove_land_unit_from_estate_should_work() {
    let mut p = new_pallet();
    p.mint_estate(Origin::Root, BOB, METAVERSE_ID, vec![(0, 0), (0, 1), (0, 2)]).unwrap();
    assert_eq!(p.remove_land_unit_from_estate(Origin::Signed(BOB), 0, vec![(0, 1)]), Ok(()));
    assert_eq!(p.get_estates(0).unwrap().land_units, vec![(0, 0), (0, 2)]);
    assert_eq!(p.last_event(), Some(&Event::LandUnitsRemoved(0, OwnerId::Token(3), vec![(0, 1)])));
    assert_eq!(
        p.remove_land_unit_from_estate(Origin::Signed(ALICE), 0, vec![(0, 0)]),
        Err(module(Error::NoPermission))
    );
}

#[test]
fn issue_undeployed_land_blocks_should_work() {
    let mut p = new_pallet();
    assert_eq!(
        p.issue_undeployed_land_blocks(Origin::Root, BOB, 2, 20, UndeployedLandBlockType::BoundToAddress),
        Ok(())
    );
    assert_eq!(p.all_undeployed_land_unit(), 40);
    assert_eq!(p.next_undeployed_land_block_id(), 2);
    assert_eq!(
        p.get_undeployed_land_block(1),
        Some(UndeployedLandBlock {
            id: 1,
            number_land_units: 20,
            undeployed_land_block_type: UndeployedLandBlockType::BoundToAddress,
            approved: None,
            is_locked: false,
            owner: BOB,
        })
    );
    assert_eq!(p.get_undeployed_land_block_owner(BOB, 0), Some(()));
    assert_eq!(p.get_undeployed_land_block_owner(ALICE, 0), None);
    assert_eq!(p.events(), &vec![Event::UndeployedLandBlockIssued(BOB, 0), Event::UndeployedLandBlockIssued(BOB, 1)]);
    assert_eq!(
        p.issue_undeployed_land_blocks(Origin::Signed(BOB), BOB, 2, 20, UndeployedLandBlockType::BoundToAddress),
        Err(DispatchError::BadOrigin)
    );
}

#[test]
fn issue_through_trait_gives_identifiers() {
    let mut p = new_pallet();
    let ids = UndeployedLandBlocksTrait::issue_undeployed_land_blocks(
        &mut p,
        &ALICE,
        3,
        10,
        UndeployedLandBlockType::Transferable,
    );
    assert_eq!(ids, Ok(vec![0, 1, 2]));
}

#[test]
fn issue_adds_the_units_of_every_block_to_the_total() {
    let mut p = new_pallet();
    p.issue_undeployed_land_blocks(Origin::Root, BOB, 2, u32::MAX, UndeployedLandBlockType::Transferable)
        .unwrap();
    assert_eq!(p.all_undeployed_land_unit(), 2 * (u32::MAX as u64));
    p.issue_undeployed_land_blocks(Origin::Root, ALICE, 3, 1, UndeployedLandBlockType::BoundToAddress)
        .unwrap();
    assert_eq!(p.all_undeployed_land_unit(), 2 * (u32::MAX as u64) + 3);
    assert_eq!(p.next_undeployed_land_block_id(), 5);
}

#[test]
fn freeze_and_unfreeze_should_work() {
    let mut p = new_pallet();
    p.issue_undeployed_land_blocks(Origin::Root, BOB, 1, 20, UndeployedLandBlockType::Transferable).unwrap();
    let before = p.get_undeployed_land_block(0);
    assert_eq!(p.freeze_undeployed_land_blocks(Origin::Root, 0), Ok(()));
    assert_eq!(p.get_undeployed_land_block(0).unwrap().is_locked, true);
    assert_eq!(p.last_event(), Some(&Event::UndeployedLandBlockFreezed(0)));
    assert_eq!(
        p.freeze_undeployed_land_blocks(Origin::Root, 0),
        Err(module(Error::UndeployedLandBlockAlreadyFreezed))
    );
    assert_eq!(p.unfreeze_undeployed_land_blocks(Origin::Root, 0), Ok(()));
    assert_eq!(p.get_undeployed_land_block(0), before);
    assert_eq!(p.last_event(), Some(&Event::UndeployedLandBlockUnfreezed(0)));
    assert_eq!(
        p.unfreeze_undeployed_land_blocks(Origin::Root, 0),
        Err(module(Error::UndeployedLandBlockNotFrozen))
    );
    assert_eq!(
        p.freeze_undeployed_land_blocks(Origin::Root, 7),
        Err(module(Error::UndeployedLandBlockNotFound))
    );
    assert_eq!(p.freeze_undeployed_land_blocks(Origin::Signed(BOB), 0), Err(DispatchError::BadOrigin));
    assert_eq!(p.freeze_undeployed_land_block(0), Ok(0));
}

#[test]
fn transfer_undeployed_land_block_there_and_back() {
    let mut p = new_pallet();
    p.issue_undeployed_land_blocks(Origin::Root, BOB, 1, 20, UndeployedLandBlockType::Transferable).unwrap();
    let before = p.get_undeployed_land_block(0);
    assert_eq!(p.transfer_undeployed_land_blocks(Origin::Signed(BOB), ALICE, 0), Ok(()));
    assert_eq!(p.get_undeployed_land_block(0).unwrap().owner, ALICE);
    assert_eq!(p.get_undeployed_land_block_owner(BOB, 0), None);
    assert_eq!(p.get_undeployed_land_block_owner(ALICE, 0), Some(()));
    assert_eq!(p.last_event(), Some(&Event::UndeployedLandBlockTransferred(BOB, ALICE, 0)));
    assert_eq!(p.transfer_undeployed_land_block(&ALICE, &BOB, 0), Ok(0));
    assert_eq!(p.get_undeployed_land_block(0), before);
    assert_eq!(p.get_undeployed_land_block_owner(BOB, 0), Some(()));
    assert_eq!(p.get_undeployed_land_block_owner(ALICE, 0), None);
}

#[test]
fn transfer_undeployed_land_block_should_fail() {
    let mut p = new_pallet();
    p.issue_undeployed_land_blocks(Origin::Root, BOB, 1, 20, UndeployedLandBlockType::BoundToAddress).unwrap();
    p.issue_undeployed_land_blocks(Origin::Root, BOB, 1, 20, UndeployedLandBlockType::Transferable).unwrap();
    assert_eq!(
        p.transfer_undeployed_land_blocks(Origin::Signed(BOB), ALICE, 0),
        Err(module(Error::UndeployedLandBlockIsNotTransferable))
    );
    assert_eq!(
        p.transfer_undeployed_land_blocks(Origin::Signed(ALICE), BOB, 1),
        Err(module(Error::NoPermission))
    );
    assert_eq!(
        p.transfer_undeployed_land_blocks(Origin::Signed(BOB), ALICE, 9),
        Err(module(Error::UndeployedLandBlockNotFound))
    );
    p.freeze_undeployed_land_blocks(Origin::Root, 1).unwrap();
    assert_eq!(
        p.transfer_undeployed_land_blocks(Origin::Signed(BOB), ALICE, 1),
        Err(module(Error::UndeployedLandBlockAlreadyFreezed))
    );
}

#[test]
fn approve_then_unapprove_undeployed_land_block() {
    let mut p = new_pallet();
    p.issue_undeployed_land_blocks(Origin::Root, BOB, 1, 20, UndeployedLandBlockType::Transferable).unwrap();
    let before = p.get_undeployed_land_block(0);
    assert_eq!(p.approve_undeployed_land_blocks(Origin::Signed(BOB), ALICE, 0), Ok(()));
    assert_eq!(p.get_undeployed_land_block(0).unwrap().approved, Some(ALICE));
    assert_eq!(p.last_event(), Some(&Event::UndeployedLandBlockApproved(BOB, ALICE, 0)));
    assert_eq!(
        p.approve_undeployed_land_blocks(Origin::Signed(ALICE), ALICE, 0),
        Err(module(Error::NoPermission))
    );
    assert_eq!(p.unapprove_undeployed_land_blocks(Origin::Signed(BOB), 0), Ok(()));
    assert_eq!(p.get_undeployed_land_block(0), before);
    assert_eq!(p.last_event(), Some(&Event::UndeployedLandBlockUnapproved(0)));
    p.freeze_undeployed_land_blocks(Origin::Root, 0).unwrap();
    assert_eq!(
        p.unapprove_undeployed_land_blocks(Origin::Signed(BOB), 0),
        Err(module(Error::UndeployedLandBlockAlreadyFreezed))
    );
}

#[test]
fn burn_undeployed_land_block_should_work() {
    let mut p = new_pallet();
    p.issue_undeployed_land_blocks(Origin::Root, BOB, 1, 20, UndeployedLandBlockType::Transferable).unwrap();
    p.freeze_undeployed_land_blocks(Origin::Root, 0).unwrap();
    assert_eq!(p.burn_undeployed_land_blocks(Origin::Root, 0), Ok(()));
    assert_eq!(p.get_undeployed_land_block(0), None);
    assert_eq!(p.get_undeployed_land_block_owner(BOB, 0), None);
    assert_eq!(p.all_undeployed_land_unit(), 0);
    assert_eq!(p.next_undeployed_land_block_id(), 1);
    assert_eq!(p.last_event(), Some(&Event::UndeployedLandBlockBurnt(0)));
    assert_eq!(p.burn_undeployed_land_block(0), Err(module(Error::UndeployedLandBlockNotFound)));
}

#[test]
fn burn_unfrozen_undeployed_land_block_should_fail() {
    let mut p = new_pallet();
    p.issue_undeployed_land_blocks(Origin::Root, BOB, 1, 20, UndeployedLandBlockType::Transferable).unwrap();
    assert_eq!(
        p.burn_undeployed_land_blocks(Origin::Root, 0),
        Err(module(Error::OnlyFrozenUndeployedLandBlockCanBeDestroyed))
    );
    assert_eq!(p.all_undeployed_land_unit(), 20);
}

#[test]
fn deploy_land_block_should_work() {
    let mut p = new_pallet();
    p.issue_undeployed_land_blocks(Origin::Root, BOB, 1, 2, UndeployedLandBlockType::Transferable).unwrap();
    assert_eq!(p.deploy_land_block(Origin::Signed(BOB), 0, METAVERSE_ID, (0, 0), vec![(0, 0), (1, 0)]), Ok(()));
    assert_eq!(p.all_land_units_count(), 2);
    assert_eq!(p.get_land_units(METAVERSE_ID, (1, 0)), Some(OwnerId::Token(1)));
    assert_eq!(p.all_undeployed_land_unit(), 0);
    assert_eq!(p.get_undeployed_land_block_owner(BOB, 0), None);
    assert_eq!(p.get_undeployed_land_block(0), None);
    assert_eq!(p.runtime().owner((LAND_CLASS, 1)), Some(BOB));
    let n = p.events().len();
    assert_eq!(p.events()[n - 2], Event::UndeployedLandBlockBurnt(0));
    assert_eq!(p.events()[n - 1], Event::LandBlockDeployed(BOB, METAVERSE_ID, 0, vec![(0, 0), (1, 0)]));
}

#[test]
fn deploy_land_block_onto_a_taken_later_coordinate_should_fail() {
    let mut p = new_pallet();
    p.mint_land(Origin::Root, ALICE, METAVERSE_ID, (1, 0)).unwrap();
    p.issue_undeployed_land_blocks(Origin::Root, BOB, 1, 2, UndeployedLandBlockType::Transferable).unwrap();
    assert_eq!(
        p.deploy_land_block(Origin::Signed(BOB), 0, METAVERSE_ID, (0, 0), vec![(0, 0), (1, 0)]),
        Err(module(Error::LandUnitIsNotAvailable))
    );
    assert_eq!(p.all_land_units_count(), 1);
    assert_eq!(p.get_land_units(METAVERSE_ID, (0, 0)), None);
    assert_eq!(p.get_undeployed_land_block(0).unwrap().owner, BOB);
    assert_eq!(p.all_undeployed_land_unit(), 2);
}

#[test]
fn deploy_land_block_should_fail() {
    let mut p = new_pallet();
    p.issue_undeployed_land_blocks(Origin::Root, BOB, 1, 2, UndeployedLandBlockType::Transferable).unwrap();
    assert_eq!(
        p.deploy_land_block(Origin::Signed(BOB), 0, METAVERSE_ID, (101, 0), vec![(0, 0), (1, 0)]),
        Err(module(Error::LandUnitIsOutOfBound))
    );
    assert_eq!(
        p.deploy_land_block(Origin::Signed(BOB), 0, METAVERSE_ID, (60, 0), vec![(0, 0), (1, 0)]),
        Err(module(Error::LandUnitIsOutOfBound))
    );
    assert_eq!(
        p.deploy_land_block(Origin::Signed(BOB), 4, METAVERSE_ID, (0, 0), vec![(0, 0), (1, 0)]),
        Err(module(Error::UndeployedLandBlockNotFound))
    );
    assert_eq!(
        p.deploy_land_block(Origin::Signed(ALICE), 0, METAVERSE_ID, (0, 0), vec![(0, 0), (1, 0)]),
        Err(module(Error::NoPermission))
    );
    assert_eq!(
        p.deploy_land_block(Origin::Signed(BOB), 0, METAVERSE_ID, (0, 0), vec![(0, 0)]),
        Err(module(Error::UndeployedLandBlockUnitAndInputDoesNotMatch))
    );
    p.freeze_undeployed_land_blocks(Origin::Root, 0).unwrap();
    assert_eq!(
        p.deploy_land_block(Origin::Signed(BOB), 0, METAVERSE_ID, (0, 0), vec![(0, 0), (1, 0)]),
        Err(module(Error::UndeployedLandBlockFreezed))
    );
    assert_eq!(p.all_land_units_count(), 0);
    assert_eq!(p.all_undeployed_land_unit(), 2);
}

#[test]
fn user_land_units_are_the_ones_whose_token_the_user_holds() {
    let mut p = new_pallet();
    p.mint_lands(Origin::Root, BOB, METAVERSE_ID, vec![(0, 0), (0, 1)]).unwrap();
    p.mint_land(Origin::Root, ALICE, METAVERSE_ID, (0, 2)).unwrap();
    p.mint_land(Origin::Root, BOB, 2, (0, 0)).unwrap();
    assert_eq!(p.get_user_land_units(&BOB, &METAVERSE_ID), vec![(0, 0), (0, 1)]);
    assert_eq!(p.get_user_land_units(&ALICE, &METAVERSE_ID), vec![(0, 2)]);
    assert!(p.is_user_own_metaverse_land(&ALICE, &METAVERSE_ID));
    assert!(!p.is_user_own_metaverse_land(&ALICE, &2));
}

#[test]
fn land_count_matches_land_units() {
    let mut p = new_pallet();
    p.mint_land(Origin::Root, BOB, METAVERSE_ID, (0, 0)).unwrap();
    p.mint_lands(Origin::Root, BOB, METAVERSE_ID, vec![(1, 0), (2, 0)]).unwrap();
    p.mint_estate(Origin::Root, BOB, METAVERSE_ID, vec![(3, 0)]).unwrap();
    p.create_estate(Origin::Root, BOB, METAVERSE_ID, vec![(1, 0)]).unwrap();
    let _ = p.mint_lands(Origin::Root, BOB, METAVERSE_ID, vec![(4, 0), (0, 0)]);
    assert_eq!(p.all_land_units_count(), 4);
    assert_eq!(p.all_estates_count(), 2);
}

#[test]
fn add_then_remove_land_units_gives_the_estate_back() {
    let mut p = new_pallet();
    p.mint_estate(Origin::Root, BOB, METAVERSE_ID, vec![(0, 0), (0, 1)]).unwrap();
    p.mint_lands(Origin::Root, BOB, METAVERSE_ID, vec![(0, 2), (0, 3)]).unwrap();
    p.add_land_unit_to_estate(Origin::Signed(BOB), 0, vec![(0, 3), (0, 2)]).unwrap();
    assert_eq!(p.get_estates(0).unwrap().land_units, vec![(0, 0), (0, 1), (0, 3), (0, 2)]);
    p.remove_land_unit_from_estate(Origin::Signed(BOB), 0, vec![(0, 3), (0, 2)]).unwrap();
    assert_eq!(p.get_estates(0).unwrap().land_units, vec![(0, 0), (0, 1)]);
}

#[test]
fn add_then_remove_a_land_unit_already_there_keeps_the_counts() {
    let mut p = new_pallet();
    p.mint_estate(Origin::Root, BOB, METAVERSE_ID, vec![(0, 0), (0, 1)]).unwrap();
    p.add_land_unit_to_estate(Origin::Signed(BOB), 0, vec![(0, 0)]).unwrap();
    p.remove_land_unit_from_estate(Origin::Signed(BOB), 0, vec![(0, 0)]).unwrap();
    // The earlier copy is the one taken out.
    assert_eq!(p.get_estates(0).unwrap().land_units, vec![(0, 1), (0, 0)]);
}

fn block_units(p: &Pallet<MockRuntime>) -> u64 {
    (0..p.next_undeployed_land_block_id())
        .filter_map(|id| p.get_undeployed_land_block(id))
        .map(|b| b.number_land_units as u64)
        .sum()
}

#[test]
fn the_undeployed_total_is_the_sum_of_the_blocks() {
    let mut p = new_pallet();
    p.issue_undeployed_land_blocks(Origin::Root, BOB, 3, 20, UndeployedLandBlockType::Transferable).unwrap();
    p.issue_undeployed_land_blocks(Origin::Root, ALICE, 2, 7, UndeployedLandBlockType::BoundToAddress).unwrap();
    assert_eq!(p.all_undeployed_land_unit(), block_units(&p));
    p.freeze_undeployed_land_blocks(Origin::Root, 0).unwrap();
    p.transfer_undeployed_land_blocks(Origin::Signed(BOB), ALICE, 1).unwrap();
    p.approve_undeployed_land_blocks(Origin::Signed(ALICE), BOB, 3).unwrap();
    p.freeze_undeployed_land_blocks(Origin::Root, 2).unwrap();
    p.freeze_undeployed_land_blocks(Origin::Root, 4).unwrap();
    p.burn_undeployed_land_blocks(Origin::Root, 2).unwrap();
    p.burn_undeployed_land_blocks(Origin::Root, 4).unwrap();
    p.deploy_land_block(Origin::Signed(ALICE), 3, METAVERSE_ID, (0, 0), (0..7).map(|x| (x, 0)).collect()).unwrap();
    assert_eq!(p.all_undeployed_land_unit(), 20 + 20);
    assert_eq!(p.all_undeployed_land_unit(), block_units(&p));
}

#[test]
fn deploying_a_block_takes_it_out_of_the_undeployed_land() {
    let mut p = new_pallet();
    p.issue_undeployed_land_blocks(Origin::Root, BOB, 1, 2, UndeployedLandBlockType::Transferable).unwrap();
    p.deploy_land_block(Origin::Signed(BOB), 0, METAVERSE_ID, (0, 0), vec![(0, 0), (1, 0)]).unwrap();
    assert_eq!(p.all_undeployed_land_unit(), 0);
    assert_eq!(block_units(&p), 0);
}

#[test]
fn a_deployed_block_cannot_be_deployed_again() {
    let mut p = new_pallet();
    p.issue_undeployed_land_blocks(Origin::Root, BOB, 1, 2, UndeployedLandBlockType::Transferable).unwrap();
    p.deploy_land_block(Origin::Signed(BOB), 0, METAVERSE_ID, (0, 0), vec![(0, 0), (1, 0)]).unwrap();
    assert_eq!(
        p.deploy_land_block(Origin::Signed(BOB), 0, METAVERSE_ID, (0, 0), vec![(2, 0), (3, 0)]),
        Err(module(Error::UndeployedLandBlockNotFound))
    );
    assert_eq!(p.all_land_units_count(), 2);
    assert_eq!(p.get_land_units(METAVERSE_ID, (2, 0)), None);
}

#[test]
fn a_block_is_deployed_once_even_while_other_blocks_keep_the_total_up() {
    let mut p = new_pallet();
    p.issue_undeployed_land_blocks(Origin::Root, BOB, 2, 2, UndeployedLandBlockType::Transferable).unwrap();
    p.deploy_land_block(Origin::Signed(BOB), 0, METAVERSE_ID, (0, 0), vec![(0, 0), (1, 0)]).unwrap();
    assert_eq!(
        p.deploy_land_block(Origin::Signed(BOB), 0, METAVERSE_ID, (0, 0), vec![(2, 0), (3, 0)]),
        Err(module(Error::UndeployedLandBlockNotFound))
    );
    assert_eq!(p.all_land_units_count(), 2);
    assert_eq!(p.all_undeployed_land_unit(), 2);
}

#[test]
fn next_identifiers_name_nothing_yet() {
    let mut p = new_pallet();
    p.mint_estate(Origin::Root, BOB, METAVERSE_ID, vec![(0, 0)]).unwrap();
    p.mint_estate(Origin::Root, BOB, METAVERSE_ID, vec![(0, 1)]).unwrap();
    p.issue_undeployed_land_blocks(Origin::Root, BOB, 3, 1, UndeployedLandBlockType::Transferable).unwrap();
    assert_eq!(p.next_estate_id(), 2);
    assert!(p.get_estates(p.next_estate_id()).is_none());
    assert!(p.get_estate_owner(p.next_estate_id()).is_none());
    assert_eq!(p.next_undeployed_land_block_id(), 3);
    assert!(p.get_undeployed_land_block(p.next_undeployed_land_block_id()).is_none());
    let ids = UndeployedLandBlocksTrait::issue_undeployed_land_blocks(
        &mut p,
        &ALICE,
        2,
        10,
        UndeployedLandBlockType::Transferable,
    );
    assert_eq!(ids, Ok(vec![3, 4]));
}

#[test]
fn land_follows_its_token() {
    let mut p = new_pallet();
    p.mint_land(Origin::Root, BOB, METAVERSE_ID, (0, 0)).unwrap();
    p.transfer_land(Origin::Signed(BOB), ALICE, METAVERSE_ID, (0, 0)).unwrap();
    assert_eq!(p.get_user_land_units(&ALICE, &METAVERSE_ID), vec![(0, 0)]);
    assert!(p.get_user_land_units(&BOB, &METAVERSE_ID).is_empty());
    assert_eq!(
        p.transfer_land(Origin::Signed(BOB), ALICE, METAVERSE_ID, (0, 0)),
        Err(module(Error::NoPermission))
    );
    assert_eq!(p.transfer_land(Origin::Signed(ALICE), BOB, METAVERSE_ID, (0, 0)), Ok(()));
    assert_eq!(p.runtime().owner((LAND_CLASS, 0)), Some(BOB));
}

#[test]
fn a_failed_mint_after_others_leaves_their_tokens_in_the_runtime() {
    let mut p = new_pallet();
    p.mint_land(Origin::Root, BOB, METAVERSE_ID, (1, 0)).unwrap();
    assert_eq!(
        p.mint_lands(Origin::Root, BOB, METAVERSE_ID, vec![(0, 0), (1, 0)]),
        Err(module(Error::LandUnitIsNotAvailable))
    );
    assert_eq!(p.get_land_units(METAVERSE_ID, (0, 0)), None);
    assert_eq!(p.runtime().minted.len(), 2);
}

#[test]
fn create_estate_of_scattered_land_should_fail() {
    let mut p = new_pallet();
    p.mint_lands(Origin::Root, BOB, METAVERSE_ID, vec![(0, 0), (5, 5)]).unwrap();
    let minted = p.runtime().minted.len();
    assert_eq!(
        p.create_estate(Origin::Root, BOB, METAVERSE_ID, vec![(0, 0), (5, 5)]),
        Err(module(Error::CoordinatesForEstateIsNotValid))
    );
    assert_eq!(p.next_estate_id(), 0);
    assert_eq!(p.all_estates_count(), 0);
    assert_eq!(p.runtime().minted.len(), minted);
}
