use std::collections::BTreeMap;

use metaverse::encoding::into_sub_account;
use metaverse::tokenization::{
    CurrencyId, Error, Event, Module, TokenSymbol, TokenizationError, Trait,
};
use metaverse::types::{AccountId, DispatchError, Origin, PalletId};

const ALICE: AccountId = 1;
const BOB: AccountId = 2;
const NATIVE: CurrencyId = CurrencyId::Token(TokenSymbol::BCG);
const MODULE_ID: PalletId = PalletId(*b"bit/fund");

#[derive(Default)]
struct MockRuntime {
    countries: BTreeMap<u64, AccountId>,
    funds: BTreeMap<u64, CurrencyId>,
    balances: BTreeMap<AccountId, u128>,
    issuance: u128,
}

impl Trait for MockRuntime {
    fn owns_country(&self, country_id: u64, who: AccountId) -> bool {
        self.countries.get(&country_id) == Some(&who)
    }

    fn fund_currency(&self, country_id: u64) -> Option<CurrencyId> {
        self.funds.get(&country_id).copied()
    }

    fn balance(&self, _currency_id: CurrencyId, who: AccountId) -> u128 {
        self.balances.get(&who).copied().unwrap_or(0)
    }

    fn issuance(&self, _currency_id: CurrencyId) -> u128 {
        self.issuance
    }

    fn is_country_owner(&self, country_id: u64, who: &AccountId) -> bool {
        self.countries.get(&country_id) == Some(who)
    }

    fn country_fund_currency(&self, country_id: u64) -> Option<CurrencyId> {
        self.funds.get(&country_id).copied()
    }

    fn deposit(&mut self, _currency_id: CurrencyId, who: &AccountId, amount: u128) -> Result<(), DispatchError> {
        let balance = self.balances.entry(*who).or_insert(0);
        *balance = balance.checked_add(amount).ok_or(DispatchError::Other("balance overflow"))?;
        self.issuance += amount;
        Ok(())
    }

    fn transfer(
        &mut self,
        _currency_id: CurrencyId,
        from: &AccountId,
        to: &AccountId,
        amount: u128,
    ) -> Result<(), DispatchError> {
        let have = self.balances.get(from).copied().unwrap_or(0);
        if have < amount {
            return Err(DispatchError::Other("balance too low"));
        }
        self.balances.insert(*from, have - amount);
        *self.balances.entry(*to).or_insert(0) += amount;
        Ok(())
    }

    fn total_issuance(&self, _currency_id: CurrencyId) -> u128 {
        self.issuance
    }
}

fn module() -> Module<MockRuntime> {
    let mut runtime = MockRuntime::default();
    runtime.countries.insert(0, ALICE);
    runtime.funds.insert(0, NATIVE);
    Module::new(runtime, MODULE_ID)
}

#[test]
fn country_owner_can_mint_its_token() {
    let mut m = module();
    assert_eq!(m.mint_token(Origin::Signed(ALICE), b"BIT".to_vec(), 0, 1_000), Ok(()));
    assert_eq!(m.get_country_token(0), Some(0));
    assert_eq!(m.next_token_id(), 1);
    assert_eq!(m.token_details(0), Some((b"BIT".to_vec(), 1_000)));
    assert_eq!(m.runtime().balances.get(&ALICE), Some(&1_000));
    assert_eq!(m.events(), &vec![Event::Issued(ALICE, 1_000)]);
}

#[test]
fn only_the_country_owner_can_mint() {
    let mut m = module();
    assert_eq!(
        m.mint_token(Origin::Signed(BOB), b"BIT".to_vec(), 0, 1_000),
        Err(TokenizationError::Module(Error::NoPermissionTokenIssuance))
    );
    assert_eq!(m.mint_token(Origin::Root, b"BIT".to_vec(), 0, 1_000), Err(TokenizationError::BadOrigin));
    assert_eq!(m.mint_token(Origin::Unsigned, b"BIT".to_vec(), 0, 1_000), Err(TokenizationError::BadOrigin));
    assert_eq!(m.get_country_token(0), None);
    assert_eq!(m.next_token_id(), 0);
    assert!(m.events().is_empty());
}

#[test]
fn a_failed_deposit_mints_nothing() {
    let mut m = module();
    m.mint_token(Origin::Signed(ALICE), b"BIT".to_vec(), 0, u128::MAX).unwrap();
    assert_eq!(
        m.mint_token(Origin::Signed(ALICE), b"TWO".to_vec(), 0, 1),
        Err(TokenizationError::Currency(DispatchError::Other("balance overflow")))
    );
    assert_eq!(m.next_token_id(), 1);
    assert_eq!(m.token_details(1), None);
    assert_eq!(m.events().len(), 1);
}

#[test]
fn transfer_moves_funds_and_announces_it() {
    let mut m = module();
    m.mint_token(Origin::Signed(ALICE), b"BIT".to_vec(), 0, 1_000).unwrap();
    assert_eq!(m.transfer(Origin::Signed(ALICE), BOB, NATIVE, 400), Ok(()));
    assert_eq!(m.runtime().balances.get(&ALICE), Some(&600));
    assert_eq!(m.runtime().balances.get(&BOB), Some(&400));
    assert_eq!(m.events().last(), Some(&Event::Transferred(NATIVE, ALICE, BOB, 400)));
}

#[test]
fn transfer_of_nothing_or_to_oneself_does_nothing() {
    let mut m = module();
    m.mint_token(Origin::Signed(ALICE), b"BIT".to_vec(), 0, 1_000).unwrap();
    assert_eq!(m.transfer_from(NATIVE, &ALICE, &BOB, 0), Ok(()));
    assert_eq!(m.transfer_from(NATIVE, &ALICE, &ALICE, 500), Ok(()));
    // Nothing is checked either: BOB holds nothing.
    assert_eq!(m.transfer_from(NATIVE, &BOB, &BOB, 500), Ok(()));
    assert_eq!(m.events().len(), 1);
    assert_eq!(m.runtime().balances.get(&ALICE), Some(&1_000));
}

#[test]
fn transfer_fails_as_the_currency_fails() {
    let mut m = module();
    assert_eq!(
        m.transfer(Origin::Signed(BOB), ALICE, NATIVE, 1),
        Err(TokenizationError::Currency(DispatchError::Other("balance too low")))
    );
    assert_eq!(m.transfer(Origin::Root, ALICE, NATIVE, 1), Err(TokenizationError::BadOrigin));
    assert!(m.events().is_empty());
}

#[test]
fn total_issuance_needs_a_country_fund() {
    let mut m = module();
    m.mint_token(Origin::Signed(ALICE), b"BIT".to_vec(), 0, 1_000).unwrap();
    assert_eq!(m.get_total_issuance(0), Ok(1_000));
    assert_eq!(
        m.get_total_issuance(1),
        Err(TokenizationError::Module(Error::CountryFundIsNotAvailable))
    );
}

#[test]
fn country_fund_is_a_sub_account_of_the_module() {
    let m = module();
    let fund = m.get_country_fund_id(3);
    assert_eq!(fund, into_sub_account(&MODULE_ID, 3));
    assert_ne!(fund, m.get_country_fund_id(4));
}
