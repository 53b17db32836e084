//! The tokenization pallet: each country may issue one fungible token, and
//! balances of any currency can be moved between accounts.
use vstd::prelude::*;

use crate::encoding::{into_sub_account, pallet_sub_account};
use crate::table::Table;
use crate::types::{AccountId, DispatchError, Origin, PalletId, ensure_signed};

verus! {

/// An amount of a currency.
pub type Balance = u128;

/// Identifies a country.
pub type CountryId = u64;

/// Identifies a country's own currency.
pub type CountryCurrencyId = u32;

/// The symbol of a token.
#[derive(Clone, Copy, Debug, PartialEq, Eq, Structural)]
pub enum TokenSymbol {
    BCG,
}

/// Identifies a currency.
#[derive(Clone, Copy, Debug, PartialEq, Eq, Structural)]
pub enum CurrencyId {
    Token(TokenSymbol),
}

/// A country's token: its ticker and how many were issued.
#[derive(Debug, PartialEq, Eq)]
pub struct Token {
    pub ticker: Vec<u8>,
    pub total_supply: Balance,
}

/// Errors of the tokenization pallet.
#[derive(Clone, Copy, Debug, PartialEq, Eq, Structural)]
pub enum Error {
    AmountZero,
    BalanceLow,
    BalanceZero,
    InsufficientBalance,
    NoPermissionTokenIssuance,
    TokenAlreadyIssued,
    NoAvailableTokenId,
    CountryFundIsNotAvailable,
}

/// Why a call of the tokenization pallet failed.
#[derive(Clone, Copy, Debug, PartialEq, Eq)]
pub enum TokenizationError {
    /// The origin was not the one the call needs.
    BadOrigin,
    /// An error of the tokenization pallet.
    Module(Error),
    /// A failure of the currency that was asked to move funds.
    Currency(DispatchError),
}

/// What the tokenization pallet announces.
#[derive(Clone, Copy, Debug, PartialEq, Eq)]
pub enum Event {
    /// Tokens were issued [owner, total supply].
    Issued(AccountId, Balance),
    /// Funds were moved [currency, from, to, amount].
    Transferred(CurrencyId, AccountId, AccountId, Balance),
    /// Funds were destroyed [currency, owner, amount].
    Destroyed(CurrencyId, AccountId, Balance),
}

/// The services that the runtime provides to the tokenization pallet: the
/// countries and their funds, and a multi-currency ledger.
///
/// A runtime implements this trait.  Its spec functions say what the runtime
/// holds; its methods read and change that as their contracts say.
pub trait Trait: Sized {
    /// Whether `who` owns country `country_id`.
    spec fn owns_country(&self, country_id: CountryId, who: AccountId) -> bool;

    /// The currency of country `country_id`'s fund, if it has one.
    spec fn fund_currency(&self, country_id: CountryId) -> Option<CurrencyId>;

    /// How much of `currency_id` `who` holds.
    spec fn balance(&self, currency_id: CurrencyId, who: AccountId) -> Balance;

    /// How much of `currency_id` exists.
    spec fn issuance(&self, currency_id: CurrencyId) -> Balance;

    /// Whether `who` owns country `country_id`.
    fn is_country_owner(&self, country_id: CountryId, who: &AccountId) -> (r: bool)
        ensures
            r == self.owns_country(country_id, *who),
    ;

    /// The currency of country `country_id`'s fund, if it has one.
    fn country_fund_currency(&self, country_id: CountryId) -> (r: Option<CurrencyId>)
        ensures
            r == self.fund_currency(country_id),
    ;

    /// Credits `amount` of `currency_id` to `who`, which adds to the
    /// issuance; on failure nothing changes.
    fn deposit(&mut self, currency_id: CurrencyId, who: &AccountId, amount: Balance) -> (r: Result<
        (),
        DispatchError,
    >)
        ensures
            r is Ok ==> final(self).balance(currency_id, *who) == old(self).balance(currency_id, *who) + amount
                && final(self).issuance(currency_id) == old(self).issuance(currency_id) + amount,
            forall|c: CurrencyId, a: AccountId| #[trigger] final(self).balance(c, a) != old(self).balance(c, a)
                ==> r is Ok && c == currency_id && a == *who,
            forall|c: CurrencyId| #[trigger] final(self).issuance(c) != old(self).issuance(c) ==> r is Ok && c
                == currency_id,
            forall|k: CountryId, a: AccountId| #[trigger] final(self).owns_country(k, a) == old(self).owns_country(k, a),
            forall|k: CountryId| #[trigger] final(self).fund_currency(k) == old(self).fund_currency(k),
    ;

    /// Moves `amount` of `currency_id` from `from` to another account `to`;
    /// on failure nothing changes.
    fn transfer(&mut self, currency_id: CurrencyId, from: &AccountId, to: &AccountId, amount: Balance) -> (r: Result<
        (),
        DispatchError,
    >)
        requires
            *from != *to,
        ensures
            r is Ok ==> final(self).balance(currency_id, *from) == old(self).balance(currency_id, *from) - amount
                && final(self).balance(currency_id, *to) == old(self).balance(currency_id, *to) + amount,
            forall|c: CurrencyId, a: AccountId| #[trigger] final(self).balance(c, a) != old(self).balance(c, a)
                ==> r is Ok && c == currency_id && (a == *from || a == *to),
            forall|c: CurrencyId| #[trigger] final(self).issuance(c) != old(self).issuance(c) ==> r is Ok && c
                == currency_id && false,
            forall|k: CountryId, a: AccountId| #[trigger] final(self).owns_country(k, a) == old(self).owns_country(k, a),
            forall|k: CountryId| #[trigger] final(self).fund_currency(k) == old(self).fund_currency(k),
    ;

    /// How much of `currency_id` exists.
    fn total_issuance(&self, currency_id: CurrencyId) -> (r: Balance)
        ensures
            r == self.issuance(currency_id),
    ;
}

/// Runtime `after` holds what runtime `before` holds: the same balances,
/// issuance, country owners and funds.
pub open spec fn same_ledger<T: Trait>(before: T, after: T) -> bool {
    &&& forall|c: CurrencyId, a: AccountId| #[trigger] after.balance(c, a) == before.balance(c, a)
    &&& forall|c: CurrencyId| #[trigger] after.issuance(c) == before.issuance(c)
    &&& forall|k: CountryId, a: AccountId| #[trigger] after.owns_country(k, a) == before.owns_country(k, a)
    &&& forall|k: CountryId| #[trigger] after.fund_currency(k) == before.fund_currency(k)
}

/// Runtime `after` is `before` with `amount` of `currency_id` moved from
/// `from` to `to`; nothing else changed.
pub open spec fn moved_funds<T: Trait>(
    before: T,
    after: T,
    currency_id: CurrencyId,
    from: AccountId,
    to: AccountId,
    amount: Balance,
) -> bool {
    &&& after.balance(currency_id, from) == before.balance(currency_id, from) - amount
    &&& after.balance(currency_id, to) == before.balance(currency_id, to) + amount
    &&& forall|c: CurrencyId, a: AccountId|
        !(c == currency_id && (a == from || a == to)) ==> #[trigger] after.balance(c, a) == before.balance(c, a)
    &&& forall|c: CurrencyId| #[trigger] after.issuance(c) == before.issuance(c)
    &&& forall|k: CountryId, a: AccountId| #[trigger] after.owns_country(k, a) == before.owns_country(k, a)
    &&& forall|k: CountryId| #[trigger] after.fund_currency(k) == before.fund_currency(k)
}

/// Runtime `after` is `before` with `amount` of `currency_id` credited to
/// `who` and added to the issuance; nothing else changed.
pub open spec fn deposited<T: Trait>(before: T, after: T, currency_id: CurrencyId, who: AccountId, amount: Balance) -> bool {
    &&& after.balance(currency_id, who) == before.balance(currency_id, who) + amount
    &&& after.issuance(currency_id) == before.issuance(currency_id) + amount
    &&& forall|c: CurrencyId, a: AccountId|
        !(c == currency_id && a == who) ==> #[trigger] after.balance(c, a) == before.balance(c, a)
    &&& forall|c: CurrencyId| c != currency_id ==> #[trigger] after.issuance(c) == before.issuance(c)
    &&& forall|k: CountryId, a: AccountId| #[trigger] after.owns_country(k, a) == before.owns_country(k, a)
    &&& forall|k: CountryId| #[trigger] after.fund_currency(k) == before.fund_currency(k)
}

/// A token as a plain value.
pub struct TokenRecord {
    pub ticker: Seq<u8>,
    pub total_supply: Balance,
}

/// The storage of the tokenization pallet as plain values.
pub struct TokenizationState {
    /// The pallet from which country fund accounts are derived.
    pub module_id: PalletId,
    /// The currency each country issued.
    pub country_tokens: Map<CountryId, CountryCurrencyId>,
    /// The identifier the next token gets.
    pub next_token_id: CountryCurrencyId,
    /// Tokens by identifier.
    pub tokens: Map<CountryCurrencyId, TokenRecord>,
    /// The events announced so far.
    pub events: Seq<Event>,
}

/// The pallet: its storage, and the runtime that provides its services.
pub struct Module<T> {
    runtime: T,
    module_id: PalletId,
    country_tokens: Table<u64, CountryCurrencyId>,
    next_token_id: CountryCurrencyId,
    tokens: Table<u64, Token>,
    events: Vec<Event>,
}

impl<T> View for Module<T> {
    type V = TokenizationState;

    closed spec fn view(&self) -> TokenizationState {
        TokenizationState {
            module_id: self.module_id,
            country_tokens: self.country_tokens@,
            next_token_id: self.next_token_id,
            tokens: Map::new(
                |k: CountryCurrencyId| self.tokens@.contains_key(k as u64),
                |k: CountryCurrencyId|
                    TokenRecord {
                        ticker: self.tokens@[k as u64].ticker@,
                        total_supply: self.tokens@[k as u64].total_supply,
                    },
            ),
            events: self.events@,
        }
    }
}

/// The native currency.
pub open spec fn native_currency() -> CurrencyId {
    CurrencyId::Token(TokenSymbol::BCG)
}

impl<T: Trait> Module<T> {
    /// The pallet's tables are well formed, and every stored token has an
    /// identifier below the next one.
    pub closed spec fn wf(&self) -> bool {
        &&& self.country_tokens.wf()
        &&& self.tokens.wf()
        &&& forall|k: u64| #[trigger] self.tokens@.contains_key(k) ==> k < self.next_token_id
    }

    /// The runtime that provides the pallet's services.
    pub closed spec fn spec_runtime(&self) -> T {
        self.runtime
    }

    /// A pallet with empty storage.
    pub fn new(runtime: T, module_id: PalletId) -> (m: Self)
        ensures
            m.wf(),
            m.spec_runtime() == runtime,
            m@.module_id == module_id,
            m@.country_tokens == Map::<CountryId, CountryCurrencyId>::empty(),
            m@.next_token_id == 0,
            m@.tokens == Map::<CountryCurrencyId, TokenRecord>::empty(),
            m@.events == Seq::<Event>::empty(),
    {
        let m = Module {
            runtime,
            module_id,
            country_tokens: Table::new(),
            next_token_id: 0,
            tokens: Table::new(),
            events: Vec::new(),
        };
        proof {
            assert(m@.tokens =~= Map::<CountryCurrencyId, TokenRecord>::empty());
        }
        m
    }

    /// The runtime that provides the pallet's services.
    pub fn runtime(&self) -> (r: &T)
        ensures
            *r == self.spec_runtime(),
    {
        &self.runtime
    }

    /// The events announced so far, oldest first.
    pub fn events(&self) -> (r: &Vec<Event>)
        ensures
            r@ == self@.events,
    {
        &self.events
    }

    /// The currency that country `country_id` issued, if any.
    pub fn get_country_token(&self, country_id: CountryId) -> (r: Option<CountryCurrencyId>)
        requires
            self.wf(),
        ensures
            r == (if self@.country_tokens.contains_key(country_id) {
                Some(self@.country_tokens[country_id])
            } else {
                None
            }),
    {
        match self.country_tokens.get(&country_id) {
            Some(c) => Some(*c),
            None => None,
        }
    }

    /// The identifier the next token gets.
    pub fn next_token_id(&self) -> (r: CountryCurrencyId)
        ensures
            r == self@.next_token_id,
    {
        self.next_token_id
    }

    /// The ticker and total supply of token `id`, if it exists.
    pub fn token_details(&self, id: CountryCurrencyId) -> (r: Option<(Vec<u8>, Balance)>)
        requires
            self.wf(),
        ensures
            match r {
                Some(t) => self@.tokens.contains_key(id) && t.0@ == self@.tokens[id].ticker && t.1
                    == self@.tokens[id].total_supply,
                None => !self@.tokens.contains_key(id),
            },
    {
        match self.tokens.get(&(id as u64)) {
            Some(t) => {
                let mut ticker: Vec<u8> = Vec::new();
                let mut i: usize = 0;
                while i < t.ticker.len()
                    invariant
                        i <= t.ticker@.len(),
                        ticker@ == t.ticker@.take(i as int),
                    decreases t.ticker@.len() - i,
                {
                    ticker.push(t.ticker[i]);
                    i = i + 1;
                    assert(ticker@ =~= t.ticker@.take(i as int));
                }
                assert(ticker@ =~= t.ticker@);
                Some((ticker, t.total_supply))
            },
            None => None,
        }
    }

    /// Issues a token with `ticker` and `total_supply` for country
    /// `country_id`, crediting the supply to the caller in the native
    /// currency; the caller must own the country.
    pub fn mint_token(
        &mut self,
        origin: Origin,
        ticker: Vec<u8>,
        country_id: CountryId,
        total_supply: Balance,
    ) -> (r: Result<(), TokenizationError>)
        requires
            old(self).wf(),
        ensures
            final(self).wf(),
            ({
                let before = old(self)@;
                let rt = old(self).spec_runtime();
                let who = origin->Signed_0;
                let id = before.next_token_id;
                let owns = rt.owns_country(country_id, who);
                &&& !(origin is Signed) ==> r == Err::<(), TokenizationError>(TokenizationError::BadOrigin)
                &&& origin is Signed && !owns ==> r == Err::<(), TokenizationError>(
                    TokenizationError::Module(Error::NoPermissionTokenIssuance),
                )
                &&& origin is Signed && owns && id == u32::MAX ==> r == Err::<(), TokenizationError>(
                    TokenizationError::Module(Error::NoAvailableTokenId),
                )
                &&& origin is Signed && owns && id < u32::MAX ==> r is Ok || r->Err_0 is Currency
                &&& r is Ok ==> deposited(rt, final(self).spec_runtime(), native_currency(), who, total_supply)
                &&& r is Err ==> same_ledger(rt, final(self).spec_runtime())
                &&& r is Ok ==> {
                    &&& origin is Signed && owns
                    &&& id < u32::MAX
                    &&& final(self)@ == (TokenizationState {
                        next_token_id: (id + 1) as CountryCurrencyId,
                        tokens: before.tokens.insert(
                            id,
                            TokenRecord { ticker: ticker@, total_supply },
                        ),
                        country_tokens: before.country_tokens.insert(country_id, id),
                        events: before.events.push(Event::Issued(who, total_supply)),
                        ..before
                    })
                }
                &&& r is Err ==> final(self)@ == before
            }),
    {
        let who = match ensure_signed(origin) {
            Ok(w) => w,
            Err(_) => return Err(TokenizationError::BadOrigin),
        };
        if !self.runtime.is_country_owner(country_id, &who) {
            return Err(TokenizationError::Module(Error::NoPermissionTokenIssuance));
        }
        let currency_id = self.next_token_id;
        let next = match currency_id.checked_add(1) {
            Some(n) => n,
            None => return Err(TokenizationError::Module(Error::NoAvailableTokenId)),
        };
        let native_currency = CurrencyId::Token(TokenSymbol::BCG);
        match self.runtime.deposit(native_currency, &who, total_supply) {
            Ok(()) => {},
            Err(e) => return Err(TokenizationError::Currency(e)),
        }
        let ghost t = ticker@;
        self.next_token_id = next;
        self.tokens.insert(currency_id as u64, Token { ticker, total_supply });
        self.country_tokens.insert(country_id, currency_id);
        self.events.push(Event::Issued(who, total_supply));
        proof {
            let before = old(self)@;
            assert(self@.tokens =~= before.tokens.insert(
                currency_id,
                TokenRecord { ticker: t, total_supply },
            ));
        }
        Ok(())
    }

    /// Moves `amount` of `currency_id` from the caller to `dest`.
    pub fn transfer(&mut self, origin: Origin, dest: AccountId, currency_id: CurrencyId, amount: Balance) -> (r:
        Result<(), TokenizationError>)
        requires
            old(self).wf(),
        ensures
            final(self).wf(),
            !(origin is Signed) ==> r == Err::<(), TokenizationError>(TokenizationError::BadOrigin)
                && final(self)@ == old(self)@,
            origin is Signed ==> transfer_outcome(
                old(self)@,
                final(self)@,
                currency_id,
                origin->Signed_0,
                dest,
                amount,
                r,
            ),
            origin is Signed ==> ledger_outcome(
                old(self).spec_runtime(),
                final(self).spec_runtime(),
                currency_id,
                origin->Signed_0,
                dest,
                amount,
                r,
            ),
            !(origin is Signed) ==> final(self).spec_runtime() == old(self).spec_runtime(),
    {
        let from = match ensure_signed(origin) {
            Ok(w) => w,
            Err(_) => return Err(TokenizationError::BadOrigin),
        };
        self.transfer_from(currency_id, &from, &dest, amount)
    }

    /// Moves `amount` of `currency_id` from `from` to `to`; moving nothing,
    /// or moving to oneself, does nothing.
    pub fn transfer_from(
        &mut self,
        currency_id: CurrencyId,
        from: &AccountId,
        to: &AccountId,
        amount: Balance,
    ) -> (r: Result<(), TokenizationError>)
        requires
            old(self).wf(),
        ensures
            final(self).wf(),
            transfer_outcome(old(self)@, final(self)@, currency_id, *from, *to, amount, r),
            ledger_outcome(old(self).spec_runtime(), final(self).spec_runtime(), currency_id, *from, *to, amount, r),
            amount == 0 || *from == *to ==> final(self).spec_runtime() == old(self).spec_runtime(),
    {
        if amount == 0 || *from == *to {
            return Ok(());
        }
        match self.runtime.transfer(currency_id, from, to, amount) {
            Ok(()) => {},
            Err(e) => return Err(TokenizationError::Currency(e)),
        }
        self.events.push(Event::Transferred(currency_id, *from, *to, amount));
        Ok(())
    }

    /// How much of `currency_id` exists, as the runtime's ledger says.
    fn total_issuance(&self, currency_id: CurrencyId) -> (r: Balance)
        ensures
            r == self.spec_runtime().issuance(currency_id),
    {
        self.runtime.total_issuance(currency_id)
    }

    /// How much of the currency of country `country_id`'s fund exists, as the
    /// runtime's ledger says; fails where the country has no fund.
    pub fn get_total_issuance(&self, country_id: CountryId) -> (r: Result<Balance, TokenizationError>)
        ensures
            r == (match self.spec_runtime().fund_currency(country_id) {
                Some(c) => Ok::<Balance, TokenizationError>(self.spec_runtime().issuance(c)),
                None => Err(TokenizationError::Module(Error::CountryFundIsNotAvailable)),
            }),
    {
        let currency = match self.runtime.country_fund_currency(country_id) {
            Some(c) => c,
            None => return Err(TokenizationError::Module(Error::CountryFundIsNotAvailable)),
        };
        Ok(self.total_issuance(currency))
    }

    /// The account of country `country_id`'s fund.
    pub fn get_country_fund_id(&self, country_id: CountryId) -> (r: AccountId)
        ensures
            r == pallet_sub_account(self@.module_id, country_id),
    {
        into_sub_account(&self.module_id, country_id)
    }
}

/// What moving `amount` of `currency_id` from `from` to `to` does to the
/// ledger: on success, the funds moved (for no amount or the same account,
/// nothing changed); on failure, nothing changed.
pub open spec fn ledger_outcome<T: Trait>(
    before: T,
    after: T,
    currency_id: CurrencyId,
    from: AccountId,
    to: AccountId,
    amount: Balance,
    r: Result<(), TokenizationError>,
) -> bool {
    if amount == 0 || from == to {
        after == before
    } else {
        match r {
            Ok(()) => moved_funds(before, after, currency_id, from, to, amount),
            Err(_) => same_ledger(before, after),
        }
    }
}

/// What moving `amount` of `currency_id` from `from` to `to` leaves: nothing
/// changes when the amount is zero or the accounts are the same; otherwise
/// the move is announced if the currency made it, and nothing changes if not.
pub open spec fn transfer_outcome(
    before: TokenizationState,
    after: TokenizationState,
    currency_id: CurrencyId,
    from: AccountId,
    to: AccountId,
    amount: Balance,
    r: Result<(), TokenizationError>,
) -> bool {
    if amount == 0 || from == to {
        r == Ok::<(), TokenizationError>(()) && after == before
    } else {
        match r {
            Ok(()) => after == (TokenizationState {
                events: before.events.push(Event::Transferred(currency_id, from, to, amount)),
                ..before
            }),
            Err(e) => e is Currency && after == before,
        }
    }
}

} // verus!
