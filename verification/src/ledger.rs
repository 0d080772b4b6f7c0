//! The ledger in memory, and the two requests it serves.
//!
//! A request is decided in full before anything is written, so a rejected
//! request leaves no trace. Exclusive access to the ledger for the length of
//! a call is the transaction boundary.

use crate::address::{find_claim_address, find_holding_address, matches_derivation, Address};
use crate::authority::TransferAuthority;
use crate::errors::{AirdropError, CustomError};
use crate::model::{LedgerState, Request};
use crate::state::{AirdropPool, ClaimTokens, InitializePool, TokenAccount, UserClaim};
use crate::table::Table;
use vstd::prelude::*;

verus! {

/// The pools, claim records and token accounts of one program.
pub struct Ledger {
    program_id: Address,
    pools: Table<AirdropPool>,
    claims: Table<UserClaim>,
    tokens: Table<TokenAccount>,
}

impl View for Ledger {
    type V = LedgerState;

    closed spec fn view(&self) -> LedgerState {
        LedgerState {
            program_id: self.program_id,
            pools: self.pools@,
            claims: self.claims@,
            tokens: self.tokens@,
        }
    }
}

impl Ledger {
    /// An empty ledger for the program `program_id`.
    pub fn new(program_id: Address) -> (ledger: Ledger)
        ensures
            ledger@ == LedgerState::empty(program_id),
    {
        Ledger { program_id, pools: Table::new(), claims: Table::new(), tokens: Table::new() }
    }

    pub fn program_id(&self) -> (id: Address)
        ensures
            id == self@.program_id,
    {
        self.program_id
    }

    /// The pool stored at `address`.
    pub fn pool(&self, address: &Address) -> (pool: Option<AirdropPool>)
        ensures
            pool == self@.pool(*address),
    {
        self.pools.get(address)
    }

    /// The claim record stored at `address`.
    pub fn claim(&self, address: &Address) -> (claim: Option<UserClaim>)
        ensures
            claim == self@.claim(*address),
    {
        self.claims.get(address)
    }

    /// The token account stored at `address`.
    pub fn token_account(&self, address: &Address) -> (account: Option<TokenAccount>)
        ensures
            account == self@.token_account(*address),
    {
        self.tokens.get(address)
    }

    /// The units held at `address`; none where there is no account.
    pub fn balance(&self, address: &Address) -> (units: u64)
        ensures
            units == self@.balance(*address),
    {
        match self.tokens.get(address) {
            Some(account) => account.amount,
            None => 0,
        }
    }

    /// Adds a token account at an address that has none. Returns whether it
    /// did; an address in use keeps its account.
    pub fn open_token_account(&mut self, address: Address, account: TokenAccount) -> (opened: bool)
        ensures
            match old(self)@.open_token_account(address, account) {
                Some(next) => opened && final(self)@ == next,
                None => !opened && final(self)@ == old(self)@,
            },
    {
        if self.tokens.get(&address).is_some() {
            false
        } else {
            self.tokens.insert(address, account);
            true
        }
    }
}

/// Creates the pool of `accounts.mint` and funds it with `amount` units taken
/// from `accounts.from`. The caller vouches that `accounts.authority`
/// authorized the request.
pub fn initialize_pool(ledger: &mut Ledger, accounts: &InitializePool, amount: u64) -> (result:
    Result<(), AirdropError>)
    ensures
        old(ledger)@.agrees(
            old(ledger)@.initialize_pool(*accounts, amount),
            result,
            final(ledger)@,
        ),
{
    let authority = match TransferAuthority::derive(&ledger.program_id, &accounts.mint) {
        Some(authority) => authority,
        None => {
            return Err(AirdropError::DerivationFailed);
        },
    };
    if !authority.address().equals(&accounts.pool_authority) {
        return Err(AirdropError::Custom(CustomError::InvalidPoolAddress));
    }
    let holding = find_holding_address(
        &ledger.program_id,
        &accounts.pool_authority,
        &accounts.mint,
    );
    if holding.is_none() {
        return Err(AirdropError::DerivationFailed);
    }
    if !matches_derivation(&holding, &accounts.pool_token_account) {
        return Err(AirdropError::Custom(CustomError::InvalidPoolTokenAccount));
    }
    if ledger.pools.get(&accounts.pool_authority).is_some() {
        return Err(AirdropError::PoolAlreadyExists);
    }
    let destination = match ledger.tokens.get(&accounts.pool_token_account) {
        Some(account) => {
            if !account.mint.equals(&accounts.mint) || !account.owner.equals(
                &accounts.pool_authority,
            ) {
                return Err(AirdropError::Custom(CustomError::InvalidPoolTokenAccount));
            }
            account
        },
        None => TokenAccount::new(accounts.mint, accounts.pool_authority, 0),
    };
    let source = ledger.tokens.get(&accounts.from);
    let distinct = !accounts.from.equals(&accounts.pool_token_account);
    match TokenAccount::settle(&source, &Some(destination), distinct, &accounts.authority, amount) {
        Err(e) => Err(AirdropError::Transfer(e)),
        Ok((debited, credited)) => {
            ledger.tokens.insert(accounts.from, debited);
            ledger.tokens.insert(accounts.pool_token_account, credited);
            ledger.pools.insert(
                accounts.pool_authority,
                AirdropPool::new(accounts.authority, accounts.mint),
            );
            assert(ledger@ =~= old(ledger)@.initialize_pool(*accounts, amount)->Ok_0);
            Ok(())
        },
    }
}

/// Pays `amount` units out of the pool of `accounts.mint` into
/// `accounts.user_token_account` and marks the claim of `accounts.user` as
/// spent. The caller vouches that `accounts.user` authorized the request.
pub fn claim_tokens(ledger: &mut Ledger, accounts: &ClaimTokens, amount: u64) -> (result: Result<
    (),
    AirdropError,
>)
    ensures
        old(ledger)@.agrees(old(ledger)@.claim_tokens(*accounts, amount), result, final(ledger)@),
{
    let authority = match TransferAuthority::derive(&ledger.program_id, &accounts.mint) {
        Some(authority) => authority,
        None => {
            return Err(AirdropError::DerivationFailed);
        },
    };
    let pool = authority.address();
    if !pool.equals(&accounts.pool_authority) {
        return Err(AirdropError::Custom(CustomError::InvalidPoolAddress));
    }
    let holding = find_holding_address(&ledger.program_id, &pool, &accounts.mint);
    if holding.is_none() {
        return Err(AirdropError::DerivationFailed);
    }
    if !matches_derivation(&holding, &accounts.pool_token_account) {
        return Err(AirdropError::Custom(CustomError::InvalidPoolTokenAccount));
    }
    let claim = find_claim_address(&ledger.program_id, &accounts.user, &pool);
    if claim.is_none() {
        return Err(AirdropError::DerivationFailed);
    }
    if !matches_derivation(&claim, &accounts.user_claim) {
        return Err(AirdropError::InvalidClaimAddress);
    }
    if ledger.pools.get(&pool).is_none() {
        return Err(AirdropError::PoolNotFound);
    }
    let record = match UserClaim::claim(
        &ledger.claims.get(&accounts.user_claim),
        accounts.user,
        pool,
        amount,
    ) {
        Ok(record) => record,
        Err(e) => {
            return Err(AirdropError::Custom(e));
        },
    };
    let source = ledger.tokens.get(&accounts.pool_token_account);
    let destination = ledger.tokens.get(&accounts.user_token_account);
    let distinct = !accounts.pool_token_account.equals(&accounts.user_token_account);
    match TokenAccount::settle(&source, &destination, distinct, &pool, amount) {
        Err(e) => Err(AirdropError::Transfer(e)),
        Ok((debited, credited)) => {
            ledger.tokens.insert(accounts.pool_token_account, debited);
            ledger.tokens.insert(accounts.user_token_account, credited);
            ledger.claims.insert(accounts.user_claim, record);
            assert(ledger@ =~= old(ledger)@.claim_tokens(*accounts, amount)->Ok_0);
            Ok(())
        },
    }
}

/// Handles one request as one unit of work.
pub fn process(ledger: &mut Ledger, request: &Request) -> (result: Result<(), AirdropError>)
    ensures
        old(ledger)@.agrees(old(ledger)@.step(*request), result, final(ledger)@),
        final(ledger)@ == old(ledger)@.after(*request),
{
    match request {
        Request::InitializePool { pool, amount } => initialize_pool(ledger, pool, *amount),
        Request::ClaimTokens { claim, amount } => claim_tokens(ledger, claim, *amount),
    }
}

} // verus!
