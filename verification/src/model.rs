//! The ledger as a mathematical value, and what each request does to it.
//!
//! A request either yields the next ledger or is rejected. A rejected request
//! has no next ledger: the one it met stays in force.

use crate::address::{
    claim_seeds, derives_to, holding_seeds, pool_seeds, program_address, Address,
};
use crate::errors::{AirdropError, CustomError, TransferError};
use crate::state::{AirdropPool, ClaimTokens, InitializePool, TokenAccount, UserClaim};
use vstd::prelude::*;

verus! {

/// Everything the program has persisted, by address.
#[verifier::ext_equal]
pub struct LedgerState {
    /// The program that owns the pools and claim records.
    pub program_id: Address,
    pub pools: Map<Address, AirdropPool>,
    pub claims: Map<Address, UserClaim>,
    pub tokens: Map<Address, TokenAccount>,
}

/// One unit of work submitted to the ledger.
#[derive(Clone, Copy, Debug, PartialEq, Eq)]
pub enum Request {
    /// Create the pool of a mint and fund it with `amount`.
    InitializePool { pool: InitializePool, amount: u64 },
    /// Withdraw `amount` from a pool, once.
    ClaimTokens { claim: ClaimTokens, amount: u64 },
}

impl InitializePool {
    /// The holding account as the request creates it: empty, of the pool's
    /// mint, owned by the pool.
    pub open spec fn fresh_holding(self) -> TokenAccount {
        TokenAccount { mint: self.mint, owner: self.pool_authority, amount: 0 }
    }
}

impl LedgerState {
    /// A ledger on which nothing has happened yet.
    pub open spec fn empty(program_id: Address) -> LedgerState {
        LedgerState {
            program_id,
            pools: Map::empty(),
            claims: Map::empty(),
            tokens: Map::empty(),
        }
    }

    pub open spec fn pool(self, address: Address) -> Option<AirdropPool> {
        if self.pools.contains_key(address) {
            Some(self.pools[address])
        } else {
            None
        }
    }

    pub open spec fn claim(self, address: Address) -> Option<UserClaim> {
        if self.claims.contains_key(address) {
            Some(self.claims[address])
        } else {
            None
        }
    }

    pub open spec fn token_account(self, address: Address) -> Option<TokenAccount> {
        if self.tokens.contains_key(address) {
            Some(self.tokens[address])
        } else {
            None
        }
    }

    /// The units held at `address`; none where there is no account.
    pub open spec fn balance(self, address: Address) -> int {
        if self.tokens.contains_key(address) {
            self.tokens[address].amount as int
        } else {
            0
        }
    }

    /// The derived address of the pool for `mint`, if the derivation succeeds.
    pub open spec fn derived_pool(self, mint: Address) -> Option<(Seq<u8>, u8)> {
        program_address(pool_seeds(mint), self.program_id@)
    }

    /// The derived address of the holding account of `pool`.
    pub open spec fn derived_holding(self, pool: Address, mint: Address) -> Option<(Seq<u8>, u8)> {
        program_address(holding_seeds(pool, mint), self.program_id@)
    }

    /// The derived address of the claim record of `user` in `pool`.
    pub open spec fn derived_claim(self, user: Address, pool: Address) -> Option<(Seq<u8>, u8)> {
        program_address(claim_seeds(user, pool), self.program_id@)
    }

    /// Adds a token account at an address that has none.
    pub open spec fn open_token_account(self, address: Address, account: TokenAccount) -> Option<
        LedgerState,
    > {
        if self.tokens.contains_key(address) {
            None
        } else {
            Some(LedgerState { tokens: self.tokens.insert(address, account), ..self })
        }
    }

    /// Moves `amount` from one token account to another on the word of `authority`.
    pub open spec fn transfer(self, from: Address, to: Address, authority: Address, amount: u64)
        -> Result<LedgerState, TransferError> {
        match TokenAccount::settlement(
            self.token_account(from),
            self.token_account(to),
            from != to,
            authority,
            amount,
        ) {
            Ok((debited, credited)) => Ok(
                LedgerState { tokens: self.tokens.insert(from, debited).insert(to, credited), ..self },
            ),
            Err(e) => Err(e),
        }
    }

    /// Why the accounts of a funding request are refused before any funds
    /// are looked at, if they are.
    pub open spec fn initialize_pool_refusal(self, accounts: InitializePool) -> Option<
        AirdropError,
    > {
        let pool = self.derived_pool(accounts.mint);
        let holding = self.derived_holding(accounts.pool_authority, accounts.mint);
        if pool is None {
            Some(AirdropError::DerivationFailed)
        } else if !derives_to(pool, accounts.pool_authority) {
            Some(AirdropError::Custom(CustomError::InvalidPoolAddress))
        } else if holding is None {
            Some(AirdropError::DerivationFailed)
        } else if !derives_to(holding, accounts.pool_token_account) {
            Some(AirdropError::Custom(CustomError::InvalidPoolTokenAccount))
        } else if self.pools.contains_key(accounts.pool_authority) {
            Some(AirdropError::PoolAlreadyExists)
        } else if self.tokens.contains_key(accounts.pool_token_account)
            && self.tokens[accounts.pool_token_account].mint != accounts.mint {
            Some(AirdropError::Custom(CustomError::InvalidPoolTokenAccount))
        } else if self.tokens.contains_key(accounts.pool_token_account)
            && self.tokens[accounts.pool_token_account].owner != accounts.pool_authority {
            Some(AirdropError::Custom(CustomError::InvalidPoolTokenAccount))
        } else {
            None
        }
    }

    /// The ledger with the holding account of the request in place.
    pub open spec fn with_holding(self, accounts: InitializePool) -> LedgerState {
        if self.tokens.contains_key(accounts.pool_token_account) {
            self
        } else {
            LedgerState {
                tokens: self.tokens.insert(accounts.pool_token_account, accounts.fresh_holding()),
                ..self
            }
        }
    }

    /// Creates the pool of `accounts.mint` under the administrator
    /// `accounts.authority` and moves `amount` from `accounts.from` into its
    /// holding account.
    pub open spec fn initialize_pool(self, accounts: InitializePool, amount: u64) -> Result<
        LedgerState,
        AirdropError,
    > {
        match self.initialize_pool_refusal(accounts) {
            Some(e) => Err(e),
            None => match self.with_holding(accounts).transfer(
                accounts.from,
                accounts.pool_token_account,
                accounts.authority,
                amount,
            ) {
                Err(e) => Err(AirdropError::Transfer(e)),
                Ok(funded) => Ok(
                    LedgerState {
                        pools: funded.pools.insert(
                            accounts.pool_authority,
                            AirdropPool { authority: accounts.authority, mint: accounts.mint },
                        ),
                        ..funded
                    },
                ),
            },
        }
    }

    /// Why the accounts of a claim are refused before the claim itself is
    /// looked at, if they are.
    pub open spec fn claim_tokens_refusal(self, accounts: ClaimTokens) -> Option<AirdropError> {
        let pool = self.derived_pool(accounts.mint);
        let holding = self.derived_holding(accounts.pool_authority, accounts.mint);
        let claim = self.derived_claim(accounts.user, accounts.pool_authority);
        if pool is None {
            Some(AirdropError::DerivationFailed)
        } else if !derives_to(pool, accounts.pool_authority) {
            Some(AirdropError::Custom(CustomError::InvalidPoolAddress))
        } else if holding is None {
            Some(AirdropError::DerivationFailed)
        } else if !derives_to(holding, accounts.pool_token_account) {
            Some(AirdropError::Custom(CustomError::InvalidPoolTokenAccount))
        } else if claim is None {
            Some(AirdropError::DerivationFailed)
        } else if !derives_to(claim, accounts.user_claim) {
            Some(AirdropError::InvalidClaimAddress)
        } else if !self.pools.contains_key(accounts.pool_authority) {
            Some(AirdropError::PoolNotFound)
        } else {
            None
        }
    }

    /// Pays `amount` out of the pool into `accounts.user_token_account` and
    /// marks the claim of `accounts.user` as spent, both or neither.
    pub open spec fn claim_tokens(self, accounts: ClaimTokens, amount: u64) -> Result<
        LedgerState,
        AirdropError,
    > {
        match self.claim_tokens_refusal(accounts) {
            Some(e) => Err(e),
            None => match UserClaim::transition(
                self.claim(accounts.user_claim),
                accounts.user,
                accounts.pool_authority,
                amount,
            ) {
                Err(e) => Err(AirdropError::Custom(e)),
                Ok(record) => match self.transfer(
                    accounts.pool_token_account,
                    accounts.user_token_account,
                    accounts.pool_authority,
                    amount,
                ) {
                    Err(e) => Err(AirdropError::Transfer(e)),
                    Ok(paid) => Ok(
                        LedgerState {
                            claims: paid.claims.insert(accounts.user_claim, record),
                            ..paid
                        },
                    ),
                },
            },
        }
    }

    /// What a request yields.
    pub open spec fn step(self, request: Request) -> Result<LedgerState, AirdropError> {
        match request {
            Request::InitializePool { pool, amount } => self.initialize_pool(pool, amount),
            Request::ClaimTokens { claim, amount } => self.claim_tokens(claim, amount),
        }
    }

    /// The ledger in force once a request has been handled.
    pub open spec fn after(self, request: Request) -> LedgerState {
        match self.step(request) {
            Ok(next) => next,
            Err(_) => self,
        }
    }

    /// The ledger in force once each of `requests` has been handled in turn.
    pub open spec fn after_all(self, requests: Seq<Request>) -> LedgerState
        decreases requests.len(),
    {
        if requests.len() == 0 {
            self
        } else {
            self.after_all(requests.drop_last()).after(requests.last())
        }
    }

    /// Whether what a request returned, and the ledger it left, are what
    /// `expected` says of the ledger it met.
    pub open spec fn agrees(
        self,
        expected: Result<LedgerState, AirdropError>,
        returned: Result<(), AirdropError>,
        left: LedgerState,
    ) -> bool {
        match expected {
            Ok(next) => returned is Ok && left == next,
            Err(e) => returned == Err::<(), AirdropError>(e) && left == self,
        }
    }
}

} // verus!
