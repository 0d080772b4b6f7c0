//! The persisted records and the claim state machine.

use crate::address::Address;
use crate::errors::{CustomError, TransferError};
use vstd::prelude::*;

verus! {

/// A claim must withdraw more than this many units.
pub const MIN_CLAIM_AMOUNT: u64 = 1_000_000_000;

/// One distribution campaign. There is one per mint, at the address the mint
/// derives; it is created once and never changes.
#[derive(Clone, Copy, Debug, PartialEq, Eq)]
pub struct AirdropPool {
    /// Who funded the pool and administers it.
    pub authority: Address,
    /// The unit type the pool distributes.
    pub mint: Address,
}

/// One recipient's standing in one pool.
#[derive(Clone, Copy, Debug, PartialEq, Eq)]
pub struct UserClaim {
    pub user: Address,
    pub pool: Address,
    /// Set by the one successful claim, and never cleared.
    pub has_claimed: bool,
}

/// A container of funds of one mint.
#[derive(Clone, Copy, Debug, PartialEq, Eq)]
pub struct TokenAccount {
    pub mint: Address,
    /// The only identity that may authorize debits.
    pub owner: Address,
    pub amount: u64,
}

/// The two states of a user in a pool.
#[derive(Clone, Copy, Debug, PartialEq, Eq)]
pub enum ClaimState {
    /// No record, or a record whose flag is not set.
    Unclaimed,
    /// The flag is set. Terminal.
    Claimed,
}

impl AirdropPool {
    pub fn new(authority: Address, mint: Address) -> (pool: AirdropPool)
        ensures
            pool == (AirdropPool { authority, mint }),
    {
        AirdropPool { authority, mint }
    }
}

impl TokenAccount {
    /// An account of `mint` owned by `owner`, holding `amount`.
    pub fn new(mint: Address, owner: Address, amount: u64) -> (account: TokenAccount)
        ensures
            account == (TokenAccount { mint, owner, amount }),
    {
        TokenAccount { mint, owner, amount }
    }

    /// What moving `amount` from `source` to `destination` on the word of
    /// `authority` leaves in the two accounts, or why it cannot be done.
    /// `distinct` says whether the two sit at different addresses.
    pub open spec fn settlement(
        source: Option<TokenAccount>,
        destination: Option<TokenAccount>,
        distinct: bool,
        authority: Address,
        amount: u64,
    ) -> Result<(TokenAccount, TokenAccount), TransferError> {
        if !distinct {
            Err(TransferError::SameAccount)
        } else if source is None || destination is None {
            Err(TransferError::AccountNotFound)
        } else if source->0.mint != destination->0.mint {
            Err(TransferError::MintMismatch)
        } else if source->0.owner != authority {
            Err(TransferError::OwnerMismatch)
        } else if source->0.amount < amount {
            Err(TransferError::InsufficientFunds)
        } else if destination->0.amount + amount > u64::MAX {
            Err(TransferError::Overflow)
        } else {
            Ok(
                (
                    TokenAccount { amount: (source->0.amount - amount) as u64, ..source->0 },
                    TokenAccount {
                        amount: (destination->0.amount + amount) as u64,
                        ..destination->0
                    },
                ),
            )
        }
    }

    /// Decides a transfer without touching either account: the result is the
    /// pair to store, the debited source first.
    pub fn settle(
        source: &Option<TokenAccount>,
        destination: &Option<TokenAccount>,
        distinct: bool,
        authority: &Address,
        amount: u64,
    ) -> (settled: Result<(TokenAccount, TokenAccount), TransferError>)
        ensures
            settled == TokenAccount::settlement(
                *source,
                *destination,
                distinct,
                *authority,
                amount,
            ),
    {
        if !distinct {
            return Err(TransferError::SameAccount);
        }
        match (source, destination) {
            (Some(from), Some(to)) => {
                if !from.mint.equals(&to.mint) {
                    Err(TransferError::MintMismatch)
                } else if !from.owner.equals(authority) {
                    Err(TransferError::OwnerMismatch)
                } else if from.amount < amount {
                    Err(TransferError::InsufficientFunds)
                } else {
                    match to.amount.checked_add(amount) {
                        Some(credited) => Ok(
                            (
                                TokenAccount {
                                    mint: from.mint,
                                    owner: from.owner,
                                    amount: from.amount - amount,
                                },
                                TokenAccount { mint: to.mint, owner: to.owner, amount: credited },
                            ),
                        ),
                        None => Err(TransferError::Overflow),
                    }
                }
            },
            _ => Err(TransferError::AccountNotFound),
        }
    }
}

impl UserClaim {
    /// The state that a stored record, or its absence, stands for.
    pub open spec fn state_of(record: Option<UserClaim>) -> ClaimState {
        match record {
            Some(claim) => if claim.has_claimed {
                ClaimState::Claimed
            } else {
                ClaimState::Unclaimed
            },
            None => ClaimState::Unclaimed,
        }
    }

    /// The one transition of the state machine: from `Unclaimed`, with an
    /// amount above the minimum, to the record that marks the claim as spent.
    /// A spent claim is rejected before the amount is looked at.
    pub open spec fn transition(
        record: Option<UserClaim>,
        user: Address,
        pool: Address,
        amount: u64,
    ) -> Result<UserClaim, CustomError> {
        if UserClaim::state_of(record) == ClaimState::Claimed {
            Err(CustomError::AlreadyClaimed)
        } else if amount <= MIN_CLAIM_AMOUNT {
            Err(CustomError::InvalidAmount)
        } else {
            Ok(UserClaim { user, pool, has_claimed: true })
        }
    }

    pub fn state(record: &Option<UserClaim>) -> (state: ClaimState)
        ensures
            state == UserClaim::state_of(*record),
    {
        match record {
            Some(claim) => if claim.has_claimed {
                ClaimState::Claimed
            } else {
                ClaimState::Unclaimed
            },
            None => ClaimState::Unclaimed,
        }
    }

    /// Decides a claim of `amount` by `user` on `pool`, given the record
    /// stored for the pair, if any. On success the result is the record to
    /// store; it must be stored together with the transfer or not at all.
    pub fn claim(record: &Option<UserClaim>, user: Address, pool: Address, amount: u64) -> (next:
        Result<UserClaim, CustomError>)
        ensures
            next == UserClaim::transition(*record, user, pool, amount),
    {
        match UserClaim::state(record) {
            ClaimState::Claimed => Err(CustomError::AlreadyClaimed),
            ClaimState::Unclaimed => {
                if amount > MIN_CLAIM_AMOUNT {
                    Ok(UserClaim { user, pool, has_claimed: true })
                } else {
                    Err(CustomError::InvalidAmount)
                }
            },
        }
    }
}

/// The accounts that a request to create and fund a pool refers to.
#[derive(Clone, Copy, Debug, PartialEq, Eq)]
pub struct InitializePool {
    /// The administrator, who authorizes the request and owns `from`.
    pub authority: Address,
    /// The pool to create.
    pub pool_authority: Address,
    /// The account the funding is taken from.
    pub from: Address,
    /// The pool's holding account.
    pub pool_token_account: Address,
    pub mint: Address,
}

/// The accounts that a request to withdraw from a pool refers to.
#[derive(Clone, Copy, Debug, PartialEq, Eq)]
pub struct ClaimTokens {
    pub pool_authority: Address,
    /// The account the withdrawal is paid into.
    pub user_token_account: Address,
    /// The recipient, who authorizes the request.
    pub user: Address,
    pub pool_token_account: Address,
    /// The record of `user` in the pool.
    pub user_claim: Address,
    pub mint: Address,
}

} // verus!
