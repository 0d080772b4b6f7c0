//! Why a request is rejected. Every rejection leaves the ledger as it was.

use vstd::prelude::*;

verus! {

/// The program's own rejections.
#[derive(Clone, Copy, Debug, PartialEq, Eq)]
pub enum CustomError {
    /// The referenced holding account is not the one the pool derives.
    InvalidPoolTokenAccount,
    /// The referenced pool is not the one the mint derives.
    InvalidPoolAddress,
    /// The user's claim on this pool is already spent.
    AlreadyClaimed,
    /// The amount does not exceed the minimum withdrawal.
    InvalidAmount,
}

impl CustomError {
    /// The text of `message`.
    pub open spec fn message_text(self) -> Seq<char> {
        match self {
            CustomError::InvalidPoolTokenAccount => "Invalid pool token account."@,
            CustomError::InvalidPoolAddress => "Invalid pool address."@,
            CustomError::AlreadyClaimed => "User has already claimed their tokens."@,
            CustomError::InvalidAmount => "Invalid amount."@,
        }
    }

    /// What a caller is told.
    pub fn message(&self) -> (text: &'static str)
        ensures
            text@ == self.message_text(),
    {
        match self {
            CustomError::InvalidPoolTokenAccount => "Invalid pool token account.",
            CustomError::InvalidPoolAddress => "Invalid pool address.",
            CustomError::AlreadyClaimed => "User has already claimed their tokens.",
            CustomError::InvalidAmount => "Invalid amount.",
        }
    }
}

/// Why the ledger refuses to move funds between two token accounts.
#[derive(Clone, Copy, Debug, PartialEq, Eq)]
pub enum TransferError {
    /// The source or the destination does not exist.
    AccountNotFound,
    /// Source and destination are one account.
    SameAccount,
    /// Source and destination hold different mints.
    MintMismatch,
    /// The authority presented does not own the source.
    OwnerMismatch,
    /// The source holds less than the amount.
    InsufficientFunds,
    /// The destination cannot hold the sum.
    Overflow,
}

/// Every way a request can be rejected.
#[derive(Clone, Copy, Debug, PartialEq, Eq)]
pub enum AirdropError {
    /// A rule of the program was broken.
    Custom(CustomError),
    /// The funds could not be moved.
    Transfer(TransferError),
    /// No bump yields a usable address for the seeds at hand.
    DerivationFailed,
    /// The referenced claim record is not the one user and pool derive.
    InvalidClaimAddress,
    /// The mint already has its pool.
    PoolAlreadyExists,
    /// The mint has no pool yet.
    PoolNotFound,
}

} // verus!
