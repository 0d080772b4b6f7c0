//! Token distribution: an administrator funds a pool once per mint, and each
//! recipient withdraws from it at most once.

pub mod address;
pub mod authority;
pub mod errors;
pub mod guarantees;
pub mod ledger;
pub mod model;
pub mod state;
pub mod table;

pub use crate::address::{Address, AIRDROP_PROTOCOL};
pub use crate::authority::TransferAuthority;
pub use crate::errors::{AirdropError, CustomError, TransferError};
pub use crate::ledger::{claim_tokens, initialize_pool, process, Ledger};
pub use crate::model::Request;
pub use crate::state::{
    AirdropPool, ClaimState, ClaimTokens, InitializePool, TokenAccount, UserClaim,
    MIN_CLAIM_AMOUNT,
};
