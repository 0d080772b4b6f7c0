//! The authority that signs for a pool.
//!
//! A pool's holding account is owned by the pool's own address, for which no
//! private key exists. Funds leave it only on presentation of the derivation
//! of that address: the seeds and the bump. A `TransferAuthority` is that
//! derivation, and it can only be made by deriving.

use crate::address::{
    find_pool_address, pool_seeds, program_address, protocol_seed, Address, AIRDROP_PROTOCOL,
};
use vstd::prelude::*;

verus! {

/// Proof of having derived a pool's address from its mint.
pub struct TransferAuthority {
    program_id: Address,
    mint: Address,
    pool: Address,
    bump: u8,
}

impl TransferAuthority {
    #[verifier::type_invariant]
    spec fn genuine(self) -> bool {
        program_address(pool_seeds(self.mint), self.program_id@) == Some((self.pool@, self.bump))
    }

    /// The program the authority belongs to.
    pub closed spec fn program_id(self) -> Address {
        self.program_id
    }

    /// The mint whose pool it signs for.
    pub closed spec fn mint(self) -> Address {
        self.mint
    }

    /// The pool's address, on whose behalf it signs.
    pub closed spec fn pool(self) -> Address {
        self.pool
    }

    /// The bump that completes the seeds.
    pub closed spec fn bump(self) -> u8 {
        self.bump
    }

    /// The seeds to present when signing: the mint, the domain tag and the bump.
    pub open spec fn seeds(self) -> Seq<Seq<u8>> {
        seq![self.mint()@, AIRDROP_PROTOCOL@, seq![self.bump()]]
    }

    /// Derives the authority of the pool for `mint`. This is the only way to
    /// obtain one.
    pub fn derive(program_id: &Address, mint: &Address) -> (authority: Option<TransferAuthority>)
        ensures
            match authority {
                Some(a) => a.program_id() == *program_id && a.mint() == *mint && program_address(
                    pool_seeds(*mint),
                    program_id@,
                ) == Some((a.pool()@, a.bump())),
                None => program_address(pool_seeds(*mint), program_id@) is None,
            },
    {
        match find_pool_address(program_id, mint) {
            Some((pool, bump)) => Some(
                TransferAuthority { program_id: *program_id, mint: *mint, pool, bump },
            ),
            None => None,
        }
    }

    /// The address that the authority signs for. It is the one its mint derives.
    pub fn address(&self) -> (pool: Address)
        ensures
            pool == self.pool(),
            program_address(pool_seeds(self.mint()), self.program_id()@) == Some(
                (pool@, self.bump()),
            ),
    {
        proof {
            use_type_invariant(self);
        }
        self.pool
    }

    /// The seeds that reconstruct the address, bump included, in signing order.
    pub fn signer_seeds(&self) -> (seeds: Vec<Vec<u8>>)
        ensures
            seeds@.map_values(|seed: Vec<u8>| seed@) == self.seeds(),
    {
        let mut bump: Vec<u8> = Vec::with_capacity(1);
        bump.push(self.bump);
        let mut seeds: Vec<Vec<u8>> = Vec::with_capacity(3);
        seeds.push(self.mint.to_seed());
        seeds.push(protocol_seed());
        seeds.push(bump);
        assert(seeds@[2]@ =~= seq![self.bump]);
        assert(seeds@.map_values(|seed: Vec<u8>| seed@) =~= self.seeds());
        seeds
    }
}

} // verus!
