//! Account addresses and their deterministic derivation.
//!
//! Every account this program owns sits at an address computed from a fixed
//! list of seeds and the program's own identity. Recomputing the address is
//! the only way such an account is located or authenticated.

use anchor_lang::prelude::Pubkey;
use vstd::prelude::*;

verus! {

/// Domain tag mixed into every derivation: the ASCII bytes of `airdrop_protocol`.
pub const AIRDROP_PROTOCOL: [u8; 16] = [
    97, 105, 114, 100, 114, 111, 112, 95, 112, 114, 111, 116, 111, 99, 111, 108,
];

/// The identity of an account, a mint, a user or a program.
#[derive(Clone, Copy, Debug, PartialEq, Eq, Hash)]
pub struct Address {
    pub bytes: [u8; 32],
}

impl View for Address {
    type V = Seq<u8>;

    open spec fn view(&self) -> Seq<u8> {
        self.bytes@
    }
}

impl Address {
    pub fn new(bytes: [u8; 32]) -> (address: Address)
        ensures
            address.bytes == bytes,
    {
        Address { bytes }
    }

    pub fn to_bytes(&self) -> (bytes: [u8; 32])
        ensures
            bytes == self.bytes,
    {
        self.bytes
    }

    /// Byte-wise comparison.
    pub fn equals(&self, other: &Address) -> (same: bool)
        ensures
            same == (*self == *other),
            same == (self@ == other@),
    {
        let mut i: usize = 0;
        while i < 32
            invariant
                i <= 32,
                forall|j: int| 0 <= j < i ==> self.bytes[j] == other.bytes[j],
            decreases 32 - i,
        {
            if self.bytes[i] != other.bytes[i] {
                assert(self@[i as int] != other@[i as int]);
                return false;
            }
            i += 1;
        }
        assert(self.bytes =~= other.bytes);
        true
    }

    /// The address as an owned seed.
    pub fn to_seed(&self) -> (seed: Vec<u8>)
        ensures
            seed@ == self@,
    {
        let mut seed: Vec<u8> = Vec::with_capacity(32);
        let mut i: usize = 0;
        while i < 32
            invariant
                i <= 32,
                seed@ == self@.take(i as int),
            decreases 32 - i,
        {
            seed.push(self.bytes[i]);
            assert(self@.take(i + 1) =~= self@.take(i as int).push(self@[i as int]));
            i += 1;
        }
        assert(self@.take(32) =~= self@);
        seed
    }
}

/// Two addresses with the same bytes are the same address.
pub proof fn lemma_address_view_injective(a: Address, b: Address)
    ensures
        a@ == b@ <==> a == b,
{
    if a@ == b@ {
        assert(a.bytes =~= b.bytes);
    }
}

/// The domain tag as an owned seed.
pub fn protocol_seed() -> (seed: Vec<u8>)
    ensures
        seed@ == AIRDROP_PROTOCOL@,
{
    let mut seed: Vec<u8> = Vec::with_capacity(16);
    let mut i: usize = 0;
    while i < 16
        invariant
            i <= 16,
            seed@ == AIRDROP_PROTOCOL@.take(i as int),
        decreases 16 - i,
    {
        seed.push(AIRDROP_PROTOCOL[i]);
        assert(AIRDROP_PROTOCOL@.take(i + 1) =~= AIRDROP_PROTOCOL@.take(i as int).push(
            AIRDROP_PROTOCOL@[i as int],
        ));
        i += 1;
    }
    assert(AIRDROP_PROTOCOL@.take(16) =~= AIRDROP_PROTOCOL@);
    seed
}

/// What `Pubkey::try_find_program_address` yields for a list of seeds and a
/// program identity: the derived address with its bump, or `None` when no bump
/// in the search space gives a usable address.
pub uninterp spec fn program_address(seeds: Seq<Seq<u8>>, program_id: Seq<u8>) -> Option<
    (Seq<u8>, u8),
>;

/// The outcome of a derivation as plain bytes.
pub open spec fn derived_view(found: Option<(Address, u8)>) -> Option<(Seq<u8>, u8)> {
    match found {
        Some((address, bump)) => Some((address@, bump)),
        None => None,
    }
}

/// Calls `Pubkey::try_find_program_address` of `solana_program`, reached
/// through `anchor_lang::prelude`. The call hashes the seeds, a bump byte, the program
/// identity and a fixed marker, trying bumps from 255 downwards until the
/// hash is no point of the ed25519 curve. Nothing of that is proved here: the
/// contract only names the outcome, which depends on the two arguments alone.
#[verifier::external_body]
fn find_program_address(seeds: &Vec<Vec<u8>>, program_id: &Address) -> (found: Option<
    (Address, u8),
>)
    ensures
        derived_view(found) == program_address(
            seeds@.map_values(|seed: Vec<u8>| seed@),
            program_id@,
        ),
{
    let parts: Vec<&[u8]> = seeds.iter().map(|seed| seed.as_slice()).collect();
    let program = Pubkey::new_from_array(program_id.bytes);
    match Pubkey::try_find_program_address(&parts, &program) {
        Some((key, bump)) => Some((Address { bytes: key.to_bytes() }, bump)),
        None => None,
    }
}

/// Seeds of a pool: its mint and the domain tag.
pub open spec fn pool_seeds(mint: Address) -> Seq<Seq<u8>> {
    seq![mint@, AIRDROP_PROTOCOL@]
}

/// Seeds of a pool's holding account: the pool, its mint and the domain tag.
pub open spec fn holding_seeds(pool: Address, mint: Address) -> Seq<Seq<u8>> {
    seq![pool@, mint@, AIRDROP_PROTOCOL@]
}

/// Seeds of a claim record: the user, the pool and the domain tag.
pub open spec fn claim_seeds(user: Address, pool: Address) -> Seq<Seq<u8>> {
    seq![user@, pool@, AIRDROP_PROTOCOL@]
}

/// Whether a derivation succeeded and names exactly the `referenced` address.
pub open spec fn derives_to(derived: Option<(Seq<u8>, u8)>, referenced: Address) -> bool {
    derived matches Some((bytes, _)) && bytes == referenced@
}

/// Derives the address and bump of the pool for `mint`.
pub fn find_pool_address(program_id: &Address, mint: &Address) -> (found: Option<(Address, u8)>)
    ensures
        derived_view(found) == program_address(pool_seeds(*mint), program_id@),
{
    let mut seeds: Vec<Vec<u8>> = Vec::with_capacity(2);
    seeds.push(mint.to_seed());
    seeds.push(protocol_seed());
    assert(seeds@.map_values(|seed: Vec<u8>| seed@) =~= pool_seeds(*mint));
    find_program_address(&seeds, program_id)
}

/// Derives the address and bump of the holding account of `pool`.
pub fn find_holding_address(program_id: &Address, pool: &Address, mint: &Address) -> (found:
    Option<(Address, u8)>)
    ensures
        derived_view(found) == program_address(holding_seeds(*pool, *mint), program_id@),
{
    let mut seeds: Vec<Vec<u8>> = Vec::with_capacity(3);
    seeds.push(pool.to_seed());
    seeds.push(mint.to_seed());
    seeds.push(protocol_seed());
    assert(seeds@.map_values(|seed: Vec<u8>| seed@) =~= holding_seeds(*pool, *mint));
    find_program_address(&seeds, program_id)
}

/// Derives the address and bump of the claim record of `user` in `pool`.
pub fn find_claim_address(program_id: &Address, user: &Address, pool: &Address) -> (found:
    Option<(Address, u8)>)
    ensures
        derived_view(found) == program_address(claim_seeds(*user, *pool), program_id@),
{
    let mut seeds: Vec<Vec<u8>> = Vec::with_capacity(3);
    seeds.push(user.to_seed());
    seeds.push(pool.to_seed());
    seeds.push(protocol_seed());
    assert(seeds@.map_values(|seed: Vec<u8>| seed@) =~= claim_seeds(*user, *pool));
    find_program_address(&seeds, program_id)
}

/// Compares the outcome of a derivation with the address a caller referenced.
pub fn matches_derivation(found: &Option<(Address, u8)>, referenced: &Address) -> (ok: bool)
    ensures
        ok == derives_to(derived_view(*found), *referenced),
{
    match found {
        Some((address, _)) => address.equals(referenced),
        None => false,
    }
}

} // verus!
