use airdrop::address::{
    find_claim_address, find_holding_address, find_pool_address, matches_derivation,
    protocol_seed,
};
use airdrop::table::Table;
use airdrop::{
    Address, ClaimState, CustomError, TokenAccount, TransferAuthority, TransferError, UserClaim,
    AIRDROP_PROTOCOL,
};
use anchor_lang::prelude::Pubkey;

fn address(tag: u8) -> Address {
    Address::new([tag; 32])
}

fn key(a: &Address) -> Pubkey {
    Pubkey::new_from_array(a.to_bytes())
}

#[test]
fn derivation_is_the_program_address_of_the_seeds() {
    let (program, mint, user) = (address(200), address(2), address(10));
    let (pool, pool_bump) = find_pool_address(&program, &mint).unwrap();
    let expected = Pubkey::find_program_address(&[&[2u8; 32], b"airdrop_protocol"], &key(&program));
    assert_eq!((key(&pool), pool_bump), expected);
    assert_ne!(pool, mint);
    assert_ne!(pool, program);

    let (holding, bump) = find_holding_address(&program, &pool, &mint).unwrap();
    let expected = Pubkey::find_program_address(
        &[&pool.to_bytes(), &mint.to_bytes(), b"airdrop_protocol"],
        &key(&program),
    );
    assert_eq!((key(&holding), bump), expected);

    let (claim, bump) = find_claim_address(&program, &user, &pool).unwrap();
    let expected = Pubkey::find_program_address(
        &[&user.to_bytes(), &pool.to_bytes(), b"airdrop_protocol"],
        &key(&program),
    );
    assert_eq!((key(&claim), bump), expected);
    assert_ne!(claim, holding);
}

#[test]
fn derivation_is_deterministic_and_separates_inputs() {
    let (program, mint) = (address(200), address(2));
    assert_eq!(find_pool_address(&program, &mint), find_pool_address(&program, &mint));
    assert_ne!(find_pool_address(&program, &mint), find_pool_address(&program, &address(3)));
    assert_ne!(find_pool_address(&program, &mint), find_pool_address(&address(201), &mint));
    let (pool, _) = find_pool_address(&program, &mint).unwrap();
    assert_eq!(
        find_claim_address(&program, &address(10), &pool),
        find_claim_address(&program, &address(10), &pool)
    );
    assert_ne!(
        find_claim_address(&program, &address(10), &pool),
        find_claim_address(&program, &address(11), &pool)
    );
}

#[test]
fn derivation_outcome_is_compared_bytewise() {
    let found = Some((address(5), 254u8));
    assert!(matches_derivation(&found, &address(5)));
    assert!(!matches_derivation(&found, &address(6)));
    assert!(!matches_derivation(&None, &address(5)));
    let mut bytes = [5u8; 32];
    bytes[31] = 6;
    assert!(!matches_derivation(&found, &Address::new(bytes)));
    assert!(!address(5).equals(&Address::new(bytes)));
    assert!(address(5).equals(&address(5)));
    assert_eq!(address(7).to_seed(), vec![7u8; 32]);
}

#[test]
fn protocol_tag_is_the_ascii_name() {
    assert_eq!(&AIRDROP_PROTOCOL, b"airdrop_protocol");
    assert_eq!(protocol_seed(), b"airdrop_protocol".to_vec());
}

#[test]
fn authority_presents_seeds_that_rebuild_its_address() {
    let (program, mint) = (address(200), address(2));
    let authority = TransferAuthority::derive(&program, &mint).unwrap();
    let (pool, bump) = find_pool_address(&program, &mint).unwrap();
    assert_eq!(authority.address(), pool);
    let seeds = authority.signer_seeds();
    assert_eq!(seeds, vec![vec![2u8; 32], b"airdrop_protocol".to_vec(), vec![bump]]);
    let parts: Vec<&[u8]> = seeds.iter().map(|s| s.as_slice()).collect();
    assert_eq!(Pubkey::create_program_address(&parts, &key(&program)), Ok(key(&pool)));
}

#[test]
fn claim_state_machine() {
    let (user, pool) = (address(10), address(30));
    let spent = UserClaim { user, pool, has_claimed: true };
    let open = UserClaim { user: address(0), pool: address(0), has_claimed: false };
    assert_eq!(UserClaim::state(&None), ClaimState::Unclaimed);
    assert_eq!(UserClaim::state(&Some(open)), ClaimState::Unclaimed);
    assert_eq!(UserClaim::state(&Some(spent)), ClaimState::Claimed);
    assert_eq!(UserClaim::claim(&None, user, pool, 1_000_000_001), Ok(spent));
    assert_eq!(UserClaim::claim(&Some(open), user, pool, u64::MAX), Ok(spent));
    assert_eq!(UserClaim::claim(&None, user, pool, 1_000_000_000), Err(CustomError::InvalidAmount));
    assert_eq!(UserClaim::claim(&Some(open), user, pool, 0), Err(CustomError::InvalidAmount));
    assert_eq!(UserClaim::claim(&Some(spent), user, pool, 2_000_000_000), Err(CustomError::AlreadyClaimed));
    assert_eq!(UserClaim::claim(&Some(spent), user, pool, 0), Err(CustomError::AlreadyClaimed));
}

#[test]
fn settlement_rules() {
    let (mint, owner) = (address(2), address(1));
    let from = Some(TokenAccount::new(mint, owner, 100));
    let to = Some(TokenAccount::new(mint, address(5), u64::MAX - 50));
    assert_eq!(
        TokenAccount::settle(&from, &to, true, &owner, 50),
        Ok((TokenAccount::new(mint, owner, 50), TokenAccount::new(mint, address(5), u64::MAX)))
    );
    assert_eq!(
        TokenAccount::settle(&from, &to, true, &owner, 0),
        Ok((TokenAccount::new(mint, owner, 100), TokenAccount::new(mint, address(5), u64::MAX - 50)))
    );
    assert_eq!(TokenAccount::settle(&from, &to, true, &owner, 51), Err(TransferError::Overflow));
    assert_eq!(TokenAccount::settle(&from, &to, true, &owner, 101), Err(TransferError::InsufficientFunds));
    assert_eq!(TokenAccount::settle(&from, &to, true, &address(5), 1), Err(TransferError::OwnerMismatch));
    assert_eq!(TokenAccount::settle(&from, &to, false, &owner, 1), Err(TransferError::SameAccount));
    assert_eq!(TokenAccount::settle(&None, &None, false, &owner, 1), Err(TransferError::SameAccount));
    assert_eq!(TokenAccount::settle(&None, &to, true, &owner, 1), Err(TransferError::AccountNotFound));
    assert_eq!(TokenAccount::settle(&from, &None, true, &owner, 1), Err(TransferError::AccountNotFound));
    let foreign = Some(TokenAccount::new(address(3), address(5), 0));
    assert_eq!(TokenAccount::settle(&from, &foreign, true, &owner, 1), Err(TransferError::MintMismatch));
}

#[test]
fn error_messages() {
    assert_eq!(CustomError::InvalidPoolTokenAccount.message(), "Invalid pool token account.");
    assert_eq!(CustomError::InvalidPoolAddress.message(), "Invalid pool address.");
    assert_eq!(CustomError::AlreadyClaimed.message(), "User has already claimed their tokens.");
    assert_eq!(CustomError::InvalidAmount.message(), "Invalid amount.");
}

#[test]
fn table_keeps_one_record_per_address() {
    let mut table: Table<u64> = Table::new();
    assert_eq!(table.get(&address(1)), None);
    table.insert(address(1), 10);
    table.insert(address(2), 20);
    assert_eq!(table.get(&address(1)), Some(10));
    assert_eq!(table.get(&address(2)), Some(20));
    table.insert(address(1), 11);
    assert_eq!(table.get(&address(1)), Some(11));
    assert_eq!(table.get(&address(2)), Some(20));
    assert_eq!(table.get(&address(3)), None);
}
