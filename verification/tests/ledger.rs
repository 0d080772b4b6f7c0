use airdrop::address::{find_claim_address, find_holding_address, find_pool_address};
use airdrop::{
    claim_tokens, initialize_pool, process, Address, AirdropError, AirdropPool, ClaimTokens,
    CustomError, InitializePool, Ledger, Request, TokenAccount, TransferError, UserClaim,
    MIN_CLAIM_AMOUNT,
};

fn address(tag: u8) -> Address {
    Address::new([tag; 32])
}

struct World {
    ledger: Ledger,
    admin: Address,
    mint: Address,
    source: Address,
    pool: Address,
    holding: Address,
}

impl World {
    fn funding(&self) -> InitializePool {
        InitializePool {
            authority: self.admin,
            pool_authority: self.pool,
            from: self.source,
            pool_token_account: self.holding,
            mint: self.mint,
        }
    }

    fn claim_of(&self, user: Address, wallet: Address) -> ClaimTokens {
        let (record, _) = find_claim_address(&self.ledger.program_id(), &user, &self.pool).unwrap();
        ClaimTokens {
            pool_authority: self.pool,
            user_token_account: wallet,
            user,
            pool_token_account: self.holding,
            user_claim: record,
            mint: self.mint,
        }
    }

    fn open_wallet(&mut self, wallet: Address, owner: Address, amount: u64) {
        assert!(self.ledger.open_token_account(wallet, TokenAccount::new(self.mint, owner, amount)));
    }
}

fn world(source_balance: u64) -> World {
    let program = address(200);
    let admin = address(1);
    let mint = address(2);
    let source = address(3);
    let (pool, _) = find_pool_address(&program, &mint).unwrap();
    let (holding, _) = find_holding_address(&program, &pool, &mint).unwrap();
    let mut ledger = Ledger::new(program);
    assert!(ledger.open_token_account(source, TokenAccount::new(mint, admin, source_balance)));
    World { ledger, admin, mint, source, pool, holding }
}

fn funded(amount: u64) -> World {
    let mut w = world(amount);
    let accounts = w.funding();
    assert_eq!(initialize_pool(&mut w.ledger, &accounts, amount), Ok(()));
    w
}

#[test]
fn funds_pool_and_pays_one_claim_per_user() {
    let mut w = funded(10_000_000_000);
    assert_eq!(w.ledger.balance(&w.holding), 10_000_000_000);
    assert_eq!(w.ledger.balance(&w.source), 0);
    assert_eq!(w.ledger.pool(&w.pool), Some(AirdropPool { authority: w.admin, mint: w.mint }));

    let (a, a_wallet) = (address(10), address(11));
    w.open_wallet(a_wallet, a, 0);
    let a_claim = w.claim_of(a, a_wallet);
    assert_eq!(claim_tokens(&mut w.ledger, &a_claim, 2_000_000_000), Ok(()));
    assert_eq!(w.ledger.balance(&w.holding), 8_000_000_000);
    assert_eq!(w.ledger.balance(&a_wallet), 2_000_000_000);
    assert_eq!(
        w.ledger.claim(&a_claim.user_claim),
        Some(UserClaim { user: a, pool: w.pool, has_claimed: true })
    );

    for amount in [2_000_000_000u64, 1, 0, u64::MAX, MIN_CLAIM_AMOUNT] {
        assert_eq!(
            claim_tokens(&mut w.ledger, &a_claim, amount),
            Err(AirdropError::Custom(CustomError::AlreadyClaimed))
        );
        assert_eq!(w.ledger.balance(&w.holding), 8_000_000_000);
        assert_eq!(w.ledger.balance(&a_wallet), 2_000_000_000);
    }

    let (b, b_wallet) = (address(20), address(21));
    w.open_wallet(b_wallet, b, 0);
    let b_claim = w.claim_of(b, b_wallet);
    assert_eq!(
        claim_tokens(&mut w.ledger, &b_claim, 500_000_000),
        Err(AirdropError::Custom(CustomError::InvalidAmount))
    );
    assert_eq!(w.ledger.balance(&w.holding), 8_000_000_000);
    assert_eq!(w.ledger.balance(&b_wallet), 0);
    assert_eq!(w.ledger.claim(&b_claim.user_claim), None);
}

#[test]
fn threshold_is_exclusive() {
    let mut w = funded(10_000_000_000);
    let (user, wallet) = (address(10), address(11));
    w.open_wallet(wallet, user, 0);
    let claim = w.claim_of(user, wallet);
    assert_eq!(MIN_CLAIM_AMOUNT, 1_000_000_000);
    for amount in [0u64, 1, 999_999_999, 1_000_000_000] {
        assert_eq!(
            claim_tokens(&mut w.ledger, &claim, amount),
            Err(AirdropError::Custom(CustomError::InvalidAmount))
        );
        assert_eq!(w.ledger.balance(&w.holding), 10_000_000_000);
        assert_eq!(w.ledger.claim(&claim.user_claim), None);
    }
    assert_eq!(claim_tokens(&mut w.ledger, &claim, 1_000_000_001), Ok(()));
    assert_eq!(w.ledger.balance(&w.holding), 8_999_999_999);
    assert_eq!(w.ledger.balance(&wallet), 1_000_000_001);
}

#[test]
fn second_funding_of_a_mint_is_rejected() {
    let mut w = world(10_000_000_000);
    let accounts = w.funding();
    assert_eq!(initialize_pool(&mut w.ledger, &accounts, 4_000_000_000), Ok(()));
    assert_eq!(w.ledger.balance(&w.holding), 4_000_000_000);
    assert_eq!(w.ledger.balance(&w.source), 6_000_000_000);

    assert_eq!(
        initialize_pool(&mut w.ledger, &accounts, 1_000_000_000),
        Err(AirdropError::PoolAlreadyExists)
    );
    let intruder = address(66);
    let purse = address(67);
    w.open_wallet(purse, intruder, 5_000_000_000);
    let again = InitializePool { authority: intruder, from: purse, ..accounts };
    assert_eq!(
        initialize_pool(&mut w.ledger, &again, 5_000_000_000),
        Err(AirdropError::PoolAlreadyExists)
    );
    assert_eq!(w.ledger.balance(&w.holding), 4_000_000_000);
    assert_eq!(w.ledger.balance(&w.source), 6_000_000_000);
    assert_eq!(w.ledger.balance(&purse), 5_000_000_000);
    assert_eq!(w.ledger.pool(&w.pool), Some(AirdropPool { authority: w.admin, mint: w.mint }));
}

#[test]
fn balances_are_conserved_over_many_claims() {
    let mut w = funded(20_000_000_000);
    let amounts = [1_500_000_000u64, 2_000_000_000, 1_000_000_001, 7_000_000_000];
    let mut paid: u64 = 0;
    for (i, amount) in amounts.iter().enumerate() {
        let user = address(100 + i as u8);
        let wallet = address(150 + i as u8);
        w.open_wallet(wallet, user, 5);
        let claim = w.claim_of(user, wallet);
        assert_eq!(claim_tokens(&mut w.ledger, &claim, *amount), Ok(()));
        paid += *amount;
        assert_eq!(w.ledger.balance(&wallet), 5 + *amount);
        assert_eq!(w.ledger.balance(&w.holding), 20_000_000_000 - paid);
    }
    assert_eq!(w.ledger.balance(&w.holding), 8_499_999_999);
}

#[test]
fn either_order_of_two_claims_pays_once() {
    for first_is_small in [true, false] {
        let mut w = funded(10_000_000_000);
        let (user, wallet) = (address(10), address(11));
        w.open_wallet(wallet, user, 0);
        let claim = w.claim_of(user, wallet);
        let (first, second) =
            if first_is_small { (2_000_000_000, 3_000_000_000) } else { (3_000_000_000, 2_000_000_000) };
        assert_eq!(claim_tokens(&mut w.ledger, &claim, first), Ok(()));
        assert_eq!(
            claim_tokens(&mut w.ledger, &claim, second),
            Err(AirdropError::Custom(CustomError::AlreadyClaimed))
        );
        assert_eq!(w.ledger.balance(&w.holding), 10_000_000_000 - first);
        assert_eq!(w.ledger.balance(&wallet), first);
    }
}

#[test]
fn wrong_addresses_are_rejected() {
    let mut w = world(10_000_000_000);
    let good = w.funding();
    let bad_pool = InitializePool { pool_authority: address(9), ..good };
    assert_eq!(
        initialize_pool(&mut w.ledger, &bad_pool, 1),
        Err(AirdropError::Custom(CustomError::InvalidPoolAddress))
    );
    let bad_holding = InitializePool { pool_token_account: address(9), ..good };
    assert_eq!(
        initialize_pool(&mut w.ledger, &bad_holding, 1),
        Err(AirdropError::Custom(CustomError::InvalidPoolTokenAccount))
    );
    let other_mint = InitializePool { mint: address(77), ..good };
    assert_eq!(
        initialize_pool(&mut w.ledger, &other_mint, 1),
        Err(AirdropError::Custom(CustomError::InvalidPoolAddress))
    );
    assert_eq!(w.ledger.pool(&w.pool), None);
    assert_eq!(w.ledger.token_account(&w.holding), None);
    assert_eq!(w.ledger.balance(&w.source), 10_000_000_000);

    let (user, wallet) = (address(10), address(11));
    w.open_wallet(wallet, user, 0);
    let claim = w.claim_of(user, wallet);
    assert_eq!(
        claim_tokens(&mut w.ledger, &claim, 2_000_000_000),
        Err(AirdropError::PoolNotFound)
    );
    assert_eq!(initialize_pool(&mut w.ledger, &good, 10_000_000_000), Ok(()));
    assert_eq!(
        claim_tokens(&mut w.ledger, &ClaimTokens { pool_authority: address(9), ..claim }, 2_000_000_000),
        Err(AirdropError::Custom(CustomError::InvalidPoolAddress))
    );
    assert_eq!(
        claim_tokens(&mut w.ledger, &ClaimTokens { pool_token_account: wallet, ..claim }, 2_000_000_000),
        Err(AirdropError::Custom(CustomError::InvalidPoolTokenAccount))
    );
    assert_eq!(
        claim_tokens(&mut w.ledger, &ClaimTokens { user_claim: address(9), ..claim }, 2_000_000_000),
        Err(AirdropError::InvalidClaimAddress)
    );
    assert_eq!(
        claim_tokens(&mut w.ledger, &ClaimTokens { user: address(12), ..claim }, 2_000_000_000),
        Err(AirdropError::InvalidClaimAddress)
    );
    assert_eq!(w.ledger.balance(&w.holding), 10_000_000_000);
    assert_eq!(w.ledger.claim(&claim.user_claim), None);
    assert_eq!(claim_tokens(&mut w.ledger, &claim, 2_000_000_000), Ok(()));
}

#[test]
fn transfer_failures_abort_the_request() {
    let mut w = world(1_000);
    let good = w.funding();
    assert_eq!(
        initialize_pool(&mut w.ledger, &good, 1_001),
        Err(AirdropError::Transfer(TransferError::InsufficientFunds))
    );
    assert_eq!(
        initialize_pool(&mut w.ledger, &InitializePool { from: address(9), ..good }, 1),
        Err(AirdropError::Transfer(TransferError::AccountNotFound))
    );
    assert_eq!(
        initialize_pool(&mut w.ledger, &InitializePool { authority: address(9), ..good }, 1),
        Err(AirdropError::Transfer(TransferError::OwnerMismatch))
    );
    assert_eq!(
        initialize_pool(&mut w.ledger, &InitializePool { from: w.holding, ..good }, 1),
        Err(AirdropError::Transfer(TransferError::SameAccount))
    );
    let foreign = address(8);
    assert!(w.ledger.open_token_account(foreign, TokenAccount::new(address(99), w.admin, 50)));
    assert_eq!(
        initialize_pool(&mut w.ledger, &InitializePool { from: foreign, ..good }, 1),
        Err(AirdropError::Transfer(TransferError::MintMismatch))
    );
    assert_eq!(w.ledger.pool(&w.pool), None);
    assert_eq!(w.ledger.token_account(&w.holding), None);
    assert_eq!(w.ledger.balance(&w.source), 1_000);

    let mut w = funded(3_000_000_000);
    let (user, wallet) = (address(10), address(11));
    let claim = w.claim_of(user, wallet);
    assert_eq!(
        claim_tokens(&mut w.ledger, &claim, 2_000_000_000),
        Err(AirdropError::Transfer(TransferError::AccountNotFound))
    );
    w.open_wallet(wallet, user, u64::MAX - 1_999_999_999);
    assert_eq!(
        claim_tokens(&mut w.ledger, &claim, 2_000_000_000),
        Err(AirdropError::Transfer(TransferError::Overflow))
    );
    assert_eq!(
        claim_tokens(&mut w.ledger, &claim, 3_000_000_001),
        Err(AirdropError::Transfer(TransferError::InsufficientFunds))
    );
    assert_eq!(
        claim_tokens(&mut w.ledger, &ClaimTokens { user_token_account: w.holding, ..claim }, 2_000_000_000),
        Err(AirdropError::Transfer(TransferError::SameAccount))
    );
    assert_eq!(w.ledger.claim(&claim.user_claim), None);
    assert_eq!(w.ledger.balance(&w.holding), 3_000_000_000);
    assert_eq!(claim_tokens(&mut w.ledger, &claim, 1_999_999_999), Ok(()));
    assert_eq!(w.ledger.balance(&wallet), u64::MAX);
}

#[test]
fn existing_holding_account_is_verified() {
    let mut w = world(1_000);
    let good = w.funding();
    assert!(w.ledger.open_token_account(w.holding, TokenAccount::new(w.mint, address(9), 7)));
    assert_eq!(
        initialize_pool(&mut w.ledger, &good, 10),
        Err(AirdropError::Custom(CustomError::InvalidPoolTokenAccount))
    );
    assert!(!w.ledger.open_token_account(w.holding, TokenAccount::new(w.mint, w.pool, 7)));
    assert_eq!(w.ledger.token_account(&w.holding), Some(TokenAccount::new(w.mint, address(9), 7)));

    let mut w = world(1_000);
    assert!(w.ledger.open_token_account(w.holding, TokenAccount::new(address(99), w.pool, 7)));
    assert_eq!(
        initialize_pool(&mut w.ledger, &good, 10),
        Err(AirdropError::Custom(CustomError::InvalidPoolTokenAccount))
    );

    let mut w = world(1_000);
    assert!(w.ledger.open_token_account(w.holding, TokenAccount::new(w.mint, w.pool, 7)));
    assert_eq!(initialize_pool(&mut w.ledger, &good, 10), Ok(()));
    assert_eq!(w.ledger.balance(&w.holding), 17);
    assert_eq!(w.ledger.balance(&w.source), 990);
}

#[test]
fn pools_of_different_mints_are_independent() {
    let mut w = funded(5_000_000_000);
    let program = w.ledger.program_id();
    let (mint2, admin2, source2) = (address(42), address(43), address(44));
    let (pool2, _) = find_pool_address(&program, &mint2).unwrap();
    let (holding2, _) = find_holding_address(&program, &pool2, &mint2).unwrap();
    assert_ne!(pool2, w.pool);
    assert!(w.ledger.open_token_account(source2, TokenAccount::new(mint2, admin2, 9_000_000_000)));
    let second = InitializePool {
        authority: admin2,
        pool_authority: pool2,
        from: source2,
        pool_token_account: holding2,
        mint: mint2,
    };
    assert_eq!(
        process(&mut w.ledger, &Request::InitializePool { pool: second, amount: 9_000_000_000 }),
        Ok(())
    );
    let (user, wallet1, wallet2) = (address(10), address(11), address(12));
    w.open_wallet(wallet1, user, 0);
    assert!(w.ledger.open_token_account(wallet2, TokenAccount::new(mint2, user, 0)));
    let claim1 = w.claim_of(user, wallet1);
    let (record2, _) = find_claim_address(&program, &user, &pool2).unwrap();
    let claim2 = ClaimTokens {
        pool_authority: pool2,
        user_token_account: wallet2,
        user,
        pool_token_account: holding2,
        user_claim: record2,
        mint: mint2,
    };
    assert_eq!(
        process(&mut w.ledger, &Request::ClaimTokens { claim: claim1, amount: 2_000_000_000 }),
        Ok(())
    );
    assert_eq!(
        process(&mut w.ledger, &Request::ClaimTokens { claim: claim2, amount: 4_000_000_000 }),
        Ok(())
    );
    assert_eq!(
        process(&mut w.ledger, &Request::ClaimTokens { claim: claim2, amount: 4_000_000_000 }),
        Err(AirdropError::Custom(CustomError::AlreadyClaimed))
    );
    assert_eq!(
        claim_tokens(&mut w.ledger, &ClaimTokens { user_token_account: wallet1, ..claim2 }, 4_000_000_000),
        Err(AirdropError::Custom(CustomError::AlreadyClaimed))
    );
    assert_eq!(w.ledger.balance(&w.holding), 3_000_000_000);
    assert_eq!(w.ledger.balance(&holding2), 5_000_000_000);
    assert_eq!(w.ledger.balance(&wallet1), 2_000_000_000);
    assert_eq!(w.ledger.balance(&wallet2), 4_000_000_000);
}
