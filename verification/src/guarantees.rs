//! What holds of every ledger, every request and every sequence of requests.

use crate::address::{derives_to, lemma_address_view_injective, program_address, Address};
use crate::errors::{AirdropError, CustomError};
use crate::model::{LedgerState, Request};
use crate::state::{
    AirdropPool, ClaimState, ClaimTokens, InitializePool, UserClaim, MIN_CLAIM_AMOUNT,
};
use vstd::prelude::*;

verus! {

/// The account a request takes funds from.
pub open spec fn source_of(request: Request) -> Address {
    match request {
        Request::InitializePool { pool, amount } => pool.from,
        Request::ClaimTokens { claim, amount } => claim.pool_token_account,
    }
}

/// The account a request pays into.
pub open spec fn destination_of(request: Request) -> Address {
    match request {
        Request::InitializePool { pool, amount } => pool.pool_token_account,
        Request::ClaimTokens { claim, amount } => claim.user_token_account,
    }
}

/// The units a request asks to move.
pub open spec fn amount_of(request: Request) -> u64 {
    match request {
        Request::InitializePool { pool, amount } => amount,
        Request::ClaimTokens { claim, amount } => amount,
    }
}

/// The units that the requests which succeeded paid into `account`.
pub open spec fn credited(start: LedgerState, requests: Seq<Request>, account: Address) -> int
    decreases requests.len(),
{
    if requests.len() == 0 {
        0
    } else {
        let before = start.after_all(requests.drop_last());
        credited(start, requests.drop_last(), account) + if before.step(requests.last()) is Ok
            && destination_of(requests.last()) == account {
            amount_of(requests.last()) as int
        } else {
            0
        }
    }
}

/// The units that the requests which succeeded took out of `account`.
pub open spec fn debited(start: LedgerState, requests: Seq<Request>, account: Address) -> int
    decreases requests.len(),
{
    if requests.len() == 0 {
        0
    } else {
        let before = start.after_all(requests.drop_last());
        debited(start, requests.drop_last(), account) + if before.step(requests.last()) is Ok
            && source_of(requests.last()) == account {
            amount_of(requests.last()) as int
        } else {
            0
        }
    }
}

/// Whether the claim record at `address` is marked as spent.
pub open spec fn is_claimed(ledger: LedgerState, address: Address) -> bool {
    UserClaim::state_of(ledger.claim(address)) == ClaimState::Claimed
}

/// Whether the mint has a pool: a pool is stored at the address it derives.
pub open spec fn has_pool(ledger: LedgerState, mint: Address) -> bool {
    exists|pool: Address| #[trigger]
        ledger.pools.contains_key(pool) && derives_to(ledger.derived_pool(mint), pool)
}

/// Every pool sits at the address its mint derives, and every claim record
/// at the address its user and pool derive.
pub open spec fn consistent(ledger: LedgerState) -> bool {
    &&& forall|pool: Address| #[trigger]
        ledger.pools.contains_key(pool) ==> derives_to(
            ledger.derived_pool(ledger.pools[pool].mint),
            pool,
        )
    &&& forall|claim: Address| #[trigger]
        ledger.claims.contains_key(claim) ==> derives_to(
            ledger.derived_claim(ledger.claims[claim].user, ledger.claims[claim].pool),
            claim,
        )
}

/// Deriving twice from the same seeds and program gives the same address and
/// the same bump.
pub proof fn lemma_derivation_is_deterministic(
    seeds: Seq<Seq<u8>>,
    program_id: Seq<u8>,
    again_seeds: Seq<Seq<u8>>,
    again_program_id: Seq<u8>,
)
    requires
        seeds == again_seeds,
        program_id == again_program_id,
    ensures
        program_address(seeds, program_id) == program_address(again_seeds, again_program_id),
{
}

/// Two addresses that one derivation names are one address.
pub proof fn lemma_one_address_per_derivation(
    derived: Option<(Seq<u8>, u8)>,
    first: Address,
    second: Address,
)
    requires
        derives_to(derived, first),
        derives_to(derived, second),
    ensures
        first == second,
{
    lemma_address_view_injective(first, second);
}

/// A request never changes the program, removes a pool or alters one, and
/// never removes a token account.
pub proof fn lemma_step_keeps_what_exists(ledger: LedgerState, request: Request)
    ensures
        ledger.after(request).program_id == ledger.program_id,
        forall|pool: Address| #[trigger]
            ledger.pools.contains_key(pool) ==> ledger.after(request).pools.contains_key(pool)
                && ledger.after(request).pools[pool] == ledger.pools[pool],
        forall|account: Address| #[trigger]
            ledger.tokens.contains_key(account) ==> ledger.after(request).tokens.contains_key(
                account,
            ),
        forall|claim: Address| #[trigger]
            ledger.claims.contains_key(claim) ==> ledger.after(request).claims.contains_key(claim),
{
}

/// A spent claim stays spent, whatever request follows.
pub proof fn lemma_claimed_is_terminal(ledger: LedgerState, request: Request, claim: Address)
    requires
        is_claimed(ledger, claim),
    ensures
        is_claimed(ledger.after(request), claim),
{
}

/// A spent claim stays spent through any sequence of requests.
pub proof fn lemma_claimed_stays_claimed(
    ledger: LedgerState,
    requests: Seq<Request>,
    claim: Address,
)
    requires
        is_claimed(ledger, claim),
    ensures
        is_claimed(ledger.after_all(requests), claim),
    decreases requests.len(),
{
    if requests.len() > 0 {
        lemma_claimed_stays_claimed(ledger, requests.drop_last(), claim);
        lemma_claimed_is_terminal(ledger.after_all(requests.drop_last()), requests.last(), claim);
    }
}

/// A pool, once created, is there after any sequence of requests, and the
/// program stays the same.
pub proof fn lemma_pool_stays(ledger: LedgerState, requests: Seq<Request>, mint: Address)
    ensures
        ledger.after_all(requests).program_id == ledger.program_id,
        has_pool(ledger, mint) ==> has_pool(ledger.after_all(requests), mint),
    decreases requests.len(),
{
    if requests.len() > 0 {
        let before = ledger.after_all(requests.drop_last());
        lemma_pool_stays(ledger, requests.drop_last(), mint);
        lemma_step_keeps_what_exists(before, requests.last());
        if has_pool(ledger, mint) {
            let pool = choose|pool: Address| #[trigger]
                before.pools.contains_key(pool) && derives_to(before.derived_pool(mint), pool);
            assert(before.after(requests.last()).pools.contains_key(pool));
        }
    }
}

/// Funding creates the pool of its mint, with the administrator as authority,
/// and raises the balance of the holding account by exactly the amount.
pub proof fn lemma_funding_creates_the_pool(
    ledger: LedgerState,
    accounts: InitializePool,
    amount: u64,
)
    requires
        ledger.initialize_pool(accounts, amount) is Ok,
    ensures
        !has_pool(ledger, accounts.mint),
        has_pool(ledger.initialize_pool(accounts, amount)->Ok_0, accounts.mint),
        ledger.initialize_pool(accounts, amount)->Ok_0.pool(accounts.pool_authority) == Some(
            AirdropPool { authority: accounts.authority, mint: accounts.mint },
        ),
        ledger.initialize_pool(accounts, amount)->Ok_0.balance(accounts.pool_token_account)
            == ledger.balance(accounts.pool_token_account) + amount,
        ledger.initialize_pool(accounts, amount)->Ok_0.balance(accounts.from) == ledger.balance(
            accounts.from,
        ) - amount,
{
    let funded = ledger.initialize_pool(accounts, amount)->Ok_0;
    assert(funded.pools.contains_key(accounts.pool_authority));
    if has_pool(ledger, accounts.mint) {
        let pool = choose|pool: Address| #[trigger]
            ledger.pools.contains_key(pool) && derives_to(ledger.derived_pool(accounts.mint), pool);
        lemma_one_address_per_derivation(
            ledger.derived_pool(accounts.mint),
            pool,
            accounts.pool_authority,
        );
    }
}

/// A mint that has its pool cannot be funded again, whoever asks and
/// whatever accounts are referenced.
pub proof fn lemma_funded_mint_is_refused(
    ledger: LedgerState,
    accounts: InitializePool,
    amount: u64,
)
    requires
        has_pool(ledger, accounts.mint),
    ensures
        ledger.initialize_pool(accounts, amount) is Err,
        ledger.initialize_pool_refusal(accounts) is Some,
        derives_to(ledger.derived_pool(accounts.mint), accounts.pool_authority) && derives_to(
            ledger.derived_holding(accounts.pool_authority, accounts.mint),
            accounts.pool_token_account,
        ) ==> ledger.initialize_pool(accounts, amount) == Err::<LedgerState, AirdropError>(
            AirdropError::PoolAlreadyExists,
        ),
{
    let pool = choose|pool: Address| #[trigger]
        ledger.pools.contains_key(pool) && derives_to(ledger.derived_pool(accounts.mint), pool);
    if derives_to(ledger.derived_pool(accounts.mint), accounts.pool_authority) {
        lemma_one_address_per_derivation(
            ledger.derived_pool(accounts.mint),
            pool,
            accounts.pool_authority,
        );
    }
}

/// For one mint, funding succeeds at most once: after a funding that
/// succeeded, and any requests since, every funding of the same mint is
/// rejected and leaves the ledger, balances included, as it was.
pub proof fn lemma_single_funding(
    ledger: LedgerState,
    first: InitializePool,
    first_amount: u64,
    since: Seq<Request>,
    second: InitializePool,
    second_amount: u64,
)
    requires
        ledger.initialize_pool(first, first_amount) is Ok,
        second.mint == first.mint,
    ensures
        ({
            let later = ledger.initialize_pool(first, first_amount)->Ok_0.after_all(since);
            &&& later.initialize_pool(second, second_amount) is Err
            &&& later.after(Request::InitializePool { pool: second, amount: second_amount })
                == later
        }),
{
    let funded = ledger.initialize_pool(first, first_amount)->Ok_0;
    lemma_funding_creates_the_pool(ledger, first, first_amount);
    lemma_pool_stays(funded, since, first.mint);
    lemma_funded_mint_is_refused(funded.after_all(since), second, second_amount);
}

/// A claim that succeeds marks the record as spent, debits the holding
/// account by exactly the amount and credits the recipient's account by
/// exactly the amount; no other balance moves.
pub proof fn lemma_claim_pays_exactly(ledger: LedgerState, accounts: ClaimTokens, amount: u64)
    requires
        ledger.claim_tokens(accounts, amount) is Ok,
    ensures
        amount > MIN_CLAIM_AMOUNT,
        !is_claimed(ledger, accounts.user_claim),
        has_pool(ledger, accounts.mint),
        ({
            let paid = ledger.claim_tokens(accounts, amount)->Ok_0;
            &&& paid.claim(accounts.user_claim) == Some(
                UserClaim { user: accounts.user, pool: accounts.pool_authority, has_claimed: true },
            )
            &&& paid.balance(accounts.pool_token_account) == ledger.balance(
                accounts.pool_token_account,
            ) - amount
            &&& paid.balance(accounts.user_token_account) == ledger.balance(
                accounts.user_token_account,
            ) + amount
            &&& forall|other: Address|
                other != accounts.pool_token_account && other != accounts.user_token_account
                    ==> #[trigger] paid.balance(other) == ledger.balance(other)
            &&& paid.pools == ledger.pools
        }),
{
    assert(ledger.pools.contains_key(accounts.pool_authority));
}

/// A claim on a spent record moves nothing: it is rejected, with
/// `AlreadyClaimed` where its accounts pass the address checks.
pub proof fn lemma_spent_claim_is_refused(ledger: LedgerState, accounts: ClaimTokens, amount: u64)
    requires
        is_claimed(ledger, accounts.user_claim),
    ensures
        ledger.claim_tokens(accounts, amount) is Err,
        ledger.claim_tokens_refusal(accounts) is None ==> ledger.claim_tokens(accounts, amount)
            == Err::<LedgerState, AirdropError>(
            AirdropError::Custom(CustomError::AlreadyClaimed),
        ),
{
}

/// For one user and one pool at most one claim pays: after a claim that
/// succeeded, and any requests since, every claim by the same user on the
/// same pool, or on the same record, is rejected and leaves the ledger,
/// balances included, as it was. Where the later claim refers to the same
/// record, pool, holding account and mint, the rejection is `AlreadyClaimed`.
pub proof fn lemma_at_most_one_claim(
    ledger: LedgerState,
    first: ClaimTokens,
    first_amount: u64,
    since: Seq<Request>,
    second: ClaimTokens,
    second_amount: u64,
)
    requires
        ledger.claim_tokens(first, first_amount) is Ok,
        second.user_claim == first.user_claim || (second.user == first.user
            && second.pool_authority == first.pool_authority),
    ensures
        ({
            let later = ledger.claim_tokens(first, first_amount)->Ok_0.after_all(since);
            &&& later.claim_tokens(second, second_amount) is Err
            &&& later.after(Request::ClaimTokens { claim: second, amount: second_amount })
                == later
            &&& second.user_claim == first.user_claim && second.user == first.user
                && second.pool_authority == first.pool_authority && second.pool_token_account
                == first.pool_token_account && second.mint == first.mint
                ==> later.claim_tokens(second, second_amount) == Err::<
                LedgerState,
                AirdropError,
            >(AirdropError::Custom(CustomError::AlreadyClaimed))
        }),
{
    let paid = ledger.claim_tokens(first, first_amount)->Ok_0;
    let later = paid.after_all(since);
    lemma_claim_pays_exactly(ledger, first, first_amount);
    lemma_claimed_stays_claimed(paid, since, first.user_claim);
    lemma_pool_stays(paid, since, first.mint);
    lemma_pools_stay(paid, since, first.pool_authority);
    if second.user_claim == first.user_claim {
        lemma_spent_claim_is_refused(later, second, second_amount);
    } else if derives_to(
        later.derived_claim(second.user, second.pool_authority),
        second.user_claim,
    ) {
        lemma_one_address_per_derivation(
            later.derived_claim(first.user, first.pool_authority),
            first.user_claim,
            second.user_claim,
        );
    }
}

/// A pool stored at an address is stored there after any sequence of requests.
pub proof fn lemma_pools_stay(ledger: LedgerState, requests: Seq<Request>, pool: Address)
    requires
        ledger.pools.contains_key(pool),
    ensures
        ledger.after_all(requests).pools.contains_key(pool),
        ledger.after_all(requests).pools[pool] == ledger.pools[pool],
    decreases requests.len(),
{
    if requests.len() > 0 {
        lemma_pools_stay(ledger, requests.drop_last(), pool);
        lemma_step_keeps_what_exists(ledger.after_all(requests.drop_last()), requests.last());
    }
}

/// A claim of no more than the minimum never succeeds and changes nothing.
/// It is rejected with `InvalidAmount` unless an earlier check rejects it:
/// the address checks, the pool's existence, or a record already spent.
pub proof fn lemma_threshold_is_enforced(ledger: LedgerState, accounts: ClaimTokens, amount: u64)
    requires
        amount <= MIN_CLAIM_AMOUNT,
    ensures
        ledger.claim_tokens(accounts, amount) is Err,
        ledger.after(Request::ClaimTokens { claim: accounts, amount }) == ledger,
        ledger.claim_tokens_refusal(accounts) is None && !is_claimed(ledger, accounts.user_claim)
            ==> ledger.claim_tokens(accounts, amount) == Err::<LedgerState, AirdropError>(
            AirdropError::Custom(CustomError::InvalidAmount),
        ),
{
}

/// One request changes the balance of an account by what it pays in less
/// what it takes out, and a rejected request changes no balance.
pub proof fn lemma_step_conserves(ledger: LedgerState, request: Request, account: Address)
    ensures
        ledger.after(request).balance(account) == ledger.balance(account) + credited(
            ledger,
            seq![request],
            account,
        ) - debited(ledger, seq![request], account),
        ledger.step(request) is Err ==> ledger.after(request) == ledger,
        ledger.step(request) is Ok ==> source_of(request) != destination_of(request),
{
    let one = seq![request];
    assert(one.drop_last() =~= Seq::<Request>::empty());
    assert(one.last() == request);
    assert(ledger.after_all(one.drop_last()) == ledger);
    assert(credited(ledger, one.drop_last(), account) == 0);
    assert(debited(ledger, one.drop_last(), account) == 0);
}

/// Conservation: after any sequence of requests, an account holds what it
/// held before, plus what the successful requests paid into it, less what
/// they took out of it.
pub proof fn lemma_balances_are_conserved(
    ledger: LedgerState,
    requests: Seq<Request>,
    account: Address,
)
    ensures
        ledger.after_all(requests).balance(account) == ledger.balance(account) + credited(
            ledger,
            requests,
            account,
        ) - debited(ledger, requests, account),
    decreases requests.len(),
{
    if requests.len() > 0 {
        let before = ledger.after_all(requests.drop_last());
        lemma_balances_are_conserved(ledger, requests.drop_last(), account);
        lemma_step_conserves(before, requests.last(), account);
        let one = seq![requests.last()];
        assert(one.drop_last() =~= Seq::<Request>::empty());
        assert(before.after_all(one.drop_last()) == before);
        assert(credited(before, one.drop_last(), account) == 0);
        assert(debited(before, one.drop_last(), account) == 0);
    }
}

/// Two claims on one record that would each succeed alone: whichever is
/// handled first succeeds, the other is then rejected with `AlreadyClaimed`
/// where it refers to the same pool, and the holding account is debited
/// once, by the amount of the first.
pub proof fn lemma_race_has_one_winner(
    ledger: LedgerState,
    one: ClaimTokens,
    one_amount: u64,
    other: ClaimTokens,
    other_amount: u64,
)
    requires
        ledger.claim_tokens(one, one_amount) is Ok,
        ledger.claim_tokens(other, other_amount) is Ok,
        one.user_claim == other.user_claim,
        one.pool_token_account == other.pool_token_account,
    ensures
        ({
            let first = Request::ClaimTokens { claim: one, amount: one_amount };
            let second = Request::ClaimTokens { claim: other, amount: other_amount };
            &&& ledger.after(first).step(second) == Err::<LedgerState, AirdropError>(
                AirdropError::Custom(CustomError::AlreadyClaimed),
            )
            &&& ledger.after(second).step(first) == Err::<LedgerState, AirdropError>(
                AirdropError::Custom(CustomError::AlreadyClaimed),
            )
            &&& ledger.after(first).after(second).balance(one.pool_token_account)
                == ledger.balance(one.pool_token_account) - one_amount
            &&& ledger.after(second).after(first).balance(one.pool_token_account)
                == ledger.balance(one.pool_token_account) - other_amount
        }),
{
    lemma_claim_pays_exactly(ledger, one, one_amount);
    lemma_claim_pays_exactly(ledger, other, other_amount);
    let after_one = ledger.claim_tokens(one, one_amount)->Ok_0;
    let after_other = ledger.claim_tokens(other, other_amount)->Ok_0;
    assert(after_one.claim_tokens_refusal(other) is None);
    assert(after_other.claim_tokens_refusal(one) is None);
    lemma_spent_claim_is_refused(after_one, other, other_amount);
    lemma_spent_claim_is_refused(after_other, one, one_amount);
}

/// The empty ledger is consistent, and every request keeps a ledger so.
pub proof fn lemma_consistency_is_kept(ledger: LedgerState, request: Request)
    requires
        consistent(ledger),
    ensures
        consistent(LedgerState::empty(ledger.program_id)),
        consistent(ledger.after(request)),
{
}

/// In a consistent ledger a mint has at most one pool.
pub proof fn lemma_one_pool_per_mint(ledger: LedgerState, first: Address, second: Address)
    requires
        consistent(ledger),
        ledger.pools.contains_key(first),
        ledger.pools.contains_key(second),
        ledger.pools[first].mint == ledger.pools[second].mint,
    ensures
        first == second,
{
    lemma_one_address_per_derivation(
        ledger.derived_pool(ledger.pools[first].mint),
        first,
        second,
    );
}

} // verus!
