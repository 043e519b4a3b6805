use lumifi::{
    swap_amount, AuthContext, DataKey, Ico, LumiFi, LumiFiError, Token, Transfer, FIXED_ICO_ID,
};

const CONTRACT: u64 = 1;
const ALICE: u64 = 10;
const BOB: u64 = 11;
const ASSET: u64 = 500;
const POOL: u64 = 77;

fn signed_by(accounts: &[u64]) -> AuthContext {
    AuthContext::new(accounts.to_vec())
}

fn nobody() -> AuthContext {
    AuthContext::new(Vec::new())
}

#[test]
fn token_new_gives_owner_whole_supply() {
    let t = Token::new(ALICE, 250);
    assert_eq!(t.owner, ALICE);
    assert_eq!(t.total_supply, 250);
    assert_eq!(t.balance(ALICE), 250);
    assert_eq!(t.balance(BOB), 0);
    assert_eq!(t.balances.len(), 1);
}

#[test]
fn require_auth_checks_signers() {
    let a = signed_by(&[ALICE, BOB]);
    assert!(a.require_auth(ALICE));
    assert!(a.require_auth(BOB));
    assert!(!a.require_auth(CONTRACT));
    assert!(!nobody().require_auth(ALICE));
}

#[test]
fn create_token_records_supply_with_owner() {
    let mut l = LumiFi::new(CONTRACT);
    assert_eq!(l.create_token(&signed_by(&[ALICE]), ALICE, 1000), Ok(ALICE));
    let t = l.token(ALICE).unwrap();
    assert_eq!(t.total_supply, 1000);
    assert_eq!(t.balance(ALICE), 1000);
    assert!(l.contains(&DataKey::Token(ALICE)));
}

#[test]
fn create_token_with_zero_supply() {
    let mut l = LumiFi::new(CONTRACT);
    assert_eq!(l.create_token(&signed_by(&[ALICE]), ALICE, 0), Ok(ALICE));
    assert_eq!(l.token(ALICE).unwrap().total_supply, 0);
    assert_eq!(l.token(ALICE).unwrap().balance(ALICE), 0);
}

#[test]
fn create_token_negative_supply_is_invalid() {
    let mut l = LumiFi::new(CONTRACT);
    assert_eq!(
        l.create_token(&signed_by(&[ALICE]), ALICE, -1),
        Err(LumiFiError::InvalidAmount)
    );
    assert!(l.token(ALICE).is_none());
    assert!(!l.contains(&DataKey::Token(ALICE)));
}

#[test]
fn create_token_needs_owner_signature() {
    let mut l = LumiFi::new(CONTRACT);
    assert_eq!(
        l.create_token(&signed_by(&[BOB]), ALICE, 5),
        Err(LumiFiError::Unauthorized)
    );
    assert!(l.token(ALICE).is_none());
}

#[test]
fn create_token_again_overwrites() {
    let mut l = LumiFi::new(CONTRACT);
    let a = signed_by(&[ALICE]);
    assert_eq!(l.create_token(&a, ALICE, 1000), Ok(ALICE));
    assert_eq!(l.mint(&a, ALICE, 5), Ok(()));
    assert_eq!(l.create_token(&a, ALICE, 3), Ok(ALICE));
    assert_eq!(l.token(ALICE).unwrap().total_supply, 3);
    assert_eq!(l.token(ALICE).unwrap().balance(ALICE), 3);
}

#[test]
fn mint_by_owner_adds_to_supply_and_balance() {
    let mut l = LumiFi::new(CONTRACT);
    let a = signed_by(&[ALICE]);
    l.create_token(&a, ALICE, 100).unwrap();
    assert_eq!(l.mint(&a, ALICE, 40), Ok(()));
    let t = l.token(ALICE).unwrap();
    assert_eq!(t.total_supply, 140);
    assert_eq!(t.balance(ALICE), 140);
}

#[test]
fn mint_negative_amount_burns() {
    let mut l = LumiFi::new(CONTRACT);
    let a = signed_by(&[ALICE]);
    l.create_token(&a, ALICE, 100).unwrap();
    assert_eq!(l.mint(&a, ALICE, -30), Ok(()));
    let t = l.token(ALICE).unwrap();
    assert_eq!(t.total_supply, 70);
    assert_eq!(t.balance(ALICE), 70);
}

#[test]
fn mint_by_non_owner_is_unauthorized() {
    let mut l = LumiFi::new(CONTRACT);
    l.create_token(&signed_by(&[ALICE]), ALICE, 100).unwrap();
    assert_eq!(l.mint(&signed_by(&[BOB]), ALICE, 40), Err(LumiFiError::Unauthorized));
    assert_eq!(l.token(ALICE).unwrap().total_supply, 100);
}

#[test]
fn mint_unknown_token_is_not_found() {
    let mut l = LumiFi::new(CONTRACT);
    assert_eq!(l.mint(&signed_by(&[ALICE]), ALICE, 1), Err(LumiFiError::TokenNotFound));
}

#[test]
fn mint_up_to_largest_supply() {
    let mut l = LumiFi::new(CONTRACT);
    let a = signed_by(&[ALICE]);
    l.create_token(&a, ALICE, i128::MAX - 1).unwrap();
    assert_eq!(l.mint(&a, ALICE, 1), Ok(()));
    assert_eq!(l.token(ALICE).unwrap().total_supply, i128::MAX);
}

#[test]
fn start_ico_uses_fixed_identifier() {
    let mut l = LumiFi::new(CONTRACT);
    assert_eq!(l.start_ico(ASSET, 5000, 100), Ok(FIXED_ICO_ID));
    assert_eq!(l.start_ico(ASSET + 1, 7000, 200), Ok(FIXED_ICO_ID));
    assert_eq!(
        l.ico(FIXED_ICO_ID),
        Some(Ico { token: ASSET + 1, target_amount: 7000, deadline: 200 })
    );
    assert!(l.contains(&DataKey::ICO(FIXED_ICO_ID)));
}

#[test]
fn start_ico_with_id_keeps_sales_apart() {
    let mut l = LumiFi::new(CONTRACT);
    assert_eq!(l.start_ico_with_id(3, ASSET, 5000, 100), Ok(3));
    assert_eq!(l.start_ico_with_id(4, ASSET, 6000, 200), Ok(4));
    assert_eq!(l.ico(3).unwrap().target_amount, 5000);
    assert_eq!(l.ico(4).unwrap().target_amount, 6000);
    assert!(l.ico(5).is_none());
}

#[test]
fn buy_before_deadline_records_contribution_and_one_transfer() {
    let mut l = LumiFi::new(CONTRACT);
    let id = l.start_ico(ASSET, 5000, 100).unwrap();
    let r = l.buy_token(&signed_by(&[BOB]), 50, id, BOB, 300);
    assert_eq!(r, Ok(Transfer { token: ASSET, from: BOB, to: CONTRACT, amount: 300 }));
    assert_eq!(l.contribution(BOB), 300);
    assert!(l.contains(&DataKey::User(BOB)));
    assert_eq!(l.buy_token(&signed_by(&[BOB]), 60, id, BOB, 20).unwrap().amount, 20);
    assert_eq!(l.contribution(BOB), 320);
}

#[test]
fn buy_at_deadline_is_accepted() {
    let mut l = LumiFi::new(CONTRACT);
    let id = l.start_ico(ASSET, 5000, 100).unwrap();
    assert!(l.buy_token(&signed_by(&[BOB]), 100, id, BOB, 1).is_ok());
    assert_eq!(l.contribution(BOB), 1);
}

#[test]
fn buy_after_deadline_is_expired() {
    let mut l = LumiFi::new(CONTRACT);
    let id = l.start_ico(ASSET, 5000, 100).unwrap();
    l.buy_token(&signed_by(&[BOB]), 10, id, BOB, 7).unwrap();
    assert_eq!(
        l.buy_token(&signed_by(&[BOB]), 101, id, BOB, 300),
        Err(LumiFiError::ICOExpired)
    );
    assert_eq!(l.contribution(BOB), 7);
}

#[test]
fn buy_unknown_sale_is_not_found() {
    let mut l = LumiFi::new(CONTRACT);
    assert_eq!(
        l.buy_token(&signed_by(&[BOB]), 0, 9, BOB, 5),
        Err(LumiFiError::ICONotFound)
    );
    assert_eq!(l.contribution(BOB), 0);
}

#[test]
fn buy_non_positive_amount_is_invalid() {
    let mut l = LumiFi::new(CONTRACT);
    let id = l.start_ico(ASSET, 5000, 100).unwrap();
    assert_eq!(l.buy_token(&signed_by(&[BOB]), 0, id, BOB, 0), Err(LumiFiError::InvalidAmount));
    assert_eq!(l.buy_token(&signed_by(&[BOB]), 0, id, BOB, -4), Err(LumiFiError::InvalidAmount));
    assert_eq!(l.contribution(BOB), 0);
}

#[test]
fn buy_needs_buyer_signature() {
    let mut l = LumiFi::new(CONTRACT);
    let id = l.start_ico(ASSET, 5000, 100).unwrap();
    assert_eq!(l.buy_token(&signed_by(&[ALICE]), 0, id, BOB, 5), Err(LumiFiError::Unauthorized));
    assert_eq!(l.contribution(BOB), 0);
}

#[test]
fn contributions_accumulate_across_sales() {
    let mut l = LumiFi::new(CONTRACT);
    let b = signed_by(&[BOB]);
    l.start_ico_with_id(1, ASSET, 100, 50).unwrap();
    l.start_ico_with_id(2, ASSET + 1, 100, 50).unwrap();
    l.buy_token(&b, 0, 1, BOB, 10).unwrap();
    l.buy_token(&b, 0, 2, BOB, 15).unwrap();
    assert_eq!(l.contribution(BOB), 25);
}

#[test]
fn withdraw_more_than_held_is_insufficient() {
    let l = LumiFi::new(CONTRACT);
    assert_eq!(
        l.withdraw(&signed_by(&[ALICE]), 100, ASSET, ALICE, 101),
        Err(LumiFiError::InsufficientFunds)
    );
}

#[test]
fn withdraw_whole_balance_empties_contract() {
    let l = LumiFi::new(CONTRACT);
    let held: i128 = 100;
    let t = l.withdraw(&signed_by(&[ALICE]), held, ASSET, ALICE, held).unwrap();
    assert_eq!(t, Transfer { token: ASSET, from: CONTRACT, to: ALICE, amount: 100 });
    assert_eq!(held - t.amount, 0);
}

#[test]
fn withdraw_needs_recipient_signature() {
    let l = LumiFi::new(CONTRACT);
    assert_eq!(
        l.withdraw(&signed_by(&[BOB]), 100, ASSET, ALICE, 5),
        Err(LumiFiError::Unauthorized)
    );
}

#[test]
fn add_liquidity_opens_and_grows_pool() {
    let mut l = LumiFi::new(CONTRACT);
    let a = signed_by(&[ALICE]);
    assert!(l.pool(POOL).is_none());
    assert_eq!(l.add_liquidity(&a, POOL, ALICE, 1000, 500), Ok(()));
    assert_eq!(l.pool(POOL), Some((1000, 500)));
    assert!(l.contains(&DataKey::LiquidityPool(POOL)));
}

#[test]
fn add_liquidity_is_additive() {
    let mut once = LumiFi::new(CONTRACT);
    let mut twice = LumiFi::new(CONTRACT);
    let mut swapped = LumiFi::new(CONTRACT);
    let a = signed_by(&[ALICE]);
    once.add_liquidity(&a, POOL, ALICE, 30 + 12, 7 + 9).unwrap();
    twice.add_liquidity(&a, POOL, ALICE, 30, 7).unwrap();
    twice.add_liquidity(&a, POOL, ALICE, 12, 9).unwrap();
    swapped.add_liquidity(&a, POOL, ALICE, 12, 9).unwrap();
    swapped.add_liquidity(&a, POOL, ALICE, 30, 7).unwrap();
    assert_eq!(once.pool(POOL), Some((42, 16)));
    assert_eq!(twice.pool(POOL), once.pool(POOL));
    assert_eq!(swapped.pool(POOL), once.pool(POOL));
}

#[test]
fn add_liquidity_non_positive_is_invalid() {
    let mut l = LumiFi::new(CONTRACT);
    let a = signed_by(&[ALICE]);
    assert_eq!(l.add_liquidity(&a, POOL, ALICE, 0, 5), Err(LumiFiError::InvalidAmount));
    assert_eq!(l.add_liquidity(&a, POOL, ALICE, 5, -1), Err(LumiFiError::InvalidAmount));
    assert!(l.pool(POOL).is_none());
}

#[test]
fn add_liquidity_needs_provider_signature() {
    let mut l = LumiFi::new(CONTRACT);
    assert_eq!(l.add_liquidity(&nobody(), POOL, ALICE, 5, 5), Err(LumiFiError::Unauthorized));
    assert!(l.pool(POOL).is_none());
}

#[test]
fn swap_scenario_thousand_each() {
    let mut l = LumiFi::new(CONTRACT);
    l.add_liquidity(&signed_by(&[ALICE]), POOL, ALICE, 1000, 1000).unwrap();
    assert_eq!(l.swap(POOL, 100), Ok(90));
    assert_eq!(l.pool(POOL), Some((910, 1100)));
}

#[test]
fn swap_unknown_pool_is_not_found() {
    let mut l = LumiFi::new(CONTRACT);
    assert_eq!(l.swap(POOL, 100), Err(LumiFiError::TokenNotFound));
}

#[test]
fn swap_zero_input_pays_nothing() {
    let mut l = LumiFi::new(CONTRACT);
    l.add_liquidity(&signed_by(&[ALICE]), POOL, ALICE, 1000, 1000).unwrap();
    assert_eq!(l.swap(POOL, 0), Ok(0));
    assert_eq!(l.pool(POOL), Some((1000, 1000)));
}

#[test]
fn swap_negative_input_is_invalid() {
    let mut l = LumiFi::new(CONTRACT);
    l.add_liquidity(&signed_by(&[ALICE]), POOL, ALICE, 1000, 1000).unwrap();
    assert_eq!(l.swap(POOL, -5), Err(LumiFiError::InvalidAmount));
    assert_eq!(l.pool(POOL), Some((1000, 1000)));
}

#[test]
fn swap_negative_input_with_output_above_reserve_is_insufficient() {
    let mut l = LumiFi::new(CONTRACT);
    l.add_liquidity(&signed_by(&[ALICE]), POOL, ALICE, 10, 5).unwrap();
    assert_eq!(l.swap(POOL, -6), Err(LumiFiError::InsufficientFunds));
    assert_eq!(l.swap(POOL, -15), Err(LumiFiError::InsufficientFunds));
    assert_eq!(l.pool(POOL), Some((10, 5)));
}

#[test]
fn swap_negative_input_with_output_at_reserve_is_invalid() {
    let mut l = LumiFi::new(CONTRACT);
    l.add_liquidity(&signed_by(&[ALICE]), POOL, ALICE, 1, 1).unwrap();
    assert_eq!(swap_amount(1, 1, -3), 1);
    assert_eq!(l.swap(POOL, -3), Err(LumiFiError::InvalidAmount));
    assert_eq!(l.pool(POOL), Some((1, 1)));
}

#[test]
fn swap_output_grows_with_input() {
    let mut last = 0;
    for x in 1..200 {
        let out = swap_amount(1000, 700, x);
        assert!(out >= last);
        last = out;
    }
}

#[test]
fn swap_amount_rounds_down() {
    assert_eq!(swap_amount(1000, 1000, 100), 90);
    assert_eq!(swap_amount(10, 0, 3), 10);
    assert_eq!(swap_amount(0, 50, 7), 0);
    assert_eq!(swap_amount(7, 2, 1), 2);
}

#[test]
fn swap_amount_rounds_toward_zero_on_negative_input() {
    assert_eq!(swap_amount(10, 5, -6), 60);
    assert_eq!(swap_amount(1000, 1000, -5), -5);
    assert_eq!(swap_amount(10, 5, -15), 15);
    assert_eq!(swap_amount(0, 5, -9), 0);
}

#[test]
fn repeated_swaps_keep_product_and_grow_reference() {
    let mut l = LumiFi::new(CONTRACT);
    l.add_liquidity(&signed_by(&[ALICE]), POOL, ALICE, 1000, 1000).unwrap();
    let mut product = 1000 * 1000;
    let mut reference = 1000;
    let mut tokens = 1000;
    for x in [100, 1, 37, 500, 3] {
        let out = l.swap(POOL, x).unwrap();
        assert!(0 <= out && out <= tokens);
        let (t, r) = l.pool(POOL).unwrap();
        assert_eq!(t, tokens - out);
        assert_eq!(r, reference + x);
        assert!(t * r >= product);
        assert!(t * r < product + r);
        product = t * r;
        reference = r;
        tokens = t;
    }
}

#[test]
fn swap_on_tiny_pool_rounds_to_nothing() {
    let mut l = LumiFi::new(CONTRACT);
    l.add_liquidity(&signed_by(&[ALICE]), POOL, ALICE, 1, 1).unwrap();
    assert_eq!(l.swap(POOL, 1), Ok(0));
    assert_eq!(l.swap(POOL, 1_000_000), Ok(0));
    assert_eq!(l.pool(POOL), Some((1, 1_000_002)));
}

#[test]
fn unused_error_kind_exists() {
    let e = LumiFiError::AlreadyInitialized;
    assert_ne!(e, LumiFiError::Unauthorized);
}
