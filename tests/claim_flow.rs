use claim::claim::{
    claim_token, initialize, set_enabled, update_user_amount, ClaimToken, Errors, Initialize,
    Ledger, SetEnabled, UpdateUserAmount,
};
use claim::key::Pubkey;
use claim::scale::scale_amount;
use claim::token::{init_token, InitToken, MINT_DECIMALS};

fn key(b: u8) -> Pubkey {
    Pubkey::new([b; 32])
}

fn authority() -> Pubkey {
    key(1)
}

fn ready_ledger() -> Ledger {
    let mut ledger = Ledger::new();
    initialize(&mut ledger, &Initialize { signer: authority() }).unwrap();
    ledger
}

fn set_amount(ledger: &mut Ledger, user: Pubkey, amount: u64) {
    update_user_amount(ledger, &UpdateUserAmount { signer: authority() }, user, amount).unwrap();
}

fn enable(ledger: &mut Ledger) {
    set_enabled(ledger, &SetEnabled { signer: authority() }, true).unwrap();
}

fn claim_ctx(user: Pubkey, decimals: u8) -> ClaimToken {
    ClaimToken { signer: user, authority: authority(), record_owner: user, mint_decimals: decimals }
}

#[test]
fn claim_of_three_pays_three_scaled_and_closes_record() {
    let x = key(7);
    let mut ledger = ready_ledger();
    set_amount(&mut ledger, x, 3);
    enable(&mut ledger);
    let payout = claim_token(&mut ledger, &claim_ctx(x, 5)).unwrap();
    assert_eq!(payout.amount, 300_000);
    assert_eq!(payout.recipient, x);
    assert_eq!(payout.rent_receiver, authority());
    assert_eq!(ledger.amount_of(&x), None);
    assert_eq!(ledger.record_count(), 0);
}

#[test]
fn reset_before_claim_pays_latest_amount() {
    let x = key(8);
    let mut ledger = ready_ledger();
    set_amount(&mut ledger, x, 5);
    set_amount(&mut ledger, x, 2);
    enable(&mut ledger);
    let payout = claim_token(&mut ledger, &claim_ctx(x, 5)).unwrap();
    assert_eq!(payout.amount, 200_000);
}

#[test]
fn second_claim_fails() {
    let x = key(9);
    let mut ledger = ready_ledger();
    set_amount(&mut ledger, x, 4);
    enable(&mut ledger);
    assert!(claim_token(&mut ledger, &claim_ctx(x, 2)).is_ok());
    assert_eq!(claim_token(&mut ledger, &claim_ctx(x, 2)).unwrap_err(), Errors::AccountNotInitialized);
}

#[test]
fn claim_leaves_other_users_records() {
    let x = key(10);
    let y = key(11);
    let mut ledger = ready_ledger();
    set_amount(&mut ledger, x, 4);
    set_amount(&mut ledger, y, 6);
    enable(&mut ledger);
    assert_eq!(claim_token(&mut ledger, &claim_ctx(x, 0)).unwrap().amount, 4);
    assert_eq!(ledger.amount_of(&y), Some(6));
    assert_eq!(ledger.record_count(), 1);
}

#[test]
fn update_twice_with_same_values_is_idempotent() {
    let x = key(12);
    let mut ledger = ready_ledger();
    set_amount(&mut ledger, x, 42);
    set_amount(&mut ledger, x, 42);
    assert_eq!(ledger.amount_of(&x), Some(42));
    assert_eq!(ledger.record_count(), 1);
}

#[test]
fn update_overwrites_without_accumulating() {
    let x = key(13);
    let mut ledger = ready_ledger();
    set_amount(&mut ledger, x, 100);
    set_amount(&mut ledger, x, 50);
    assert_eq!(ledger.amount_of(&x), Some(50));
}

#[test]
fn initialize_twice_fails_and_keeps_authority() {
    let mut ledger = ready_ledger();
    let second = initialize(&mut ledger, &Initialize { signer: key(2) });
    assert_eq!(second, Err(Errors::AlreadyInitialized));
    assert_eq!(ledger.global.authority, authority());
    assert!(ledger.global.initialized);
    assert!(!ledger.global.is_enabled);
}

#[test]
fn claim_while_disabled_fails() {
    let x = key(14);
    let mut ledger = ready_ledger();
    set_amount(&mut ledger, x, 3);
    assert_eq!(claim_token(&mut ledger, &claim_ctx(x, 5)).unwrap_err(), Errors::NotEnabled);
    assert_eq!(ledger.amount_of(&x), Some(3));
}

#[test]
fn claim_of_zero_fails() {
    let x = key(15);
    let mut ledger = ready_ledger();
    set_amount(&mut ledger, x, 0);
    enable(&mut ledger);
    assert_eq!(claim_token(&mut ledger, &claim_ctx(x, 5)).unwrap_err(), Errors::NotSufficientAmount);
    assert_eq!(ledger.amount_of(&x), Some(0));
}

#[test]
fn operations_before_initialize_fail() {
    let mut ledger = Ledger::new();
    let x = key(16);
    assert_eq!(
        set_enabled(&mut ledger, &SetEnabled { signer: authority() }, true),
        Err(Errors::NotInitialized)
    );
    assert_eq!(
        update_user_amount(&mut ledger, &UpdateUserAmount { signer: authority() }, x, 1),
        Err(Errors::NotInitialized)
    );
    assert_eq!(claim_token(&mut ledger, &claim_ctx(x, 5)).unwrap_err(), Errors::NotInitialized);
}

#[test]
fn non_authority_cannot_configure() {
    let mut ledger = ready_ledger();
    let x = key(17);
    assert_eq!(set_enabled(&mut ledger, &SetEnabled { signer: x }, true), Err(Errors::NotAuthorized));
    assert!(!ledger.global.is_enabled);
    assert_eq!(
        update_user_amount(&mut ledger, &UpdateUserAmount { signer: x }, x, 9),
        Err(Errors::NotAuthorized)
    );
    assert_eq!(ledger.amount_of(&x), None);
}

#[test]
fn claim_with_wrong_authority_fails() {
    let x = key(18);
    let mut ledger = ready_ledger();
    set_amount(&mut ledger, x, 3);
    enable(&mut ledger);
    let ctx = ClaimToken { signer: x, authority: key(3), record_owner: x, mint_decimals: 5 };
    assert_eq!(claim_token(&mut ledger, &ctx).unwrap_err(), Errors::NotAuthorized);
}

#[test]
fn claim_of_another_users_record_fails() {
    let x = key(19);
    let y = key(20);
    let mut ledger = ready_ledger();
    set_amount(&mut ledger, x, 3);
    enable(&mut ledger);
    let ctx = ClaimToken { signer: y, authority: authority(), record_owner: x, mint_decimals: 5 };
    assert_eq!(claim_token(&mut ledger, &ctx).unwrap_err(), Errors::NotAuthorized);
    assert_eq!(ledger.amount_of(&x), Some(3));
}

#[test]
fn claim_that_overflows_fails() {
    let x = key(21);
    let mut ledger = ready_ledger();
    set_amount(&mut ledger, x, u64::MAX);
    enable(&mut ledger);
    assert_eq!(claim_token(&mut ledger, &claim_ctx(x, 1)).unwrap_err(), Errors::ArithmeticOverflow);
    assert_eq!(ledger.amount_of(&x), Some(u64::MAX));
}

#[test]
fn disabling_again_blocks_claims() {
    let x = key(22);
    let mut ledger = ready_ledger();
    set_amount(&mut ledger, x, 1);
    enable(&mut ledger);
    set_enabled(&mut ledger, &SetEnabled { signer: authority() }, false).unwrap();
    assert_eq!(claim_token(&mut ledger, &claim_ctx(x, 5)).unwrap_err(), Errors::NotEnabled);
}

#[test]
fn scaling_values() {
    assert_eq!(scale_amount(3, 5), Some(300_000));
    assert_eq!(scale_amount(7, 0), Some(7));
    assert_eq!(scale_amount(0, 30), Some(0));
    assert_eq!(scale_amount(1, 19), Some(10_000_000_000_000_000_000));
    assert_eq!(scale_amount(1, 20), None);
    assert_eq!(scale_amount(u64::MAX / 10 + 1, 1), None);
}

#[test]
fn key_equality() {
    assert_eq!(key(4), key(4));
    assert_ne!(key(4), key(5));
    let mut bytes = [4u8; 32];
    bytes[31] = 5;
    assert!(!key(4).same_as(&Pubkey::new(bytes)));
    assert_eq!(Pubkey::zero(), key(0));
}

#[test]
fn init_token_plans_issuance() {
    let ctx = InitToken { payer: key(30), master: key(31), mint_exists: false };
    let plan = init_token(&ctx, "Dawg".to_string(), "DAWG".to_string(), "https://x/y.json".to_string(), 1_000)
        .unwrap();
    assert_eq!(plan.metadata.name, "Dawg");
    assert_eq!(plan.metadata.symbol, "DAWG");
    assert_eq!(plan.metadata.uri, "https://x/y.json");
    assert_eq!(plan.metadata.seller_fee_basis_points, 0);
    assert_eq!(plan.decimals, MINT_DECIMALS);
    assert_eq!(plan.mint_amount, 100_000_000);
    assert_eq!(plan.destination_owner, key(31));
    assert_eq!(plan.payer, key(30));
    assert!(plan.revoke_mint_authority);
}

#[test]
fn init_token_refuses_existing_mint() {
    let ctx = InitToken { payer: key(30), master: key(31), mint_exists: true };
    let r = init_token(&ctx, String::new(), String::new(), String::new(), 1);
    assert_eq!(r.unwrap_err(), Errors::AlreadyInitialized);
}

#[test]
fn init_token_refuses_supply_that_overflows() {
    let ctx = InitToken { payer: key(30), master: key(31), mint_exists: false };
    let r = init_token(&ctx, String::new(), String::new(), String::new(), u64::MAX);
    assert_eq!(r.unwrap_err(), Errors::ArithmeticOverflow);
}
