use loyalty_ledger::errors::LedgerError;
use loyalty_ledger::registry::BusinessCategory;
use loyalty_ledger::system::LoyaltySystem;
use loyalty_ledger::txlog::TransactionType;

fn cafe() -> (LoyaltySystem, u64) {
    let mut s = LoyaltySystem::initialize();
    let id = s
        .register_business(1, String::from("Cafe Uno"), BusinessCategory::Cafe, 10, 1)
        .unwrap();
    s.update_business_settings(id, 1, None, Some(20)).unwrap();
    (s, id)
}

#[test]
fn scenario_mint_burn_and_insufficient_balance() {
    let (mut s, id) = cafe();
    let minted = s.mint_loyalty_tokens(7, id, 5, 2, String::from("sig-1")).unwrap();
    assert_eq!(minted, 50);
    assert_eq!(s.get_balance(7, id), 50);

    let discount = s.burn_for_discount(7, id, 30, 15, 3, String::from("sig-2")).unwrap();
    assert_eq!(discount, 30);
    assert_eq!(s.get_balance(7, id), 20);
    assert_eq!(s.record_count(), 2);
    let redeem = s.get_record(1).unwrap();
    assert_eq!(redeem.transaction_type, TransactionType::Redeem);
    assert_eq!(redeem.tokens_amount, 30);

    let again = s.burn_for_discount(7, id, 30, 15, 4, String::from("sig-3"));
    assert_eq!(again, Err(LedgerError::InsufficientBalance));
    assert_eq!(s.get_balance(7, id), 20);
    assert_eq!(s.record_count(), 2);
}

#[test]
fn scenario_discount_above_cap_is_rejected() {
    let (mut s, id) = cafe();
    s.mint_loyalty_tokens(7, id, 5, 2, String::from("sig-1")).unwrap();
    let r = s.burn_for_discount(7, id, 30, 25, 3, String::from("sig-2"));
    assert_eq!(r, Err(LedgerError::InvalidParameter));
    assert_eq!(s.get_balance(7, id), 50);
    assert_eq!(s.record_count(), 1);
}

#[test]
fn reregistration_fails_and_leaves_original_unchanged() {
    let mut s = LoyaltySystem::initialize();
    let id = s
        .register_business(1, String::from("Cafe Uno"), BusinessCategory::Cafe, 10, 1)
        .unwrap();
    let second = s.register_business(1, String::from("Cafe Dos"), BusinessCategory::Other, 99, 2);
    assert_eq!(second, Err(LedgerError::AlreadyRegistered));
    assert_eq!(s.business_count(), 1);
    let b = s.get_business(id).unwrap();
    assert_eq!(b.name, "Cafe Uno");
    assert_eq!(b.tokens_per_dollar, 10);
    assert_eq!(b.created_at, 1);
}

#[test]
fn registration_validates_name_and_rate() {
    let mut s = LoyaltySystem::initialize();
    let empty = s.register_business(1, String::new(), BusinessCategory::Cafe, 10, 1);
    assert_eq!(empty, Err(LedgerError::InvalidParameter));
    let zero_rate = s.register_business(1, String::from("Cafe Uno"), BusinessCategory::Cafe, 0, 1);
    assert_eq!(zero_rate, Err(LedgerError::InvalidParameter));
    assert_eq!(s.business_count(), 0);
}

#[test]
fn registration_defaults() {
    let mut s = LoyaltySystem::initialize();
    let id = s
        .register_business(4, String::from("Cut Above"), BusinessCategory::Barbershop, 3, 9)
        .unwrap();
    assert_eq!(id, 0);
    let b = s.get_business(id).unwrap();
    assert_eq!(b.owner, 4);
    assert_eq!(b.category, BusinessCategory::Barbershop);
    assert_eq!(b.max_discount, 0);
    assert!(b.is_active);
    assert_eq!(b.created_at, 9);
}

#[test]
fn update_requires_owner() {
    let (mut s, id) = cafe();
    let r = s.update_business_settings(id, 2, Some(5), None);
    assert_eq!(r, Err(LedgerError::Unauthorized));
    assert_eq!(s.get_business(id).unwrap().tokens_per_dollar, 10);
}

#[test]
fn update_unknown_business_is_invalid() {
    let (mut s, _) = cafe();
    let r = s.update_business_settings(7, 1, Some(5), None);
    assert_eq!(r, Err(LedgerError::InvalidParameter));
}

#[test]
fn update_rejects_out_of_range_fields() {
    let (mut s, id) = cafe();
    assert_eq!(
        s.update_business_settings(id, 1, Some(0), None),
        Err(LedgerError::InvalidParameter)
    );
    assert_eq!(
        s.update_business_settings(id, 1, None, Some(101)),
        Err(LedgerError::InvalidParameter)
    );
    let b = s.get_business(id).unwrap();
    assert_eq!(b.tokens_per_dollar, 10);
    assert_eq!(b.max_discount, 20);
}

#[test]
fn update_is_partial() {
    let (mut s, id) = cafe();
    s.update_business_settings(id, 1, Some(25), None).unwrap();
    let b = s.get_business(id).unwrap();
    assert_eq!(b.tokens_per_dollar, 25);
    assert_eq!(b.max_discount, 20);
    s.update_business_settings(id, 1, None, Some(50)).unwrap();
    let b = s.get_business(id).unwrap();
    assert_eq!(b.tokens_per_dollar, 25);
    assert_eq!(b.max_discount, 50);
}

#[test]
fn inactive_business_rejects_mint_and_burn_but_keeps_state() {
    let (mut s, id) = cafe();
    s.mint_loyalty_tokens(7, id, 5, 2, String::from("sig-1")).unwrap();
    s.set_business_active(id, 1, false).unwrap();
    assert_eq!(
        s.mint_loyalty_tokens(7, id, 5, 3, String::from("sig-2")),
        Err(LedgerError::BusinessInactive)
    );
    assert_eq!(
        s.burn_for_discount(7, id, 10, 15, 4, String::from("sig-3")),
        Err(LedgerError::BusinessInactive)
    );
    assert_eq!(s.get_balance(7, id), 50);
    assert_eq!(s.record_count(), 1);
    s.set_business_active(id, 1, true).unwrap();
    assert_eq!(
        s.mint_loyalty_tokens(7, id, 1, 5, String::from("sig-4")),
        Ok(10)
    );
}

#[test]
fn deactivation_requires_owner() {
    let (mut s, id) = cafe();
    assert_eq!(s.set_business_active(id, 9, false), Err(LedgerError::Unauthorized));
    assert!(s.get_business(id).unwrap().is_active);
    assert_eq!(s.set_business_active(3, 1, false), Err(LedgerError::InvalidParameter));
}

#[test]
fn mint_computes_exact_token_amount() {
    let mut s = LoyaltySystem::initialize();
    let id = s
        .register_business(2, String::from("Gym"), BusinessCategory::Fitness, 3, 1)
        .unwrap();
    let minted = s.mint_loyalty_tokens(11, id, 7, 2, String::from("sig-1")).unwrap();
    assert_eq!(minted, 21);
    assert_eq!(s.get_balance(11, id), 21);
    let rec = s.get_record(0).unwrap();
    assert_eq!(rec.transaction_type, TransactionType::Earn);
    assert_eq!(rec.customer, 11);
    assert_eq!(rec.business, id);
    assert_eq!(rec.amount_usd, 7);
    assert_eq!(rec.tokens_amount, 21);
    assert_eq!(rec.timestamp, 2);
    assert_eq!(rec.signature, "sig-1");
}

#[test]
fn mint_rejects_unknown_business_and_zero_amount() {
    let (mut s, id) = cafe();
    assert_eq!(
        s.mint_loyalty_tokens(7, 9, 5, 2, String::from("sig-1")),
        Err(LedgerError::InvalidParameter)
    );
    assert_eq!(
        s.mint_loyalty_tokens(7, id, 0, 2, String::from("sig-1")),
        Err(LedgerError::InvalidParameter)
    );
    assert_eq!(s.record_count(), 0);
}

#[test]
fn mint_detects_rate_overflow() {
    let mut s = LoyaltySystem::initialize();
    let id = s
        .register_business(1, String::from("Big"), BusinessCategory::Other, u64::MAX, 1)
        .unwrap();
    let r = s.mint_loyalty_tokens(7, id, 2, 2, String::from("sig-1"));
    assert_eq!(r, Err(LedgerError::ArithmeticOverflow));
    assert_eq!(s.get_balance(7, id), 0);
    assert_eq!(s.record_count(), 0);
}

#[test]
fn mint_detects_balance_overflow() {
    let mut s = LoyaltySystem::initialize();
    let id = s
        .register_business(1, String::from("Big"), BusinessCategory::Other, u64::MAX, 1)
        .unwrap();
    assert_eq!(
        s.mint_loyalty_tokens(7, id, 1, 2, String::from("sig-1")),
        Ok(u64::MAX)
    );
    let r = s.mint_loyalty_tokens(7, id, 1, 3, String::from("sig-2"));
    assert_eq!(r, Err(LedgerError::ArithmeticOverflow));
    assert_eq!(s.get_balance(7, id), u64::MAX);
    assert_eq!(s.record_count(), 1);
}

#[test]
fn burn_rejects_zero_discount_and_unknown_business() {
    let (mut s, id) = cafe();
    s.mint_loyalty_tokens(7, id, 5, 2, String::from("sig-1")).unwrap();
    assert_eq!(
        s.burn_for_discount(7, id, 10, 0, 3, String::from("sig-2")),
        Err(LedgerError::InvalidParameter)
    );
    assert_eq!(
        s.burn_for_discount(7, 9, 10, 15, 3, String::from("sig-2")),
        Err(LedgerError::InvalidParameter)
    );
    assert_eq!(s.get_balance(7, id), 50);
}

#[test]
fn burn_from_empty_balance_fails() {
    let (mut s, id) = cafe();
    let r = s.burn_for_discount(3, id, 1, 15, 2, String::from("sig-1"));
    assert_eq!(r, Err(LedgerError::InsufficientBalance));
    assert_eq!(s.get_balance(3, id), 0);
}

#[test]
fn balances_are_independent_per_key() {
    let mut s = LoyaltySystem::initialize();
    let b1 = s
        .register_business(1, String::from("Cafe Uno"), BusinessCategory::Cafe, 10, 1)
        .unwrap();
    let b2 = s
        .register_business(2, String::from("Gym"), BusinessCategory::Fitness, 2, 2)
        .unwrap();
    s.update_business_settings(b1, 1, None, Some(20)).unwrap();
    s.mint_loyalty_tokens(7, b1, 5, 3, String::from("sig-1")).unwrap();
    s.mint_loyalty_tokens(8, b1, 1, 4, String::from("sig-2")).unwrap();
    s.mint_loyalty_tokens(7, b2, 6, 5, String::from("sig-3")).unwrap();
    s.burn_for_discount(7, b1, 15, 20, 6, String::from("sig-4")).unwrap();
    assert_eq!(s.get_balance(7, b1), 35);
    assert_eq!(s.get_balance(8, b1), 10);
    assert_eq!(s.get_balance(7, b2), 12);
    assert_eq!(s.get_balance(8, b2), 0);
}

#[test]
fn log_replay_gives_the_balances() {
    let (mut s, id) = cafe();
    s.mint_loyalty_tokens(7, id, 5, 2, String::from("sig-1")).unwrap();
    s.mint_loyalty_tokens(7, id, 3, 3, String::from("sig-2")).unwrap();
    s.burn_for_discount(7, id, 25, 10, 4, String::from("sig-3")).unwrap();
    let mut net: i128 = 0;
    for i in 0..s.record_count() {
        let rec = s.get_record(i).unwrap();
        assert_eq!(rec.customer, 7);
        assert_eq!(rec.business, id);
        match rec.transaction_type {
            TransactionType::Earn => net += rec.tokens_amount as i128,
            TransactionType::Redeem => net -= rec.tokens_amount as i128,
        }
        assert!(net >= 0);
    }
    assert_eq!(net, s.get_balance(7, id) as i128);
}

#[test]
fn log_is_append_only() {
    let (mut s, id) = cafe();
    s.mint_loyalty_tokens(7, id, 5, 2, String::from("sig-1")).unwrap();
    let (first_ts, first_sig, first_tokens) = {
        let rec = s.get_record(0).unwrap();
        (rec.timestamp, rec.signature.clone(), rec.tokens_amount)
    };
    s.mint_loyalty_tokens(8, id, 1, 3, String::from("sig-2")).unwrap();
    s.burn_for_discount(7, id, 10, 15, 4, String::from("sig-3")).unwrap();
    assert_eq!(s.record_count(), 3);
    let rec = s.get_record(0).unwrap();
    assert_eq!(rec.timestamp, first_ts);
    assert_eq!(rec.signature, first_sig);
    assert_eq!(rec.tokens_amount, first_tokens);
    let mut last_ts = i64::MIN;
    for i in 0..s.record_count() {
        let ts = s.get_record(i).unwrap().timestamp;
        assert!(ts >= last_ts);
        last_ts = ts;
    }
    assert!(s.get_record(3).is_none());
}

#[test]
fn burn_of_zero_tokens_succeeds_and_is_recorded() {
    let (mut s, id) = cafe();
    let r = s.burn_for_discount(7, id, 0, 15, 2, String::from("sig-1"));
    assert_eq!(r, Ok(0));
    assert_eq!(s.get_balance(7, id), 0);
    assert_eq!(s.record_count(), 1);
    let rec = s.get_record(0).unwrap();
    assert_eq!(rec.transaction_type, TransactionType::Redeem);
    assert_eq!(rec.tokens_amount, 0);
}
