use loyalty_ledger::balances::TokenLedger;
use loyalty_ledger::errors::LedgerError;
use loyalty_ledger::registry::{BusinessCategory, Registry};
use loyalty_ledger::txlog::{TransactionLog, TransactionType};

#[test]
fn token_ledger_credit_and_debit() {
    let mut ledger = TokenLedger::new();
    assert_eq!(ledger.get_balance(1, 2), 0);
    ledger.credit(1, 2, 40).unwrap();
    ledger.credit(1, 2, 2).unwrap();
    ledger.credit(3, 2, 5).unwrap();
    assert_eq!(ledger.get_balance(1, 2), 42);
    assert_eq!(ledger.get_balance(3, 2), 5);
    ledger.debit(1, 2, 40).unwrap();
    assert_eq!(ledger.get_balance(1, 2), 2);
    assert_eq!(ledger.debit(1, 2, 3), Err(LedgerError::InsufficientBalance));
    assert_eq!(ledger.get_balance(1, 2), 2);
}

#[test]
fn token_ledger_credit_overflow_is_checked() {
    let mut ledger = TokenLedger::new();
    ledger.credit(1, 2, u64::MAX).unwrap();
    assert_eq!(ledger.credit(1, 2, 1), Err(LedgerError::ArithmeticOverflow));
    assert_eq!(ledger.get_balance(1, 2), u64::MAX);
}

#[test]
fn registry_assigns_sequential_identifiers() {
    let mut registry = Registry::new();
    let a = registry
        .register_business(1, String::from("Cafe Uno"), BusinessCategory::Cafe, 10, 1)
        .unwrap();
    let b = registry
        .register_business(2, String::from("Gym"), BusinessCategory::Fitness, 4, 2)
        .unwrap();
    assert_eq!(a, 0);
    assert_eq!(b, 1);
    assert_eq!(registry.business_count(), 2);
    assert!(registry.get_business(2).is_none());
    assert_eq!(registry.get_business(1).unwrap().name, "Gym");
}

#[test]
fn transaction_log_appends_in_order() {
    let mut log = TransactionLog::new();
    log.record_purchase(7, 0, 5, 50, 1, String::from("sig-1"));
    log.record_redemption(7, 0, 30, 30, 2, String::from("sig-2"));
    assert_eq!(log.record_count(), 2);
    let first = log.get_record(0).unwrap();
    assert_eq!(first.transaction_type, TransactionType::Earn);
    assert_eq!(first.amount_usd, 5);
    assert_eq!(first.tokens_amount, 50);
    let second = log.get_record(1).unwrap();
    assert_eq!(second.transaction_type, TransactionType::Redeem);
    assert_eq!(second.tokens_amount, 30);
    assert!(log.get_record(2).is_none());
}
