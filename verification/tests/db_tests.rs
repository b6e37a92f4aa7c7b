use peillute::db::{
    check_deposit, check_refund, check_withdraw, decimal_string, is_null_user, is_refund_message,
    plan_transaction, refund_message, DepositError, RefundError, RefundedTx, TransactionPlan,
    WithdrawError,
};

fn tx(msg: Option<&str>) -> Option<RefundedTx> {
    Some(RefundedTx {
        from_user: "alice".to_string(),
        to_user: "bob".to_string(),
        optional_msg: msg.map(|m| m.to_string()),
    })
}

#[test]
fn decimals() {
    assert_eq!(decimal_string(0), "0");
    assert_eq!(decimal_string(42), "42");
    assert_eq!(decimal_string(-7), "-7");
    assert_eq!(decimal_string(i64::MIN), i64::MIN.to_string());
    assert_eq!(decimal_string(i64::MAX), i64::MAX.to_string());
}

#[test]
fn refund_messages_are_marked() {
    let m = refund_message("A", 12);
    assert_eq!(m, "Refund transaction A-12");
    assert!(is_refund_message(&m));
    assert!(!is_refund_message("Deposit"));
    assert!(!is_refund_message("Refund"));
}

#[test]
fn refund_checks_in_order() {
    assert!(matches!(check_refund(None, true, false, "A", 1), Err(RefundError::NotFound)));
    assert!(matches!(check_refund(tx(None), false, false, "A", 1), Err(RefundError::InsufficientFunds)));
    assert!(matches!(
        check_refund(tx(Some("Refund transaction B-3")), true, false, "A", 1),
        Err(RefundError::IsRefund)
    ));
    assert!(matches!(check_refund(tx(Some("Deposit")), true, true, "A", 1), Err(RefundError::AlreadyRefunded)));
    let plan = check_refund(tx(Some("")), true, false, "A", 1).unwrap();
    assert_eq!(plan.from_user, "bob");
    assert_eq!(plan.to_user, "alice");
    assert_eq!(plan.message, "Refund transaction A-1");
}

#[test]
fn deposit_and_withdraw_checks() {
    assert_eq!(check_deposit(false, true), Err(DepositError::UnknownUser));
    assert_eq!(check_deposit(true, true), Err(DepositError::NegativeAmount));
    assert_eq!(check_deposit(true, false), Ok(()));
    assert_eq!(check_withdraw(true, false, false), Err(WithdrawError::NegativeAmount));
    assert_eq!(check_withdraw(false, false, false), Err(WithdrawError::UnknownUser));
    assert_eq!(check_withdraw(false, true, false), Err(WithdrawError::InsufficientFunds));
    assert_eq!(check_withdraw(false, true, true), Ok(()));
}

#[test]
fn the_outside_world_is_never_touched() {
    assert!(is_null_user("NULL"));
    assert!(!is_null_user("null"));
    assert_eq!(
        plan_transaction("NULL", "bob", false),
        Some(TransactionPlan { touch_from: false, touch_to: true })
    );
    assert_eq!(plan_transaction("alice", "NULL", false), None);
    assert_eq!(
        plan_transaction("alice", "NULL", true),
        Some(TransactionPlan { touch_from: true, touch_to: false })
    );
}
