use payments::balance::{Amount, ArithmeticError, Balance};

#[test]
fn deposit_works() {
    let deposit_amount: Amount = 500;

    let mut balance = Balance::default();
    assert!(balance.credit(deposit_amount).is_ok());
    assert_eq!(balance.available, deposit_amount);
    assert_eq!(balance.frozen, 0);
}

#[test]
fn deposit_overflow_check() {
    let initial_deposit_amount: Amount = Amount::MAX;

    let mut balance = Balance::default();
    assert!(balance.credit(initial_deposit_amount).is_ok());
    assert_eq!(balance.credit(1).unwrap_err(), ArithmeticError::Overflow);
}

#[test]
fn deposit_cannot_overflow_total_balance() {
    let deposit_amount: Amount = Amount::MAX;

    let mut balance = Balance::default();
    assert!(balance.credit(deposit_amount).is_ok());
    assert!(balance.freeze(deposit_amount).is_ok());
    assert_eq!(balance.credit(deposit_amount).unwrap_err(), ArithmeticError::Overflow);
}

#[test]
fn withdraw_works() {
    let deposit_amount: Amount = 500;
    let withdraw_amount: Amount = deposit_amount - 50;

    let mut balance = Balance::default();
    assert!(balance.credit(deposit_amount).is_ok());
    assert!(balance.debit(withdraw_amount).is_ok());
    assert_eq!(balance.available, deposit_amount - withdraw_amount);
    assert_eq!(balance.frozen, 0);
}

#[test]
fn withdraw_underflow_check() {
    let deposit_amount: Amount = 500;
    let withdraw_amount: Amount = deposit_amount + 50;

    let mut balance = Balance::default();
    assert!(balance.credit(deposit_amount).is_ok());
    assert_eq!(balance.debit(withdraw_amount).unwrap_err(), ArithmeticError::Underflow);
}

#[test]
fn freeze_works() {
    let deposit_amount: Amount = 500;
    let freeze_amount: Amount = 100;

    let mut balance = Balance::default();
    assert!(balance.credit(deposit_amount).is_ok());
    assert!(balance.freeze(freeze_amount).is_ok());
    assert_eq!(balance.frozen, freeze_amount);
    assert_eq!(balance.available, deposit_amount - freeze_amount);
}

#[test]
fn freeze_cannot_move_more_than_available() {
    let deposit_amount: Amount = 500;
    let freeze_amount: Amount = deposit_amount + 100;

    let mut balance = Balance::default();
    assert!(balance.credit(deposit_amount).is_ok());
    assert_eq!(balance.freeze(freeze_amount).unwrap_err(), ArithmeticError::Underflow);
}

#[test]
fn unfreeze_works() {
    let deposit_amount: Amount = 500;
    let freeze_amount: Amount = 100;
    let unfreeze_amount: Amount = 80;

    let mut balance = Balance::default();
    assert!(balance.credit(deposit_amount).is_ok());
    assert!(balance.freeze(freeze_amount).is_ok());
    assert!(balance.unfreeze(unfreeze_amount).is_ok());
    assert_eq!(balance.frozen, freeze_amount - unfreeze_amount);
    assert_eq!(balance.available, deposit_amount - freeze_amount + unfreeze_amount);
}

#[test]
fn unfreeze_cannot_move_more_than_frozen() {
    let deposit_amount: Amount = 500;
    let freeze_amount: Amount = 100;
    let unfreeze_amount: Amount = freeze_amount + 20;

    let mut balance = Balance::default();
    assert!(balance.credit(deposit_amount).is_ok());
    assert!(balance.freeze(freeze_amount).is_ok());
    assert_eq!(balance.unfreeze(unfreeze_amount).unwrap_err(), ArithmeticError::Underflow);
}

#[test]
fn chargeback_works() {
    let deposit_amount: Amount = 500;

    let mut balance = Balance::default();
    assert!(balance.credit(deposit_amount).is_ok());
    assert!(balance.freeze(deposit_amount).is_ok());
    assert!(balance.chargeback(deposit_amount).is_ok());

    assert_eq!(balance.available, 0);
    assert_eq!(balance.frozen, 0);
}

#[test]
fn chargeback_cannot_credit_more_than_frozen() {
    let deposit_amount: Amount = 500;
    let freeze_amount: Amount = deposit_amount - 100;

    let mut balance = Balance::default();
    assert!(balance.credit(deposit_amount).is_ok());
    assert!(balance.freeze(freeze_amount).is_ok());
    assert_eq!(balance.chargeback(deposit_amount).unwrap_err(), ArithmeticError::Underflow);
}

#[test]
fn failed_freeze_leaves_balance_unchanged() {
    let deposit_amount: Amount = 500;

    let mut balance = Balance::default();
    assert!(balance.credit(deposit_amount).is_ok());
    assert!(balance.freeze(deposit_amount + 1).is_err());
    assert_eq!(balance.available, deposit_amount);
    assert_eq!(balance.frozen, 0);
}

#[test]
fn failed_operation_repeats_identically() {
    let mut balance = Balance::default();
    assert!(balance.credit(100).is_ok());

    let first = balance.debit(150).unwrap_err();
    assert_eq!(first, ArithmeticError::Underflow);
    assert_eq!(balance.available, 100);
    assert_eq!(balance.frozen, 0);

    let second = balance.debit(150).unwrap_err();
    assert_eq!(second, first);
    assert_eq!(balance.available, 100);
    assert_eq!(balance.frozen, 0);
}

#[test]
fn unfreeze_overflow_takes_precedence_over_underflow() {
    let mut balance = Balance {
        frozen: 0,
        available: Amount::MAX,
    };
    assert_eq!(balance.unfreeze(1).unwrap_err(), ArithmeticError::Overflow);
    assert_eq!(balance.available, Amount::MAX);
    assert_eq!(balance.frozen, 0);
}

#[test]
fn getters_report_the_sub_balances() {
    let mut balance = Balance::default();
    assert!(balance.credit(300).is_ok());
    assert!(balance.freeze(120).is_ok());
    assert_eq!(balance.available(), 180);
    assert_eq!(balance.frozen(), 120);
}
