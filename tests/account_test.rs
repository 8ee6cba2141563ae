use aurum_chain::account::Account;
use aurum_chain::num::{BigDecimal, BigInt};

#[test]
fn account_debit_credit() {
    let mut account = Account::new(String::from("wallet"));

    account.debit(BigDecimal::from_str("1").unwrap()).unwrap();

    assert!(account.credit(BigDecimal::from_str("1").unwrap()).is_ok());

    match account.credit(BigDecimal::from_str("2").unwrap()) {
        Ok(_) => assert!(false, "Credit operation not validated"),
        Err(e) => assert_eq!(e, "Not enough balance"),
    }
}

#[test]
fn account_stake() {
    let mut account = Account::new(String::from("wallet"));
    account.debit(BigDecimal::from_str("2.01").unwrap()).unwrap();

    assert!(account
        .stake_amount(BigDecimal::from_str("1").unwrap(), BigDecimal::from_str("0.1").unwrap())
        .is_ok());

    match account.stake_amount(BigDecimal::from_str("1").unwrap(), BigDecimal::from_str("1").unwrap()) {
        Ok(_) => assert!(false, "Credit operation not validated"),
        Err(e) => assert_eq!(e, "Not enough balance"),
    }
}

#[test]
fn account_unstake() {
    let mut account = Account::new(String::from("wallet"));
    account.debit(BigDecimal::from_str("2.01").unwrap()).unwrap();

    assert!(account
        .stake_amount(BigDecimal::from_str("1").unwrap(), BigDecimal::from_str("0.1").unwrap())
        .is_ok());

    account
        .unstake_amount(BigDecimal::from_str("1").unwrap(), BigDecimal::from_str("0.1").unwrap())
        .unwrap();

    match account.unstake_amount(BigDecimal::from_str("1").unwrap(), BigDecimal::from_str("1").unwrap()) {
        Ok(_) => assert!(false, "Credit operation not validated"),
        Err(e) => assert_eq!(e, "Not enough stake"),
    }
}

#[test]
fn account_unstake_invalid_fee() {
    let mut account = Account::new(String::from("wallet"));
    account.debit(BigDecimal::from_str("2").unwrap()).unwrap();

    assert!(account
        .stake_amount(BigDecimal::from_str("1").unwrap(), BigDecimal::from_str("0.1").unwrap())
        .is_ok());

    match account.unstake_amount(BigDecimal::from_str("1").unwrap(), BigDecimal::from_str("1").unwrap()) {
        Ok(_) => assert!(false, "Credit operation not validated"),
        Err(e) => assert_eq!(e, "Not enough balance for fee"),
    }
}

#[test]
fn stake_round_trip() {
    let mut account = Account::new(String::from("wallet"));
    account.debit(BigDecimal::from_str("10.02").unwrap()).unwrap();
    account
        .stake_amount(BigDecimal::from_str("10").unwrap(), BigDecimal::from_str("0.01").unwrap())
        .unwrap();
    assert_eq!(account.balance().to_plain_string(), "0.01");
    assert_eq!(account.stake(), BigInt::from_str("10").unwrap());
    account
        .unstake_amount(BigDecimal::from_str("1").unwrap(), BigDecimal::from_str("0.01").unwrap())
        .unwrap();
    assert_eq!(account.balance().to_plain_string(), "1.00");
    assert_eq!(account.balance(), BigDecimal::from_str("1").unwrap());
    assert_eq!(account.stake(), BigInt::from_str("9").unwrap());
}

#[test]
fn stake_must_be_integral() {
    let mut account = Account::new(String::from("wallet"));
    account.debit(BigDecimal::from_str("5").unwrap()).unwrap();
    match account.stake_amount(BigDecimal::from_str("1.5").unwrap(), BigDecimal::from_str("0").unwrap()) {
        Ok(_) => panic!("fractional stake accepted"),
        Err(e) => assert_eq!(e, "Stake must be int"),
    }
    assert_eq!(account.balance(), BigDecimal::from_str("5").unwrap());
    assert_eq!(account.stake(), BigInt::zero());
    match account.unstake_amount(BigDecimal::from_str("0.5").unwrap(), BigDecimal::from_str("0").unwrap()) {
        Ok(_) => panic!("fractional unstake accepted"),
        Err(e) => assert_eq!(e, "Stake must be int"),
    }
}

#[test]
fn failed_credit_leaves_account_unchanged() {
    let mut account = Account::new(String::from("wallet"));
    account.debit(BigDecimal::from_str("1.5").unwrap()).unwrap();
    assert!(account.credit(BigDecimal::from_str("1.51").unwrap()).is_err());
    assert_eq!(account.balance(), BigDecimal::from_str("1.5").unwrap());
    account.credit(BigDecimal::from_str("1.5").unwrap()).unwrap();
    assert_eq!(account.balance(), BigDecimal::zero());
}

#[test]
fn nonce_must_follow() {
    let mut account = Account::new(String::from("wallet"));
    match account.set_nonce(0) {
        Ok(_) => panic!("repeated nonce accepted"),
        Err(e) => assert_eq!(e, "Invalid nonce, expected: 1, was: 0"),
    }
    account.set_nonce(1).unwrap();
    assert_eq!(account.nonce(), 1);
    match account.set_nonce(5) {
        Ok(_) => panic!("skipped nonce accepted"),
        Err(e) => assert_eq!(e, "Invalid nonce, expected: 2, was: 5"),
    }
    account.nonce = u64::MAX;
    match account.set_nonce(0) {
        Ok(_) => panic!("wrapped nonce accepted"),
        Err(e) => assert_eq!(e, "Invalid nonce, expected: 18446744073709551616, was: 0"),
    }
}

#[test]
fn new_account_is_empty() {
    let account = Account::new(String::from("abc"));
    assert_eq!(account.wallet(), "abc");
    assert_eq!(account.balance(), BigDecimal::zero());
    assert_eq!(account.nonce(), 0);
    assert_eq!(account.stake(), BigInt::zero());
}
