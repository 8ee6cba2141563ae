use aurum_chain::account::Account;
use aurum_chain::accounts::Accounts;
use aurum_chain::num::{BigDecimal, BigInt};
use aurum_chain::operation::process_tx;
use aurum_chain::tx::{Tx, TxData};
use aurum_chain::wallet::Wallet;

const DEFAULT_VALIDATOR: &str = "";

#[test]
fn not_enough_balance_tx() {
    let mut accounts = Accounts::new();
    let from = Wallet::new();
    let to = Wallet::new();
    let tx_data = TxData::new(&from, to.address_str(), String::from("0.001"), String::from("1"), 1).unwrap();
    let tx = Tx::from_tx(tx_data, String::default(), 1);
    if let Err(err) = process_tx(DEFAULT_VALIDATOR.to_string(), &tx, &mut accounts) {
        assert_eq!(err, "Not enough balance");
    } else {
        assert!(false);
    }
}

#[test]
fn not_enough_balance_unstake() {
    let mut accounts = Accounts::new();
    let from = Wallet::new();
    let tx_data = TxData::new(&from, String::from("UNSTAKE"), String::from("0.001"), String::from("1"), 1).unwrap();
    let tx = Tx::from_tx(tx_data, String::default(), 1);
    if let Err(err) = process_tx(DEFAULT_VALIDATOR.to_string(), &tx, &mut accounts) {
        assert_eq!(err, "Not enough balance");
    } else {
        assert!(false);
    }
}

#[test]
fn valid_unstake() {
    let mut accounts = Accounts::new();
    let from = Wallet::new();
    let mut account = Account::new(from.address_str());
    account.debit(BigDecimal::from_str("10.02").unwrap()).unwrap();
    account
        .stake_amount(BigDecimal::from_str("10").unwrap(), BigDecimal::from_str("0.01").unwrap())
        .unwrap();
    accounts.insert(account);

    let tx_data = TxData::new(&from, String::from("UNSTAKE"), String::from("1"), String::from("0.01"), 1).unwrap();
    let tx = Tx::from_tx(tx_data, String::default(), 1);
    if let Err(err) = process_tx(DEFAULT_VALIDATOR.to_string(), &tx, &mut accounts) {
        assert!(false, "{}", err);
    }
    assert_eq!(accounts.get(&from.address_str()).unwrap().stake(), BigInt::from_str("9").unwrap());
}

#[test]
fn not_enough_for_fee_unstake() {
    let mut accounts = Accounts::new();
    let from = Wallet::new();
    let mut account = Account::new(from.address_str());
    account.debit(BigDecimal::from_str("10").unwrap()).unwrap();
    accounts.insert(account);
    let tx_data = TxData::new(&from, String::from("UNSTAKE"), String::from("1"), String::from("0.01"), 1).unwrap();
    let tx = Tx::from_tx(tx_data, String::default(), 1);
    if let Err(err) = process_tx(DEFAULT_VALIDATOR.to_string(), &tx, &mut accounts) {
        println!("{}", err);
        assert!(true);
    } else {
        assert!(false, "Balance is not validated")
    }
}

#[test]
fn not_enough_for_fee_stake() {
    let mut balances = Accounts::new();
    let from = Wallet::new();
    let mut account = Account::new(from.address_str());
    account.debit(BigDecimal::from_str("1").unwrap()).unwrap();
    balances.insert(account);
    let tx_data = TxData::new(&from, String::from("STAKE"), String::from("1"), String::from("0.01"), 1).unwrap();
    let tx = Tx::from_tx(tx_data, String::default(), 1);
    if let Err(err) = process_tx(DEFAULT_VALIDATOR.to_string(), &tx, &mut balances) {
        println!("{}", err);
        assert!(true);
    } else {
        assert!(false, "Balance is not validated")
    }
}

#[test]
fn valid_tx() {
    let mut balances = Accounts::new();
    let from = Wallet::new();
    let mut account = Account::new(from.address_str());
    account.debit(BigDecimal::from_str("1").unwrap()).unwrap();
    balances.insert(account);
    let to = Wallet::new();
    let tx_data = TxData::new(&from, to.address_str(), String::from("0.001"), String::from("0"), 1).unwrap();
    let tx = Tx::from_tx(tx_data, String::default(), 1);
    if let Err(err) = process_tx(DEFAULT_VALIDATOR.to_string(), &tx, &mut balances) {
        assert!(false, "{}", err);
    }
}

#[test]
fn valid_stake() {
    let mut accounts = Accounts::new();
    let from = Wallet::new();
    let mut account = Account::new(from.address_str());
    account.debit(BigDecimal::from_str("10").unwrap()).unwrap();
    accounts.insert(account);
    let tx_data = TxData::new(&from, String::from("STAKE"), String::from("1"), String::from("1"), 1).unwrap();
    let tx = Tx::from_tx(tx_data, String::default(), 1);
    if let Err(err) = process_tx(DEFAULT_VALIDATOR.to_string(), &tx, &mut accounts) {
        assert!(false, "{}", err);
    }
    assert_eq!(accounts.get(&from.address_str()).unwrap().stake(), BigInt::from_str("1").unwrap());
    assert_eq!(accounts.get(&from.address_str()).unwrap().balance(), BigDecimal::from_str("8").unwrap());
}

#[test]
fn wrong_nonce_value() {
    let mut accounts = Accounts::new();
    let from = Wallet::new();
    let mut account = Account::new(from.address_str());
    account.debit(BigDecimal::from_str("1").unwrap()).unwrap();
    accounts.insert(account);
    let to = Wallet::new();
    let tx_data = TxData::new(&from, to.address_str(), String::from("0.001"), String::from("0"), 0).unwrap();
    let tx = Tx::from_tx(tx_data, String::default(), 1);
    let Err(err) = process_tx(DEFAULT_VALIDATOR.to_string(), &tx, &mut accounts) else {
        panic!("Expect nonce validation");
    };
    assert_eq!(err, "Invalid nonce, expected: 1, was: 0");
    assert_eq!(accounts.get(&from.address_str()).unwrap().nonce(), 0);
}

#[test]
fn tx_fee() {
    let mut accounts = Accounts::new();
    let start_balance = String::from("0.1");
    let start_fee = String::from("0.001");

    let from = Wallet::new();
    let mut account = Account::new(from.address_str());
    account.debit(BigDecimal::from_str("100").unwrap()).unwrap();
    account.set_nonce(1).unwrap();

    let to = Wallet::new();
    accounts.insert(account);
    let tx_data = TxData::new(&from, to.address_str(), start_balance.clone(), start_fee.clone(), 2).unwrap();
    let validator = Wallet::new();
    let tx = Tx::from_tx(tx_data, String::default(), 1);
    process_tx(validator.address_str(), &tx, &mut accounts).unwrap();

    let validator_balance = accounts.get(&validator.address_str()).unwrap();
    let from_balance = accounts.get(&from.address_str()).unwrap();
    let to_balance = accounts.get(&to.address_str()).unwrap();

    assert_eq!(validator_balance.balance.to_plain_string(), start_fee);
    assert_eq!(from_balance.balance.to_plain_string(), "99.899");
    assert_eq!(to_balance.balance.to_plain_string(), "0.1");
    assert_eq!(from_balance.nonce(), 2);
}

#[test]
fn failed_tx_leaves_table_unchanged() {
    let mut accounts = Accounts::new();
    let from = Wallet::new();
    let mut account = Account::new(from.address_str());
    account.debit(BigDecimal::from_str("1").unwrap()).unwrap();
    accounts.insert(account);
    let tx_data = TxData::new(&from, String::from("someone"), String::from("2"), String::from("0"), 1).unwrap();
    let tx = Tx::from_tx(tx_data, String::default(), 1);
    assert_eq!(process_tx(String::from("v"), &tx, &mut accounts).unwrap_err(), "Not enough balance");
    assert_eq!(accounts.len(), 1);
    let sender = accounts.get(&from.address_str()).unwrap();
    assert_eq!(sender.nonce(), 0);
    assert_eq!(sender.balance(), BigDecimal::from_str("1").unwrap());
    assert!(accounts.get(&String::from("someone")).is_none());
}

#[test]
fn genesis_mints_funds() {
    let mut accounts = Accounts::new();
    let data = TxData {
        from: String::from("GENESIS"),
        to: String::from("W"),
        amount: BigDecimal::from_str("100").unwrap(),
        fee: BigDecimal::from_str("0").unwrap(),
        nonce: 1,
        signature: String::from("GENESIS"),
    };
    let tx = Tx::from_tx(data, String::default(), 0);
    process_tx(String::from("GENESIS"), &tx, &mut accounts).unwrap();
    assert_eq!(accounts.get(&String::from("W")).unwrap().balance(), BigDecimal::from_str("100").unwrap());
    let genesis = accounts.get(&String::from("GENESIS")).unwrap();
    assert_eq!(genesis.balance(), BigDecimal::zero());
    assert_eq!(genesis.nonce(), 1);
}

#[test]
fn transfer_to_self_pays_only_the_fee() {
    let mut accounts = Accounts::new();
    let mut account = Account::new(String::from("W"));
    account.debit(BigDecimal::from_str("50").unwrap()).unwrap();
    accounts.insert(account);
    let data = TxData {
        from: String::from("W"),
        to: String::from("W"),
        amount: BigDecimal::from_str("10").unwrap(),
        fee: BigDecimal::from_str("0.5").unwrap(),
        nonce: 1,
        signature: String::new(),
    };
    let tx = Tx::from_tx(data, String::default(), 3);
    process_tx(String::from("V"), &tx, &mut accounts).unwrap();
    assert_eq!(accounts.get(&String::from("W")).unwrap().balance(), BigDecimal::from_str("49.5").unwrap());
    assert_eq!(accounts.get(&String::from("V")).unwrap().balance(), BigDecimal::from_str("0.5").unwrap());
}
