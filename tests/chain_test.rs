use std::hash::{Hash, Hasher};
use aurum_chain::account::Account;
use aurum_chain::accounts::Accounts;
use aurum_chain::block::Block;
use aurum_chain::chain::{
    apply_txs, build_genesis_txs, check_block, current_validator, default_empty_hash, elect_validator,
    genesis_accounts,
};
use aurum_chain::num::{BigDecimal, BigInt};
use aurum_chain::tx::{Tx, TxData};
use aurum_chain::wallet::Wallet;

fn staked(wallet: &str, stake: u64) -> Account {
    let mut account = Account::new(String::from(wallet));
    account.stake = BigInt::from_u64(stake).unwrap();
    account
}

fn genesis_payload(to: &str, amount: &str) -> TxData {
    TxData {
        from: String::from("GENESIS"),
        to: String::from(to),
        amount: BigDecimal::from_str(amount).unwrap(),
        fee: BigDecimal::zero(),
        nonce: 1,
        signature: String::from("GENESIS"),
    }
}

#[test]
fn genesis_txs_are_chained() {
    let txs = build_genesis_txs(vec![genesis_payload("A", "1"), genesis_payload("B", "2")]);
    assert_eq!(txs.len(), 2);
    assert_eq!(txs[0].prev_hash, default_empty_hash());
    assert_eq!(default_empty_hash(), bs58::encode([0u8; 32]).into_string());
    assert_eq!(txs[1].prev_hash, txs[0].hash);
    assert!(txs.iter().all(|t| t.block == 0 && t.valid()));
    let accounts = genesis_accounts(&txs).unwrap();
    assert_eq!(accounts.get(&String::from("A")).unwrap().balance(), BigDecimal::from_str("1").unwrap());
    assert_eq!(accounts.get(&String::from("B")).unwrap().balance(), BigDecimal::from_str("2").unwrap());
}

#[test]
fn genesis_failure_reports_position() {
    let mut second = genesis_payload("B", "2");
    second.from = String::from("nobody");
    let txs = build_genesis_txs(vec![genesis_payload("A", "1"), second]);
    let (position, error) = genesis_accounts(&txs).unwrap_err();
    assert_eq!(position, 1);
    assert_eq!(error, "Not enough balance");
}

#[test]
fn election_walks_wallets_in_order() {
    let mut accounts = Accounts::new();
    accounts.insert(staked("B", 4));
    accounts.insert(staked("A", 3));
    accounts.insert(staked("C", 0));
    assert_eq!(accounts.entries[0].wallet, "A");
    assert_eq!(accounts.entries[1].wallet, "B");
    assert_eq!(accounts.entries[2].wallet, "C");
    assert_eq!(elect_validator(2, &accounts).unwrap(), "A");
    assert_eq!(elect_validator(3, &accounts).unwrap(), "B");
    assert_eq!(elect_validator(5, &accounts).unwrap(), "B");
    assert_eq!(elect_validator(7, &accounts).unwrap(), "A");
    assert_eq!(elect_validator(u64::MAX, &accounts).unwrap(), "A");
}

#[test]
fn election_without_stake_fails() {
    let mut accounts = Accounts::new();
    accounts.insert(staked("A", 0));
    assert_eq!(elect_validator(1, &accounts).unwrap_err(), "No latest block");
    assert_eq!(elect_validator(1, &Accounts::new()).unwrap_err(), "No latest block");
}

#[test]
fn election_is_deterministic() {
    let block = Block::genesis(build_genesis_txs(vec![genesis_payload("A", "1")]));
    let mut first = Accounts::new();
    let mut second = Accounts::new();
    for (w, s) in [("X", 5), ("Y", 9), ("Z", 2), ("W", 1)] {
        first.insert(staked(w, s));
    }
    for (w, s) in [("W", 1), ("Z", 2), ("Y", 9), ("X", 5)] {
        second.insert(staked(w, s));
    }
    let a = current_validator(&block, &first).unwrap();
    let b = current_validator(&block, &second).unwrap();
    assert_eq!(a, b);
}

#[test]
fn block_commit_rules() {
    let wallet = Wallet::new();
    let mut accounts = Accounts::new();
    let mut funded = Account::new(wallet.address_str());
    funded.debit(BigDecimal::from_str("10").unwrap()).unwrap();
    accounts.insert(funded);

    let tx = Tx::from_tx(
        TxData::new(&wallet, String::from("R"), String::from("1"), String::from("0.1"), 1).unwrap(),
        String::from("tip"),
        5,
    );
    let block = Block::new(&wallet, 5, String::from("parent"), vec![tx.clone()]).unwrap();

    let err = check_block(Some(3), Some(String::from("tip")), &block, &mut accounts).unwrap_err();
    assert_eq!(err, "Invalid block index, expected: 4, was: 5");
    let err = check_block(None, None, &block, &mut accounts).unwrap_err();
    assert_eq!(err, "Invalid block index, expected: 0, was: 5");
    let err = check_block(Some(4), Some(String::from("other")), &block, &mut accounts).unwrap_err();
    assert_eq!(err, format!("PoH error, expected: other, was: {}", "tip"));

    let mut unsigned = block.clone();
    unsigned.signature = String::from("GENESIS");
    let err = check_block(Some(4), Some(String::from("tip")), &unsigned, &mut accounts).unwrap_err();
    assert_eq!(err, "Invalid block");

    let other = Wallet::new();
    let stranger = Tx::from_tx(
        TxData::new(&other, String::from("R"), String::from("1"), String::from("0.1"), 1).unwrap(),
        String::from("tip"),
        5,
    );
    let bad = Block::new(&wallet, 5, String::from("parent"), vec![stranger]).unwrap();
    let err = check_block(Some(4), Some(String::from("tip")), &bad, &mut accounts).unwrap_err();
    assert_eq!(err, "Invalid transactions");
    assert_eq!(accounts.get(&wallet.address_str()).unwrap().balance(), BigDecimal::from_str("10").unwrap());

    check_block(Some(4), Some(String::from("tip")), &block, &mut accounts).unwrap();
    assert_eq!(accounts.get(&wallet.address_str()).unwrap().balance().to_plain_string(), "9.0");
    assert_eq!(accounts.get(&String::from("R")).unwrap().balance(), BigDecimal::from_str("1").unwrap());
}

#[test]
fn apply_txs_stops_at_first_failure() {
    let mut accounts = Accounts::new();
    let mut a = Account::new(String::from("A"));
    a.debit(BigDecimal::from_str("1").unwrap()).unwrap();
    accounts.insert(a);
    let pay = |nonce: u64, amount: &str| {
        Tx::from_tx(
            TxData {
                from: String::from("A"),
                to: String::from("B"),
                amount: BigDecimal::from_str(amount).unwrap(),
                fee: BigDecimal::zero(),
                nonce,
                signature: String::new(),
            },
            String::new(),
            1,
        )
    };
    let txs = vec![pay(1, "0.5"), pay(2, "0.7")];
    let (position, error) = apply_txs(&String::from("V"), &txs, &mut accounts).unwrap_err();
    assert_eq!(position, 1);
    assert_eq!(error, "Not enough balance");
    assert_eq!(accounts.get(&String::from("A")).unwrap().balance(), BigDecimal::from_str("1").unwrap());
    assert!(accounts.get(&String::from("B")).is_none());
    apply_txs(&String::from("V"), &vec![pay(1, "0.5"), pay(2, "0.5")], &mut accounts).unwrap();
    assert_eq!(accounts.get(&String::from("B")).unwrap().balance(), BigDecimal::from_str("1").unwrap());
}

#[test]
fn election_seed_is_default_hash_of_block_digest() {
    let block = Block::genesis(build_genesis_txs(vec![genesis_payload("A", "1")]));
    let mut accounts = Accounts::new();
    for (w, s) in [("X", 5), ("Y", 9), ("Z", 2)] {
        accounts.insert(staked(w, s));
    }
    let mut hasher = std::hash::DefaultHasher::new();
    block.hash().hash(&mut hasher);
    let seed = hasher.finish();
    let target = seed % 16;
    let expected = if target < 5 { "X" } else if target < 14 { "Y" } else { "Z" };
    assert_eq!(current_validator(&block, &accounts).unwrap(), expected);
    assert_eq!(elect_validator(seed, &accounts).unwrap(), expected);
}

#[test]
fn every_link_in_a_block_is_checked() {
    let wallet = Wallet::new();
    let mut accounts = Accounts::new();
    let mut funded = Account::new(wallet.address_str());
    funded.debit(BigDecimal::from_str("10").unwrap()).unwrap();
    accounts.insert(funded);
    let first = Tx::from_tx(
        TxData::new(&wallet, String::from("R"), String::from("1"), String::from("0"), 1).unwrap(),
        String::from("tip"),
        5,
    );
    let second = Tx::from_tx(
        TxData::new(&wallet, String::from("R"), String::from("1"), String::from("0"), 2).unwrap(),
        String::from("elsewhere"),
        5,
    );
    let block = Block::new(&wallet, 5, String::from("parent"), vec![first.clone(), second]).unwrap();
    let err = check_block(Some(4), Some(String::from("tip")), &block, &mut accounts).unwrap_err();
    assert_eq!(err, format!("PoH error, expected: {}, was: elsewhere", first.hash));

    let linked = Tx::from_tx(
        TxData::new(&wallet, String::from("R"), String::from("1"), String::from("0"), 2).unwrap(),
        first.hash.clone(),
        5,
    );
    let block = Block::new(&wallet, 5, String::from("parent"), vec![first, linked]).unwrap();
    check_block(Some(4), Some(String::from("tip")), &block, &mut accounts).unwrap();
    assert_eq!(accounts.get(&String::from("R")).unwrap().balance(), BigDecimal::from_str("2").unwrap());
}

#[test]
fn invalid_transaction_rejects_block() {
    let wallet = Wallet::new();
    let mut accounts = Accounts::new();
    let mut funded = Account::new(wallet.address_str());
    funded.debit(BigDecimal::from_str("10").unwrap()).unwrap();
    accounts.insert(funded);
    let mut forged = Tx::from_tx(
        TxData::new(&wallet, String::from("R"), String::from("1"), String::from("0"), 1).unwrap(),
        String::from("tip"),
        5,
    );
    forged.data.amount = BigDecimal::from_str("5").unwrap();
    let block = Block::new(&wallet, 5, String::from("parent"), vec![forged]).unwrap();
    assert!(block.merkle_valid());
    assert!(!block.txs_valid());
    let err = check_block(Some(4), Some(String::from("tip")), &block, &mut accounts).unwrap_err();
    assert_eq!(err, "Invalid transactions");
}

#[test]
fn out_of_range_amount_rejects_the_sequence() {
    let mut accounts = Accounts::new();
    let mut a = Account::new(String::from("A"));
    a.debit(BigDecimal::from_str("1").unwrap()).unwrap();
    accounts.insert(a);
    let tx = Tx::from_tx(
        TxData {
            from: String::from("A"),
            to: String::from("B"),
            amount: BigDecimal { digits: BigInt::from_u64(1).unwrap(), scale: 2_000_000 },
            fee: BigDecimal::zero(),
            nonce: 1,
            signature: String::new(),
        },
        String::new(),
        1,
    );
    let (position, error) = apply_txs(&String::from("V"), &vec![tx], &mut accounts).unwrap_err();
    assert_eq!(position, 0);
    assert_eq!(error, "Amount out of range");
}
