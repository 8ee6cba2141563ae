use aurum_chain::account::Account;
use aurum_chain::accounts::Accounts;
use aurum_chain::chain::{build_genesis_txs, genesis_accounts};
use aurum_chain::block::Block;
use aurum_chain::mempool::MemPool;
use aurum_chain::messages::{answer_account, answer_add_tx, answer_fee, serve_locally, wallet_info, FeeRequest, NonceRequest};
use aurum_chain::num::BigDecimal;
use aurum_chain::tx::TxData;
use aurum_chain::wallet::Wallet;

fn funded_pool(node: &Wallet, user: &Wallet, balance: &str) -> MemPool {
    let mut pool = MemPool::new(node.clone());
    let mut accounts = Accounts::new();
    let mut account = Account::new(user.address_str());
    account.debit(BigDecimal::from_str(balance).unwrap()).unwrap();
    accounts.insert(account);
    pool.update(String::from("parent"), 3, String::from("last"), accounts);
    pool
}

#[test]
fn empty_mempool_fee() {
    let node = Wallet::new();
    let user = Wallet::new();
    let mut pool = funded_pool(&node, &user, "100");
    assert_eq!(pool.current_fee(), BigDecimal::from_str("0.00000000001").unwrap());
    let data = TxData::new(&user, String::from("R"), String::from("1"), String::from("0.01"), 1).unwrap();
    pool.add_tx(data).unwrap();
    // one pending transaction: 10^-11 * max(1, 1)
    assert_eq!(pool.current_fee(), BigDecimal::from_str("0.00000000001").unwrap());
    let data = TxData::new(&user, String::from("R"), String::from("1"), String::from("0.01"), 2).unwrap();
    pool.add_tx(data).unwrap();
    assert_eq!(pool.current_fee(), BigDecimal::from_str("0.00000000002").unwrap());
    assert_eq!(answer_fee(&pool, FeeRequest {}).fee.to_plain_string(), "0.00000000002");
}

#[test]
fn nonce_error_text() {
    let node = Wallet::new();
    let user = Wallet::new();
    let mut pool = funded_pool(&node, &user, "100");
    let data = TxData::new(&user, String::from("R"), String::from("1"), String::from("0.01"), 0).unwrap();
    assert_eq!(pool.add_tx(data).unwrap_err(), "Invalid nonce, expected: 1, was: 0");
    assert_eq!(pool.pending_txs.len(), 0);
    assert_eq!(pool.get_nonce(user.address_str()), 0);
}

#[test]
fn admission_errors() {
    let node = Wallet::new();
    let user = Wallet::new();
    let mut pool = funded_pool(&node, &user, "100");
    let mut forged = TxData::new(&user, String::from("R"), String::from("1"), String::from("0.01"), 1).unwrap();
    forged.to = String::from("S");
    assert_eq!(pool.add_tx(forged).unwrap_err(), "Invalid transaction");
    let free = TxData::new(&user, String::from("R"), String::from("1"), String::from("0"), 1).unwrap();
    assert_eq!(pool.add_tx(free).unwrap_err(), "Fee is to low");
    let too_much = TxData::new(&user, String::from("R"), String::from("100"), String::from("0.01"), 1).unwrap();
    let response = answer_add_tx(&mut pool, too_much);
    assert!(response.data.is_none());
    assert_eq!(response.error.unwrap(), "Not enough balance");
}

#[test]
fn fee_accrual_through_mempool() {
    let node = Wallet::new();
    let user = Wallet::new();
    let mut pool = funded_pool(&node, &user, "100");
    let to = Wallet::new();
    let data = TxData::new(&user, to.address_str(), String::from("0.1"), String::from("0.001"), 1).unwrap();
    let tx = pool.add_tx(data).unwrap();
    assert_eq!(tx.prev_hash, "last");
    assert_eq!(tx.block, 3);
    assert_eq!(pool.last_event, tx.hash);
    let sender = pool.get_account(user.address_str()).unwrap();
    assert_eq!(sender.balance().to_plain_string(), "99.899");
    assert_eq!(pool.get_account(to.address_str()).unwrap().balance().to_plain_string(), "0.1");
    assert_eq!(pool.get_account(node.address_str()).unwrap().balance().to_plain_string(), "0.001");
    assert_eq!(wallet_info(&pool, user.address_str()).nonce, 1);
    assert_eq!(wallet_info(&pool, String::from("nobody")).nonce, 0);
}

#[test]
fn block_proposal_is_leader_gated() {
    let node = Wallet::new();
    let user = Wallet::new();
    let mut pool = funded_pool(&node, &user, "100");
    let data = TxData::new(&user, String::from("R"), String::from("1"), String::from("0.01"), 1).unwrap();
    pool.add_tx(data).unwrap();
    assert!(pool.new_block(user.address_str()).is_none());
    assert_eq!(pool.pending_txs.len(), 1);
    let block = pool.new_block(node.address_str()).unwrap();
    assert_eq!(block.idx, 3);
    assert_eq!(block.parent_hash, "parent");
    assert_eq!(block.txs.as_ref().unwrap().len(), 1);
    assert!(block.valid());
    assert_eq!(pool.pending_txs.len(), 0);
}

#[test]
fn chain_continuity() {
    let w = Wallet::new();
    let genesis_data = vec![
        TxData {
            from: String::from("GENESIS"),
            to: w.address_str(),
            amount: BigDecimal::from_str("100").unwrap(),
            fee: BigDecimal::zero(),
            nonce: 1,
            signature: String::from("GENESIS"),
        },
        TxData {
            from: w.address_str(),
            to: String::from("STAKE"),
            amount: BigDecimal::from_str("50").unwrap(),
            fee: BigDecimal::zero(),
            nonce: 1,
            signature: String::from("GENESIS"),
        },
    ];
    let txs = build_genesis_txs(genesis_data);
    let accounts = genesis_accounts(&txs).unwrap();
    let last = txs.last().unwrap().hash.clone();
    let genesis = Block::genesis(txs);
    assert_eq!(genesis.last_event(), last);

    let node = Wallet::new();
    let mut pool = MemPool::new(node.clone());
    pool.update(genesis.hash_str(), 1, genesis.last_event(), accounts);
    let first = pool
        .add_tx(TxData::new(&w, w.address_str(), String::from("10"), String::from("0.01"), 2).unwrap())
        .unwrap();
    assert_eq!(first.prev_hash, last);
    let second = pool
        .add_tx(TxData::new(&w, w.address_str(), String::from("10"), String::from("0.01"), 3).unwrap())
        .unwrap();
    assert_eq!(second.prev_hash, first.hash);
}

#[test]
fn peer_requests_are_answered_from_the_mempool() {
    let node = Wallet::new();
    let user = Wallet::new();
    let pool = funded_pool(&node, &user, "7.5");
    let found = answer_account(&pool, NonceRequest { wallet: user.address_str() });
    assert_eq!(found.account.unwrap().balance(), BigDecimal::from_str("7.5").unwrap());
    assert!(answer_account(&pool, NonceRequest { wallet: String::from("nobody") }).account.is_none());
    assert!(serve_locally(&node.address_str(), &node.address_str()));
    assert!(!serve_locally(&user.address_str(), &node.address_str()));
}

#[test]
fn out_of_range_payload_is_invalid() {
    let node = Wallet::new();
    let user = Wallet::new();
    let mut pool = funded_pool(&node, &user, "100");
    let mut data = TxData::new(&user, String::from("R"), String::from("1"), String::from("0.01"), 1).unwrap();
    data.amount = BigDecimal { digits: aurum_chain::num::BigInt::from_u64(1).unwrap(), scale: -9223372036854775807 };
    data.fee = BigDecimal { digits: aurum_chain::num::BigInt::from_u64(10).unwrap(), scale: 0 };
    let response = answer_add_tx(&mut pool, data);
    assert!(response.data.is_none());
    assert_eq!(response.error.unwrap(), "Invalid transaction");
    assert_eq!(pool.pending_txs.len(), 0);
}
