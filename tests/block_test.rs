use aurum_chain::block::Block;
use aurum_chain::tx::{Tx, TxData};
use aurum_chain::wallet::Wallet;

#[test]
fn test_genesis_block_creation() -> Result<(), String> {
    let wallet = Wallet::new();
    let tx_data = TxData::new(&wallet, wallet.address_str(), String::from("1"), String::from("0"), 1)?;
    let tx = Tx::from_tx(tx_data, String::default(), 0);
    let txs = vec![tx];

    let block1 = Block::genesis(txs.clone());
    assert_eq!(block1.idx, 0);

    let block2 = Block::genesis(txs);
    assert_eq!(block2.idx, 0);

    assert_eq!(block1.hash(), block2.hash());
    assert_eq!(block1.hash_str(), block2.hash_str());
    Ok(())
}

#[test]
fn test_new_block_creation() -> Result<(), String> {
    let wallet = Wallet::new();
    let tx_data = TxData::new(&wallet, wallet.address_str(), String::from("1"), String::from("0"), 1)?;
    let tx = Tx::from_tx(tx_data, String::default(), 0);
    let txs = vec![tx];

    let genesis = Block::genesis(txs.clone());
    Block::new(&wallet, 1, genesis.hash_str(), txs)?;
    Ok(())
}

#[test]
fn signed_block_is_valid() {
    let wallet = Wallet::new();
    let tx_data = TxData::new(&wallet, String::from("X"), String::from("2"), String::from("0.1"), 1).unwrap();
    let tx = Tx::from_tx(tx_data, String::from("prev"), 4);
    let block = Block::new(&wallet, 4, String::from("parent"), vec![tx]).unwrap();
    assert!(block.valid());
    assert_eq!(block.idx(), 4);
    assert_eq!(block.validator, wallet.address_str());
    assert_eq!(block.txs().unwrap().len(), 1);

    let mut tampered = block.clone();
    tampered.parent_hash = String::from("other");
    assert!(!tampered.valid());

    let mut wrong_root = block.clone();
    wrong_root.merkle_root = String::from("1111");
    assert!(!wrong_root.valid());
}

#[test]
fn genesis_layout() {
    let block = Block::genesis(Vec::new());
    assert_eq!(block.signature, "GENESIS");
    assert_eq!(block.parent_hash, bs58::encode([0u8; 32]).into_string());
    assert_eq!(block.validator, bs58::encode([0u8; 33]).into_string());
    assert_eq!(block.merkle_root, bs58::encode([0u8; 32]).into_string());
    assert_eq!(block.last_event(), "");
    assert!(!block.valid());
}

#[test]
fn last_event_is_last_tx_hash() {
    let wallet = Wallet::new();
    let a = Tx::from_tx(TxData::new(&wallet, String::from("A"), String::from("1"), String::from("0"), 1).unwrap(), String::from("x"), 2);
    let b = Tx::from_tx(TxData::new(&wallet, String::from("B"), String::from("1"), String::from("0"), 2).unwrap(), a.hash.clone(), 2);
    let expected = b.hash.clone();
    let block = Block::new(&wallet, 2, String::from("p"), vec![a, b]).unwrap();
    assert_eq!(block.last_event(), expected);
}

#[test]
fn merkle_root_matches_rs_merkle() {
    let wallet = Wallet::new();
    let a = Tx::from_tx(TxData::new(&wallet, String::from("A"), String::from("1"), String::from("0"), 1).unwrap(), String::from("x"), 2);
    let b = Tx::from_tx(TxData::new(&wallet, String::from("B"), String::from("3"), String::from("0"), 2).unwrap(), a.hash.clone(), 2);
    let leaves = vec![a.hash(), b.hash()];
    let expected = rs_merkle::MerkleTree::<rs_merkle::algorithms::Sha256>::from_leaves(&leaves).root().unwrap();
    assert_eq!(Block::merkle_root(&vec![a, b]), expected);
    assert_eq!(Block::merkle_root(&Vec::new()), [0u8; 32]);
}
