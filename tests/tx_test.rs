use aurum_chain::num::BigDecimal;
use aurum_chain::tx::{Tx, TxData};
use aurum_chain::wallet::Wallet;
use sha2::Digest;

#[test]
fn new_tx() {
    let from = Wallet::new();
    let to = Wallet::new();
    let tx_data = TxData::new(&from, to.address_str(), String::from("0.0001"), String::from("0"), 1).unwrap();
    let tx_1 = Tx::from_tx(tx_data.clone(), String::default(), 0);
    assert!(tx_1.valid());
    let tx_2 = Tx::from_tx(tx_data, String::default(), 0);
    assert!(tx_2.valid());
    assert_eq!(tx_1.hash, tx_2.hash);
}

#[test]
fn signed_payload_verifies() {
    let from = Wallet::new();
    let data = TxData::new(&from, String::from("R"), String::from("1.5"), String::from("0.01"), 3).unwrap();
    assert!(data.valid());
    let tx = Tx::from_tx(data.clone(), String::from("prev"), 7);
    assert!(tx.valid());
    assert_eq!(tx.hash, tx.hash_str());

    let mut forged = data.clone();
    forged.amount = BigDecimal::from_str("2").unwrap();
    assert!(!forged.valid());

    let mut bad_hash = tx.clone();
    bad_hash.hash = String::from("abc");
    assert!(!bad_hash.valid());

    let mut unsigned = data.clone();
    unsigned.signature = String::from("0OIl");
    assert!(!unsigned.valid());
}

#[test]
fn payload_digest_layout() {
    let data = TxData {
        from: String::from("a"),
        to: String::from("b"),
        amount: BigDecimal::from_str("1.5").unwrap(),
        fee: BigDecimal::from_str("0").unwrap(),
        nonce: 258,
        signature: String::new(),
    };
    let mut expected_bytes = b"ab1.5".to_vec();
    expected_bytes.extend_from_slice(&258u64.to_be_bytes());
    assert_eq!(data.payload(), expected_bytes);
    let expected: [u8; 32] = sha2::Sha256::digest(&expected_bytes).into();
    assert_eq!(data.hash(), expected);

    let tx = Tx::from_tx(data.clone(), String::from("p"), 9);
    let mut chained = b"p".to_vec();
    chained.extend_from_slice(&9u64.to_be_bytes());
    chained.extend_from_slice(&expected);
    let digest: [u8; 32] = sha2::Sha256::digest(&chained).into();
    assert_eq!(tx.hash(), digest);
    assert_eq!(tx.hash, bs58::encode(digest).into_string());
}

#[test]
fn fee_amount_ratio() {
    let mut data = TxData {
        from: String::from("a"),
        to: String::from("b"),
        amount: BigDecimal::from_str("0.1").unwrap(),
        fee: BigDecimal::from_str("0.001").unwrap(),
        nonce: 1,
        signature: String::new(),
    };
    assert_eq!(data.fee_amount(), BigDecimal::from_str("100").unwrap());
    data.fee = BigDecimal::zero();
    assert_eq!(data.fee_amount(), BigDecimal::zero());
}

#[test]
fn genesis_txs_need_no_signature() {
    let data = TxData {
        from: String::from("GENESIS"),
        to: String::from("W"),
        amount: BigDecimal::from_str("100").unwrap(),
        fee: BigDecimal::zero(),
        nonce: 1,
        signature: String::from("GENESIS"),
    };
    assert!(!data.valid());
    let tx = Tx::from_tx(data, String::default(), 0);
    assert!(tx.valid());
    assert_eq!(tx.from(), "GENESIS");
    assert_eq!(tx.to(), "W");
    assert_eq!(tx.nonce(), 1);
    assert_eq!(tx.prev_hash(), "");
    assert_eq!(tx.amount(), BigDecimal::from_str("100").unwrap());
}
