use aurum_chain::wallet::Wallet;

#[test]
fn recreate_wallet() {
    let wallet = Wallet::new();
    let restored = Wallet::from_secret(wallet.secret()).unwrap();
    assert_eq!(wallet.secret(), restored.secret());
    let restored = Wallet::from_secret_str(wallet.secret_str()).unwrap();
    assert_eq!(wallet.secret(), restored.secret());
}

#[test]
fn address_is_base58_public_key() {
    let wallet = Wallet::new();
    assert_eq!(wallet.address_str(), bs58::encode(wallet.address()).into_string());
    let key = libp2p::identity::secp256k1::SecretKey::try_from_bytes(wallet.secret()).unwrap();
    let pair = libp2p::identity::secp256k1::Keypair::from(key);
    assert_eq!(pair.public().to_bytes(), wallet.address());
}

#[test]
fn sign_and_verify() {
    let wallet = Wallet::new();
    let other = Wallet::new();
    let digest = [7u8; 32];
    let signature = wallet.sign(&digest).unwrap();
    assert!(wallet.verify(&digest, signature.clone()));
    assert!(!other.verify(&digest, signature.clone()));
    assert!(!wallet.verify(&[8u8; 32], signature));
    assert!(!wallet.verify(&digest, String::from("0")));
}

#[test]
fn invalid_secrets_are_rejected() {
    assert!(Wallet::from_secret([0u8; 32]).is_err());
    assert!(Wallet::from_secret_str(String::from("0OIl")).is_err());
    assert!(Wallet::from_secret_str(bs58::encode([1u8; 5]).into_string()).is_err());
}
