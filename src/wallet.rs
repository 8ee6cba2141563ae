//! Key pairs: a secp256k1 secret and its compressed public key, the address.
use crate::digest::{base58_decode, base58_decoded, base58_encode, base58_of, secp256k1_verify, signature_valid};
use vstd::prelude::*;
use vstd::string::StringExecFns;

verus! {

/// Whether 32 bytes are a valid secp256k1 secret scalar.
pub uninterp spec fn secret_key_valid(secret: Seq<u8>) -> bool;

/// The compressed public key of a secret.
pub uninterp spec fn public_key_of(secret: Seq<u8>) -> Seq<u8>;

/// The DER-encoded ECDSA signature of `message` (deterministic nonces).
pub uninterp spec fn signature_of(secret: Seq<u8>, message: Seq<u8>) -> Seq<u8>;

/// Relies on `libp2p::identity::secp256k1::Keypair::generate`: a random valid
/// secret and its public key.
#[verifier::external_body]
fn generate_keypair() -> (r: ([u8; 32], [u8; 33]))
    ensures
        secret_key_valid(r.0@),
        r.1@ == public_key_of(r.0@),
{
    let keypair = libp2p::identity::secp256k1::Keypair::generate();
    (keypair.secret().to_bytes(), keypair.public().to_bytes())
}

/// Relies on `libp2p::identity::secp256k1::SecretKey::try_from_bytes` and the
/// key pair's compressed public key.
#[verifier::external_body]
fn public_key(secret: &[u8; 32]) -> (r: Option<[u8; 33]>)
    ensures
        r is Some <==> secret_key_valid(secret@),
        r matches Some(p) ==> p@ == public_key_of(secret@),
{
    match libp2p::identity::secp256k1::SecretKey::try_from_bytes(*secret) {
        Ok(key) => Some(libp2p::identity::secp256k1::Keypair::from(key).public().to_bytes()),
        Err(_) => None,
    }
}

/// Relies on `libp2p::identity::secp256k1::SecretKey::sign`: an ECDSA
/// signature over the SHA-256 of the message, which the matching public key's
/// `verify` accepts.
#[verifier::external_body]
fn sign_message(secret: &[u8; 32], message: &[u8]) -> (r: Vec<u8>)
    requires
        secret_key_valid(secret@),
    ensures
        r@ == signature_of(secret@, message@),
        signature_valid(public_key_of(secret@), message@, r@),
{
    libp2p::identity::secp256k1::SecretKey::try_from_bytes(*secret).unwrap().sign(message)
}

pub struct Wallet {
    secret: [u8; 32],
    public: [u8; 33],
}

impl Clone for Wallet {
    fn clone(&self) -> (r: Wallet)
        ensures
            r.secret_bytes() == self.secret_bytes(),
            r.public_bytes() == self.public_bytes(),
    {
        Wallet { secret: self.secret, public: self.public }
    }
}

impl Wallet {
    pub closed spec fn secret_bytes(&self) -> Seq<u8> {
        self.secret@
    }

    pub closed spec fn public_bytes(&self) -> Seq<u8> {
        self.public@
    }

    /// The secret is a valid key and `public` is its public key.
    pub closed spec fn wf(&self) -> bool {
        secret_key_valid(self.secret@) && self.public@ == public_key_of(self.secret@)
    }

    /// The Base58 address of the wallet.
    pub open spec fn address_text(&self) -> Seq<char> {
        base58_of(self.public_bytes())
    }

    /// A wallet with a fresh random key.
    pub fn new() -> (r: Wallet)
        ensures
            r.wf(),
    {
        let (secret, public) = generate_keypair();
        Wallet { secret, public }
    }

    pub fn from_secret(secret: [u8; 32]) -> (r: Result<Wallet, String>)
        ensures
            r is Ok <==> secret_key_valid(secret@),
            r matches Ok(w) ==> w.wf() && w.secret_bytes() == secret@ && w.public_bytes()
                == public_key_of(secret@),
    {
        match public_key(&secret) {
            Some(public) => Ok(Wallet { secret, public }),
            None => Err(String::from_str("invalid secret key")),
        }
    }

    /// A wallet from the Base58 text of its secret.
    pub fn from_secret_str(secret: String) -> (r: Result<Wallet, String>)
        ensures
            r is Ok <==> (base58_decoded(secret@) matches Some(b) && b.len() == 32 && secret_key_valid(b)),
            r matches Ok(w) ==> w.wf() && Some(w.secret_bytes()) == base58_decoded(secret@),
    {
        let bytes = match base58_decode(secret.as_str()) {
            Some(b) => b,
            None => {
                return Err(String::from_str("invalid secret key"));
            },
        };
        if bytes.len() != 32 {
            return Err(String::from_str("invalid secret key"));
        }
        let mut key = [0u8; 32];
        let mut i: usize = 0;
        while i < 32
            invariant
                bytes@.len() == 32,
                i <= 32,
                forall|j: int| 0 <= j < i ==> key@[j] == bytes@[j],
            decreases 32 - i,
        {
            key[i] = bytes[i];
            i = i + 1;
        }
        assert(key@ =~= bytes@);
        Wallet::from_secret(key)
    }

    /// The compressed public key.
    pub fn address(&self) -> (r: [u8; 33])
        ensures
            r@ == self.public_bytes(),
    {
        self.public
    }

    pub fn address_str(&self) -> (r: String)
        ensures
            r@ == self.address_text(),
            base58_decoded(r@) == Some(self.public_bytes()),
            self.public_bytes().len() == 33,
    {
        base58_encode(&self.public)
    }

    pub fn secret(&self) -> (r: [u8; 32])
        ensures
            r@ == self.secret_bytes(),
    {
        self.secret
    }

    pub fn secret_str(&self) -> (r: String)
        ensures
            r@ == base58_of(self.secret_bytes()),
    {
        base58_encode(&self.secret)
    }

    /// The Base58 text of the signature of a digest.
    pub fn sign(&self, data: &[u8; 32]) -> (r: Result<String, String>)
        requires
            self.wf(),
        ensures
            r matches Ok(s) && s@ == base58_of(signature_of(self.secret_bytes(), data@))
                && base58_decoded(s@) == Some(signature_of(self.secret_bytes(), data@))
                && signature_valid(self.public_bytes(), data@, signature_of(self.secret_bytes(), data@)),
    {
        let signature = sign_message(&self.secret, data);
        Ok(base58_encode(signature.as_slice()))
    }

    /// Whether the Base58 text `signature` is this wallet's signature of `data`.
    pub fn verify(&self, data: &[u8; 32], signature: String) -> (r: bool)
        ensures
            r == (base58_decoded(signature@) matches Some(sig) && signature_valid(
                self.public_bytes(),
                data@,
                sig,
            )),
    {
        match base58_decode(signature.as_str()) {
            Some(sig) => secp256k1_verify(&self.public, data, sig.as_slice()),
            None => false,
        }
    }
}

} // verus!
