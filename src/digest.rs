//! Hashing, encoding and signature checks, each backed by its crate.
use sha2::Digest;
use std::hash::{Hash, Hasher};
use vstd::prelude::*;

verus! {

/// SHA-256 of a byte string.
pub uninterp spec fn sha256_of(data: Seq<u8>) -> Seq<u8>;

/// Base58 (Bitcoin alphabet) text of a byte string.
pub uninterp spec fn base58_of(data: Seq<u8>) -> Seq<char>;

/// The bytes a Base58 text decodes to, if it is valid Base58.
pub uninterp spec fn base58_decoded(text: Seq<char>) -> Option<Seq<u8>>;

/// Whether `signature` is a valid secp256k1 signature of `message` under the
/// compressed public key `public_key`.
pub uninterp spec fn signature_valid(public_key: Seq<u8>, message: Seq<u8>, signature: Seq<u8>) -> bool;

/// Root of the SHA-256 Merkle tree over the given leaves, if there is one.
pub uninterp spec fn merkle_root_of(leaves: Seq<Seq<u8>>) -> Option<Seq<u8>>;

/// The 64-bit hash `std`'s default hasher gives a 32-byte digest.
pub uninterp spec fn default_hash_of(data: Seq<u8>) -> u64;

/// Relies on `sha2::Sha256`: the digest of `data`, 32 bytes long.
#[verifier::external_body]
pub(crate) fn sha256(data: &Vec<u8>) -> (r: [u8; 32])
    ensures
        r@ == sha256_of(data@),
{
    sha2::Sha256::digest(data.as_slice()).into()
}

/// Relies on `bs58::encode`; `bs58::decode` reads the text back.
#[verifier::external_body]
pub(crate) fn base58_encode(data: &[u8]) -> (r: String)
    ensures
        r@ == base58_of(data@),
        base58_decoded(r@) == Some(data@),
{
    bs58::encode(data).into_string()
}

/// Relies on `bs58::decode`.
#[verifier::external_body]
pub(crate) fn base58_decode(text: &str) -> (r: Option<Vec<u8>>)
    ensures
        r matches Some(v) ==> base58_decoded(text@) == Some(v@),
        r is None ==> base58_decoded(text@) is None,
{
    bs58::decode(text).into_vec().ok()
}

/// Relies on `libp2p::identity::secp256k1::PublicKey::{try_from_bytes, verify}`;
/// a key that does not decode verifies nothing.
#[verifier::external_body]
pub(crate) fn secp256k1_verify(public_key: &[u8], message: &[u8], signature: &[u8]) -> (r: bool)
    ensures
        r == signature_valid(public_key@, message@, signature@),
{
    match libp2p::identity::secp256k1::PublicKey::try_from_bytes(public_key) {
        Ok(key) => key.verify(message, signature),
        Err(_) => false,
    }
}

/// Relies on `rs_merkle::MerkleTree::<Sha256>::{from_leaves, root}`.
#[verifier::external_body]
pub(crate) fn merkle_root(leaves: &Vec<[u8; 32]>) -> (r: Option<[u8; 32]>)
    ensures
        r matches Some(v) ==> merkle_root_of(leaves@.map_values(|l: [u8; 32]| l@)) == Some(v@),
        r is None ==> merkle_root_of(leaves@.map_values(|l: [u8; 32]| l@)) is None,
{
    rs_merkle::MerkleTree::<rs_merkle::algorithms::Sha256>::from_leaves(leaves.as_slice()).root()
}

/// Relies on `std::hash::DefaultHasher` (fresh, unkeyed) over the digest.
#[verifier::external_body]
pub(crate) fn default_hash(data: &[u8; 32]) -> (r: u64)
    ensures
        r == default_hash_of(data@),
{
    let mut hasher = std::hash::DefaultHasher::new();
    data.hash(&mut hasher);
    hasher.finish()
}

/// Big-endian bytes of a 64-bit integer.
pub open spec fn be_bytes(n: u64) -> Seq<u8> {
    seq![
        (n / 0x100_0000_0000_0000) as u8,
        ((n / 0x1_0000_0000_0000) % 256) as u8,
        ((n / 0x100_0000_0000) % 256) as u8,
        ((n / 0x1_0000_0000) % 256) as u8,
        ((n / 0x100_0000) % 256) as u8,
        ((n / 0x1_0000) % 256) as u8,
        ((n / 0x100) % 256) as u8,
        (n % 256) as u8,
    ]
}

/// Appends the big-endian bytes of `n`.
pub fn push_be_bytes(out: &mut Vec<u8>, n: u64)
    ensures
        final(out)@ == old(out)@ + be_bytes(n),
{
    out.push((n / 0x100_0000_0000_0000) as u8);
    out.push(((n / 0x1_0000_0000_0000) % 256) as u8);
    out.push(((n / 0x100_0000_0000) % 256) as u8);
    out.push(((n / 0x1_0000_0000) % 256) as u8);
    out.push(((n / 0x100_0000) % 256) as u8);
    out.push(((n / 0x1_0000) % 256) as u8);
    out.push(((n / 0x100) % 256) as u8);
    out.push((n % 256) as u8);
    assert(final(out)@ =~= old(out)@ + be_bytes(n));
}

/// Appends a byte string.
pub fn push_bytes(out: &mut Vec<u8>, data: &[u8])
    ensures
        final(out)@ == old(out)@ + data@,
{
    let ghost start = out@;
    let mut i: usize = 0;
    while i < data.len()
        invariant
            i <= data@.len(),
            out@ == start + data@.subrange(0, i as int),
        decreases data@.len() - i,
    {
        out.push(data[i]);
        i = i + 1;
        assert(out@ =~= start + data@.subrange(0, i as int));
    }
    assert(data@.subrange(0, data@.len() as int) =~= data@);
}

} // verus!
