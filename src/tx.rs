//! Signed transfer payloads and their chained form.
use crate::digest::{
    base58_decode, base58_decoded, base58_encode, base58_of, be_bytes, push_be_bytes, push_bytes,
    secp256k1_verify, sha256, sha256_of, signature_valid,
};
use crate::num::{
    decimal_parse, decimal_quotient, decimal_text, is_sum, scale_ok, BigDecimal, DIVISOR_LIMB_LIMIT,
};
use crate::wallet::{signature_of, Wallet};
use vstd::prelude::*;
use vstd::utf8::encode_utf8;

verus! {

pub ghost struct TxDataView {
    pub from: Seq<char>,
    pub to: Seq<char>,
    pub amount: (int, int),
    pub fee: (int, int),
    pub nonce: u64,
    pub signature: Seq<char>,
}

pub ghost struct TxView {
    pub data: TxDataView,
    pub prev_hash: Seq<char>,
    pub block: u64,
    pub hash: Seq<char>,
}

/// The bytes a payload's digest covers: `from ‖ to ‖ amount text ‖ nonce (big-endian)`.
pub open spec fn payload_bytes(d: TxDataView) -> Seq<u8> {
    encode_utf8(d.from) + encode_utf8(d.to) + encode_utf8(decimal_text(d.amount.0, d.amount.1))
        + be_bytes(d.nonce)
}

/// The digest a payload's signature covers.
pub open spec fn payload_digest(d: TxDataView) -> Seq<u8> {
    sha256_of(payload_bytes(d))
}

/// The signature check: `from` decodes to a 33-byte public key that verifies
/// the Base58-decoded `signature` over the payload digest.
pub open spec fn payload_signed(d: TxDataView) -> bool {
    match base58_decoded(d.from) {
        Some(key) => key.len() == 33 && match base58_decoded(d.signature) {
            Some(sig) => signature_valid(key, payload_digest(d), sig),
            None => false,
        },
        None => false,
    }
}

/// The payload's amount and fee are within the library's scale limit.
pub open spec fn payload_in_range(d: TxDataView) -> bool {
    scale_ok(d.amount) && scale_ok(d.fee)
}

/// The digest chaining a transaction: `H(prev_hash ‖ block (big-endian) ‖ payload digest)`.
pub open spec fn chained_digest(prev_hash: Seq<char>, block: u64, d: TxDataView) -> Seq<u8> {
    sha256_of(encode_utf8(prev_hash) + be_bytes(block) + payload_digest(d))
}

/// The Base58 text of the chaining digest.
pub open spec fn chained_hash(prev_hash: Seq<char>, block: u64, d: TxDataView) -> Seq<char> {
    base58_of(chained_digest(prev_hash, block, d))
}

/// A transaction is valid when it is in the genesis block, or when its hash is
/// the recomputed one and its payload is signed.
pub open spec fn tx_valid(t: TxView) -> bool {
    t.block == 0 || (t.hash == chained_hash(t.prev_hash, t.block, t.data) && payload_signed(t.data))
}

#[derive(Debug)]
pub struct TxData {
    pub from: String,
    pub to: String,
    pub amount: BigDecimal,
    pub fee: BigDecimal,
    pub nonce: u64,
    pub signature: String,
}

impl View for TxData {
    type V = TxDataView;

    open spec fn view(&self) -> TxDataView {
        TxDataView {
            from: self.from@,
            to: self.to@,
            amount: self.amount@,
            fee: self.fee@,
            nonce: self.nonce,
            signature: self.signature@,
        }
    }
}

impl Clone for TxData {
    fn clone(&self) -> (r: TxData)
        ensures
            r@ == self@,
    {
        TxData {
            from: self.from.clone(),
            to: self.to.clone(),
            amount: self.amount.clone(),
            fee: self.fee.clone(),
            nonce: self.nonce,
            signature: self.signature.clone(),
        }
    }
}

impl TxData {
    /// A payload from `wallet` to `to`, signed by the wallet.
    pub fn new(wallet: &Wallet, to: String, amount: String, fee: String, nonce: u64) -> (r: Result<
        TxData,
        String,
    >)
        requires
            wallet.wf(),
        ensures
            r is Ok <==> (decimal_parse(amount@) matches Some(a) && scale_ok(a)) && (decimal_parse(
                fee@,
            ) matches Some(f) && scale_ok(f)),
            r matches Ok(t) ==> {
                &&& t@.from == wallet.address_text()
                &&& t@.to == to@
                &&& decimal_parse(amount@) == Some(t@.amount)
                &&& decimal_parse(fee@) == Some(t@.fee)
                &&& t@.nonce == nonce
                &&& t@.signature == base58_of(signature_of(wallet.secret_bytes(), payload_digest(t@)))
                &&& payload_signed(t@)
            },
    {
        let amount = BigDecimal::from_str(amount.as_str())?;
        let fee = BigDecimal::from_str(fee.as_str())?;
        let mut tx = TxData {
            from: wallet.address_str(),
            to,
            amount,
            fee,
            nonce,
            signature: String::new(),
        };
        let digest = tx.hash();
        let signature = wallet.sign(&digest)?;
        tx.signature = signature;
        Ok(tx)
    }

    pub fn from(&self) -> (r: String)
        ensures
            r@ == self.from@,
    {
        self.from.clone()
    }

    pub fn to(&self) -> (r: String)
        ensures
            r@ == self.to@,
    {
        self.to.clone()
    }

    pub fn amount(&self) -> (r: BigDecimal)
        ensures
            r@ == self.amount@,
    {
        self.amount.clone()
    }

    pub fn nonce(&self) -> (r: u64)
        ensures
            r == self.nonce,
    {
        self.nonce
    }

    pub fn fee(&self) -> (r: BigDecimal)
        ensures
            r@ == self.fee@,
    {
        self.fee.clone()
    }

    pub fn signature(&self) -> (r: String)
        ensures
            r@ == self.signature@,
    {
        self.signature.clone()
    }

    /// The bytes the digest covers.
    pub fn payload(&self) -> (r: Vec<u8>)
        ensures
            r@ == payload_bytes(self@),
    {
        let mut out: Vec<u8> = Vec::new();
        push_bytes(&mut out, self.from.as_str().as_bytes());
        push_bytes(&mut out, self.to.as_str().as_bytes());
        let amount = self.amount.to_string();
        push_bytes(&mut out, amount.as_str().as_bytes());
        push_be_bytes(&mut out, self.nonce);
        assert(out@ =~= payload_bytes(self@));
        out
    }

    /// The digest the signature covers.
    pub fn hash(&self) -> (r: [u8; 32])
        ensures
            r@ == payload_digest(self@),
    {
        sha256(&self.payload())
    }

    /// Checks the signature against the sender's public key.
    pub fn valid(&self) -> (r: bool)
        ensures
            r == payload_signed(self@),
    {
        match base58_decode(self.from.as_str()) {
            Some(key) => {
                if key.len() != 33 {
                    return false;
                }
                match base58_decode(self.signature.as_str()) {
                    Some(sig) => {
                        let digest = self.hash();
                        secp256k1_verify(key.as_slice(), &digest, sig.as_slice())
                    },
                    None => false,
                }
            },
            None => false,
        }
    }

    /// Amount and fee are within the scale limit, and the fee is small enough
    /// to divide by.
    pub open spec fn admissible(&self) -> bool {
        payload_in_range(self@) && self.fee.digits.magnitude@.len() <= DIVISOR_LIMB_LIMIT
    }

    /// Whether amount and fee are within the scale limit.
    pub fn in_range(&self) -> (r: bool)
        ensures
            r == payload_in_range(self@),
    {
        self.amount.in_range() && self.fee.in_range()
    }

    pub fn is_admissible(&self) -> (r: bool)
        ensures
            r == self.admissible(),
    {
        self.amount.in_range() && self.fee.in_range() && self.fee.digits.magnitude.len()
            <= DIVISOR_LIMB_LIMIT
    }

    /// `amount / fee`, or zero when the fee is zero.
    pub fn fee_amount(&self) -> (r: BigDecimal)
        requires
            self.admissible(),
        ensures
            self.fee@.0 == 0 ==> r@ == (0int, 0int),
            self.fee@.0 != 0 ==> r@ == decimal_quotient(
                self.amount@.0,
                self.amount@.1,
                self.fee@.0,
                self.fee@.1,
            ),
    {
        if self.fee.is_zero() {
            return BigDecimal::zero();
        }
        self.amount.divided_by(&self.fee)
    }
}

#[derive(Debug)]
pub struct Tx {
    pub data: TxData,
    pub prev_hash: String,
    pub block: u64,
    pub hash: String,
}

impl View for Tx {
    type V = TxView;

    open spec fn view(&self) -> TxView {
        TxView { data: self.data@, prev_hash: self.prev_hash@, block: self.block, hash: self.hash@ }
    }
}

impl Clone for Tx {
    fn clone(&self) -> (r: Tx)
        ensures
            r@ == self@,
    {
        Tx {
            data: self.data.clone(),
            prev_hash: self.prev_hash.clone(),
            block: self.block,
            hash: self.hash.clone(),
        }
    }
}

impl Tx {
    /// Chains `data` after `prev_hash` in block `block`.
    pub fn from_tx(data: TxData, prev_hash: String, block: u64) -> (r: Tx)
        ensures
            r@.data == data@,
            r@.prev_hash == prev_hash@,
            r@.block == block,
            r@.hash == chained_hash(prev_hash@, block, data@),
    {
        let hash = chained_hash_text(&prev_hash, block, &data);
        Tx { data, prev_hash, block, hash }
    }

    pub fn from(&self) -> (r: String)
        ensures
            r@ == self.data.from@,
    {
        self.data.from.clone()
    }

    pub fn nonce(&self) -> (r: u64)
        ensures
            r == self.data.nonce,
    {
        self.data.nonce
    }

    pub fn to(&self) -> (r: String)
        ensures
            r@ == self.data.to@,
    {
        self.data.to.clone()
    }

    pub fn amount(&self) -> (r: BigDecimal)
        ensures
            r@ == self.data.amount@,
    {
        self.data.amount.clone()
    }

    pub fn fee(&self) -> (r: BigDecimal)
        ensures
            r@ == self.data.fee@,
    {
        self.data.fee.clone()
    }

    /// `amount + fee`.
    pub fn amount_with_fee(&self) -> (r: BigDecimal)
        requires
            payload_in_range(self.data@),
        ensures
            scale_ok(r@),
            is_sum(r@, self.data.amount@, self.data.fee@),
    {
        self.data.amount.plus(&self.data.fee)
    }

    pub fn prev_hash(&self) -> (r: String)
        ensures
            r@ == self.prev_hash@,
    {
        self.prev_hash.clone()
    }

    /// The chaining digest recomputed from the fields.
    pub fn hash(&self) -> (r: [u8; 32])
        ensures
            r@ == chained_digest(self.prev_hash@, self.block, self.data@),
    {
        chained_digest_bytes(&self.prev_hash, self.block, &self.data)
    }

    /// The Base58 text of the recomputed chaining digest.
    pub fn hash_str(&self) -> (r: String)
        ensures
            r@ == chained_hash(self.prev_hash@, self.block, self.data@),
    {
        chained_hash_text(&self.prev_hash, self.block, &self.data)
    }

    /// Genesis transactions are valid; others need their recomputed hash and a
    /// signed payload.
    pub fn valid(&self) -> (r: bool)
        ensures
            r == tx_valid(self@),
    {
        if self.block == 0 {
            return true;
        }
        self.hash == self.hash_str() && self.data.valid()
    }
}

fn chained_digest_bytes(prev_hash: &String, block: u64, data: &TxData) -> (r: [u8; 32])
    ensures
        r@ == chained_digest(prev_hash@, block, data@),
{
    let mut out: Vec<u8> = Vec::new();
    push_bytes(&mut out, prev_hash.as_str().as_bytes());
    push_be_bytes(&mut out, block);
    let digest = data.hash();
    push_bytes(&mut out, &digest);
    assert(out@ =~= encode_utf8(prev_hash@) + be_bytes(block) + payload_digest(data@));
    sha256(&out)
}

fn chained_hash_text(prev_hash: &String, block: u64, data: &TxData) -> (r: String)
    ensures
        r@ == chained_hash(prev_hash@, block, data@),
{
    let digest = chained_digest_bytes(prev_hash, block, data);
    base58_encode(&digest)
}

} // verus!
