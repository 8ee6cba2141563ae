//! Blocks: an ordered batch of transactions committed at a height, signed by
//! the validator that proposed it.
use crate::digest::{
    base58_decode, base58_decoded, base58_encode, base58_of, be_bytes, merkle_root, merkle_root_of,
    push_be_bytes, push_bytes, secp256k1_verify, sha256, sha256_of, signature_valid,
};
use crate::tx::{chained_digest, chained_hash, tx_valid, Tx, TxView};
use crate::wallet::{signature_of, Wallet};
use vstd::prelude::*;
use vstd::string::StringExecFns;
use vstd::utf8::encode_utf8;

verus! {

pub ghost struct BlockView {
    pub idx: u64,
    pub validator: Seq<char>,
    pub parent_hash: Seq<char>,
    pub merkle_root: Seq<char>,
    pub txs: Option<Seq<TxView>>,
    pub signature: Seq<char>,
}

/// The transactions of a block; a block stored without them holds none.
pub open spec fn block_txs(b: BlockView) -> Seq<TxView> {
    match b.txs {
        Some(t) => t,
        None => Seq::empty(),
    }
}

/// The Merkle leaves: each transaction's recomputed chaining digest.
pub open spec fn merkle_leaves(txs: Seq<TxView>) -> Seq<Seq<u8>> {
    txs.map_values(|t: TxView| chained_digest(t.prev_hash, t.block, t.data))
}

/// The Merkle root over the leaves, or 32 zero bytes when there is none.
pub open spec fn merkle_digest(txs: Seq<TxView>) -> Seq<u8> {
    match merkle_root_of(merkle_leaves(txs)) {
        Some(r) => r,
        None => Seq::new(32, |i: int| 0u8),
    }
}

/// The bytes a block's digest covers: `idx (big-endian) ‖ validator ‖ parent ‖ merkle root`.
pub open spec fn header_bytes(b: BlockView) -> Seq<u8> {
    be_bytes(b.idx) + encode_utf8(b.validator) + encode_utf8(b.parent_hash) + encode_utf8(
        b.merkle_root,
    )
}

pub open spec fn block_digest(b: BlockView) -> Seq<u8> {
    sha256_of(header_bytes(b))
}

pub open spec fn block_hash(b: BlockView) -> Seq<char> {
    base58_of(block_digest(b))
}

/// The validator's address decodes to a 33-byte key that verifies the
/// Base58-decoded signature over the block digest.
pub open spec fn block_signed(b: BlockView) -> bool {
    match base58_decoded(b.validator) {
        Some(key) => key.len() == 33 && match base58_decoded(b.signature) {
            Some(sig) => signature_valid(key, block_digest(b), sig),
            None => false,
        },
        None => false,
    }
}

/// A block is valid when its Merkle root matches its transactions, every
/// transaction is valid, and the validator signed it.
pub open spec fn block_valid(b: BlockView) -> bool {
    block_content_valid(b) && block_signed(b)
}

/// The Merkle root matches the transactions and each transaction is valid.
pub open spec fn block_content_valid(b: BlockView) -> bool {
    merkle_matches(b) && all_txs_valid(b)
}

/// The stored Merkle root is the one of the block's transactions.
pub open spec fn merkle_matches(b: BlockView) -> bool {
    b.merkle_root == base58_of(merkle_digest(block_txs(b)))
}

pub open spec fn all_txs_valid(b: BlockView) -> bool {
    forall|i: int| 0 <= i < block_txs(b).len() ==> tx_valid(#[trigger] block_txs(b)[i])
}

pub open spec fn txs_view(txs: Seq<Tx>) -> Seq<TxView> {
    txs.map_values(|t: Tx| t@)
}

#[derive(Debug)]
pub struct Block {
    pub idx: u64,
    pub validator: String,
    pub parent_hash: String,
    pub merkle_root: String,
    pub txs: Option<Vec<Tx>>,
    pub signature: String,
}

impl View for Block {
    type V = BlockView;

    open spec fn view(&self) -> BlockView {
        BlockView {
            idx: self.idx,
            validator: self.validator@,
            parent_hash: self.parent_hash@,
            merkle_root: self.merkle_root@,
            txs: match self.txs {
                Some(t) => Some(txs_view(t@)),
                None => None,
            },
            signature: self.signature@,
        }
    }
}

/// Copies a list of transactions.
pub fn clone_txs(txs: &Vec<Tx>) -> (r: Vec<Tx>)
    ensures
        txs_view(r@) == txs_view(txs@),
{
    let mut out: Vec<Tx> = Vec::new();
    let mut i: usize = 0;
    while i < txs.len()
        invariant
            i <= txs@.len(),
            out@.len() == i,
            forall|j: int| 0 <= j < i ==> (#[trigger] out@[j])@ == txs@[j]@,
        decreases txs@.len() - i,
    {
        out.push(txs[i].clone());
        i = i + 1;
    }
    assert(txs_view(out@) =~= txs_view(txs@));
    out
}

impl Clone for Block {
    fn clone(&self) -> (r: Block)
        ensures
            r@ == self@,
    {
        Block {
            idx: self.idx,
            validator: self.validator.clone(),
            parent_hash: self.parent_hash.clone(),
            merkle_root: self.merkle_root.clone(),
            txs: match &self.txs {
                Some(t) => Some(clone_txs(t)),
                None => None,
            },
            signature: self.signature.clone(),
        }
    }
}

/// Whether every transaction of the list is valid.
fn all_valid(txs: &Vec<Tx>) -> (r: bool)
    ensures
        r == forall|j: int| 0 <= j < txs@.len() ==> tx_valid(#[trigger] txs@[j]@),
{
    let mut i: usize = 0;
    while i < txs.len()
        invariant
            i <= txs@.len(),
            forall|j: int| 0 <= j < i ==> tx_valid(#[trigger] txs@[j]@),
        decreases txs@.len() - i,
    {
        if !txs[i].valid() {
            return false;
        }
        i = i + 1;
    }
    true
}

fn merkle_root_text(txs: &Vec<Tx>) -> (r: String)
    ensures
        r@ == base58_of(merkle_digest(txs_view(txs@))),
{
    let root = Block::merkle_root(txs);
    base58_encode(&root)
}

impl Block {
    /// A block of `txs` at height `idx` on top of `parent_hash`, signed by `wallet`.
    pub fn new(wallet: &Wallet, idx: u64, parent_hash: String, txs: Vec<Tx>) -> (r: Result<
        Block,
        String,
    >)
        requires
            wallet.wf(),
        ensures
            r matches Ok(b) && {
                &&& b@.idx == idx
                &&& b@.validator == wallet.address_text()
                &&& b@.parent_hash == parent_hash@
                &&& b@.merkle_root == base58_of(merkle_digest(txs_view(txs@)))
                &&& b@.txs == Some(txs_view(txs@))
                &&& b@.signature == base58_of(signature_of(wallet.secret_bytes(), block_digest(b@)))
                &&& block_signed(b@)
            },
    {
        let merkle_root = merkle_root_text(&txs);
        let mut block = Block {
            idx,
            validator: wallet.address_str(),
            parent_hash,
            merkle_root,
            txs: Some(txs),
            signature: String::new(),
        };
        let digest = block.hash();
        let signature = wallet.sign(&digest)?;
        block.signature = signature;
        Ok(block)
    }

    /// The genesis block: height 0, all-zero validator and parent, signature `GENESIS`.
    pub fn genesis(txs: Vec<Tx>) -> (r: Block)
        ensures
            r@.idx == 0,
            r@.validator == base58_of(Seq::new(33, |i: int| 0u8)),
            r@.parent_hash == base58_of(Seq::new(32, |i: int| 0u8)),
            r@.merkle_root == base58_of(merkle_digest(txs_view(txs@))),
            r@.txs == Some(txs_view(txs@)),
            r@.signature == "GENESIS"@,
    {
        let merkle_root = merkle_root_text(&txs);
        let validator = [0u8; 33];
        let parent = [0u8; 32];
        assert(validator@ =~= Seq::new(33, |i: int| 0u8));
        assert(parent@ =~= Seq::new(32, |i: int| 0u8));
        Block {
            idx: 0,
            validator: base58_encode(&validator),
            parent_hash: base58_encode(&parent),
            merkle_root,
            txs: Some(txs),
            signature: String::from_str("GENESIS"),
        }
    }

    pub fn txs(&self) -> (r: Option<Vec<Tx>>)
        ensures
            r is Some <==> self.txs is Some,
            r matches Some(t) ==> Some(txs_view(t@)) == self@.txs,
    {
        match &self.txs {
            Some(t) => Some(clone_txs(t)),
            None => None,
        }
    }

    /// The header digest.
    pub fn hash(&self) -> (r: [u8; 32])
        ensures
            r@ == block_digest(self@),
    {
        let mut out: Vec<u8> = Vec::new();
        push_be_bytes(&mut out, self.idx);
        push_bytes(&mut out, self.validator.as_str().as_bytes());
        push_bytes(&mut out, self.parent_hash.as_str().as_bytes());
        push_bytes(&mut out, self.merkle_root.as_str().as_bytes());
        assert(out@ =~= header_bytes(self@));
        sha256(&out)
    }

    pub fn idx(&self) -> (r: u64)
        ensures
            r == self.idx,
    {
        self.idx
    }

    pub fn hash_str(&self) -> (r: String)
        ensures
            r@ == block_hash(self@),
    {
        let digest = self.hash();
        base58_encode(&digest)
    }

    /// The recomputed hash of the last transaction, or empty text when there is none.
    pub fn last_event(&self) -> (r: String)
        ensures
            block_txs(self@).len() == 0 ==> r@ == Seq::<char>::empty(),
            block_txs(self@).len() > 0 ==> ({
                let t = block_txs(self@).last();
                r@ == chained_hash(t.prev_hash, t.block, t.data)
            }),
    {
        match &self.txs {
            Some(txs) => {
                if txs.len() == 0 {
                    String::new()
                } else {
                    txs[txs.len() - 1].hash_str()
                }
            },
            None => String::new(),
        }
    }

    /// Merkle root, signatures and every transaction check out.
    pub fn valid(&self) -> (r: bool)
        ensures
            r == block_valid(self@),
    {
        self.content_valid() && self.signed()
    }

    /// The Merkle root matches the transactions and each of them is valid.
    pub fn content_valid(&self) -> (r: bool)
        ensures
            r == block_content_valid(self@),
    {
        self.merkle_valid() && self.txs_valid()
    }

    /// The stored Merkle root is the one recomputed from the transactions.
    pub fn merkle_valid(&self) -> (r: bool)
        ensures
            r == merkle_matches(self@),
    {
        let root = match &self.txs {
            Some(t) => merkle_root_text(t),
            None => {
                let empty: Vec<Tx> = Vec::new();
                assert(txs_view(empty@) =~= Seq::<TxView>::empty());
                merkle_root_text(&empty)
            },
        };
        self.merkle_root == root
    }

    /// Every transaction of the block is valid.
    pub fn txs_valid(&self) -> (r: bool)
        ensures
            r == all_txs_valid(self@),
    {
        match &self.txs {
            Some(t) => {
                let ok = all_valid(t);
                assert(ok == all_txs_valid(self@)) by {
                    assert(block_txs(self@) == txs_view(t@));
                    if forall|j: int| 0 <= j < t@.len() ==> tx_valid(#[trigger] t@[j]@) {
                        assert forall|j: int| 0 <= j < block_txs(self@).len() implies tx_valid(
                            #[trigger] block_txs(self@)[j],
                        ) by {
                            assert(block_txs(self@)[j] == t@[j]@);
                        }
                    }
                    if forall|j: int|
                        0 <= j < block_txs(self@).len() ==> tx_valid(#[trigger] block_txs(self@)[j]) {
                        assert forall|j: int| 0 <= j < t@.len() implies tx_valid(#[trigger] t@[j]@) by {
                            assert(block_txs(self@)[j] == t@[j]@);
                        }
                    }
                }
                ok
            },
            None => true,
        }
    }

    /// The validator's signature over the header digest checks out.
    pub fn signed(&self) -> (r: bool)
        ensures
            r == block_signed(self@),
    {
        match base58_decode(self.validator.as_str()) {
            Some(key) => {
                if key.len() != 33 {
                    return false;
                }
                match base58_decode(self.signature.as_str()) {
                    Some(sig) => {
                        let digest = self.hash();
                        secp256k1_verify(key.as_slice(), &digest, sig.as_slice())
                    },
                    None => false,
                }
            },
            None => false,
        }
    }

    /// Merkle root over the transactions' recomputed digests; 32 zero bytes
    /// for an empty list.
    pub fn merkle_root(txs: &Vec<Tx>) -> (r: [u8; 32])
        ensures
            r@ == merkle_digest(txs_view(txs@)),
    {
        let mut leaves: Vec<[u8; 32]> = Vec::new();
        let mut i: usize = 0;
        while i < txs.len()
            invariant
                i <= txs@.len(),
                leaves@.len() == i,
                forall|j: int| 0 <= j < i ==> (#[trigger] leaves@[j])@ == chained_digest(
                    txs@[j].prev_hash@,
                    txs@[j].block,
                    txs@[j].data@,
                ),
            decreases txs@.len() - i,
        {
            leaves.push(txs[i].hash());
            i = i + 1;
        }
        assert(leaves@.map_values(|l: [u8; 32]| l@) =~= merkle_leaves(txs_view(txs@)));
        match merkle_root(&leaves) {
            Some(root) => root,
            None => {
                let zero = [0u8; 32];
                assert(zero@ =~= Seq::new(32, |i: int| 0u8));
                zero
            },
        }
    }
}

} // verus!
