//! The mempool: pending transactions staged on a snapshot of committed accounts.
use crate::account::{Account, AccountView};
use crate::accounts::Accounts;
use crate::block::{block_digest, block_signed, merkle_digest, txs_view, Block};
use crate::digest::base58_of;
use crate::num::{dec_lt, decimal_quotient, BigDecimal};
use crate::operation::{process_tx, tx_applied};
use crate::tx::{chained_hash, payload_signed, Tx, TxData, TxDataView, TxView};
use crate::wallet::{signature_of, Wallet};
use vstd::prelude::*;
use vstd::string::StringExecFns;

verus! {

/// The scale of the base fee `10^-11`.
pub const FEE_SCALE: i64 = 11;

/// The lowest accepted fee ratio with `pending` transactions waiting:
/// `10^-11 * max(1, pending)`.
pub open spec fn fee_floor(pending: nat) -> (int, int) {
    (if pending == 0 {
        1int
    } else {
        pending as int
    }, FEE_SCALE as int)
}

/// `amount / fee` as computed for a payload, zero for a zero fee.
pub open spec fn fee_ratio(d: TxDataView) -> (int, int) {
    if d.fee.0 == 0 {
        (0int, 0int)
    } else {
        decimal_quotient(d.amount.0, d.amount.1, d.fee.0, d.fee.1)
    }
}

/// The payload is signed and its amounts are within the library's limits.
pub open spec fn admitted(d: TxData) -> bool {
    payload_signed(d@) && d.admissible()
}

/// The text of an error result, if any.
pub open spec fn result_error<T>(r: Result<T, String>) -> Option<Seq<char>> {
    match r {
        Ok(_) => None,
        Err(e) => Some(e@),
    }
}

pub open spec fn invalid_transaction() -> Seq<char> {
    "Invalid transaction"@
}

pub open spec fn fee_too_low() -> Seq<char> {
    "Fee is to low"@
}

pub struct MemPool {
    pub wallet: Wallet,
    pub current_block: u64,
    pub prev_block_hash: String,
    pub last_event: String,
    pub accounts: Accounts,
    pub pending_txs: Vec<Tx>,
}

impl MemPool {
    pub open spec fn wf(&self) -> bool {
        self.wallet.wf() && self.accounts.wf()
    }

    /// The address fees are paid to and blocks are proposed under.
    pub open spec fn address(&self) -> Seq<char> {
        self.wallet.address_text()
    }

    pub open spec fn pending(&self) -> Seq<TxView> {
        txs_view(self.pending_txs@)
    }

    /// The chained transaction the mempool would build from `d`.
    pub open spec fn staged(&self, d: TxDataView) -> TxView {
        TxView {
            data: d,
            prev_hash: self.last_event@,
            block: self.current_block,
            hash: chained_hash(self.last_event@, self.current_block, d),
        }
    }

    /// An empty mempool at height 0 with no accounts.
    pub fn new(wallet: Wallet) -> (r: MemPool)
        requires
            wallet.wf(),
        ensures
            r.wf(),
            r.address() == wallet.address_text(),
            r.current_block == 0,
            r.prev_block_hash@ == Seq::<char>::empty(),
            r.last_event@ == Seq::<char>::empty(),
            r.accounts@ == Map::<Seq<char>, AccountView>::empty(),
            r.pending_txs@.len() == 0,
    {
        MemPool {
            wallet,
            current_block: 0,
            prev_block_hash: String::new(),
            last_event: String::new(),
            accounts: Accounts::new(),
            pending_txs: Vec::new(),
        }
    }

    /// Replaces the committed snapshot; pending transactions stay.
    pub fn update(
        &mut self,
        prev_block_hash: String,
        current_block: u64,
        last_event: String,
        accounts: Accounts,
    )
        requires
            old(self).wf(),
            accounts.wf(),
        ensures
            final(self).wf(),
            final(self).wallet == old(self).wallet,
            final(self).prev_block_hash@ == prev_block_hash@,
            final(self).current_block == current_block,
            final(self).last_event@ == last_event@,
            final(self).accounts@ == accounts@,
            final(self).pending_txs@ == old(self).pending_txs@,
    {
        self.prev_block_hash = prev_block_hash;
        self.current_block = current_block;
        self.last_event = last_event;
        self.accounts = accounts;
    }

    /// Admits a signed payload: checks the signature, the amounts' range and
    /// the fee floor, chains it after the last staged event and applies it to
    /// the snapshot.
    pub fn add_tx(&mut self, tx_data: TxData) -> (r: Result<Tx, String>)
        requires
            old(self).wf(),
        ensures
            final(self).wf(),
            final(self).wallet == old(self).wallet,
            final(self).current_block == old(self).current_block,
            final(self).prev_block_hash@ == old(self).prev_block_hash@,
            !admitted(tx_data) ==> (r matches Err(e) && e@ == invalid_transaction()),
            admitted(tx_data) && dec_lt(fee_ratio(tx_data@), fee_floor(old(self).pending_txs@.len()))
                ==> (r matches Err(e) && e@ == fee_too_low()),
            admitted(tx_data) && !dec_lt(
                fee_ratio(tx_data@),
                fee_floor(old(self).pending_txs@.len()),
            ) ==> tx_applied(
                old(self).address(),
                old(self).staged(tx_data@),
                old(self).accounts@,
                final(self).accounts@,
                result_error(r),
            ),
            r matches Ok(t) ==> {
                &&& t@ == old(self).staged(tx_data@)
                &&& final(self).pending() == old(self).pending().push(t@)
                &&& final(self).last_event@ == t@.hash
            },
            r is Err ==> {
                &&& final(self).accounts@ == old(self).accounts@
                &&& final(self).pending() == old(self).pending()
                &&& final(self).last_event@ == old(self).last_event@
            },
    {
        if !tx_data.is_admissible() || !tx_data.valid() {
            return Err(String::from_str("Invalid transaction"));
        }
        let floor = self.current_fee();
        if tx_data.fee_amount().less_than(&floor) {
            return Err(String::from_str("Fee is to low"));
        }
        let tx = Tx::from_tx(tx_data, self.last_event.clone(), self.current_block);
        let validator = self.wallet.address_str();
        match process_tx(validator, &tx, &mut self.accounts) {
            Err(e) => Err(e),
            Ok(()) => {
                let ghost before = self.pending();
                let hash = tx.hash_str();
                self.pending_txs.push(tx.clone());
                proof {
                    assert(self.pending() =~= before.push(tx@));
                }
                self.last_event = hash;
                Ok(tx)
            },
        }
    }

    /// The staged account of `wallet`, if any.
    pub fn get_account(&self, wallet: String) -> (r: Option<Account>)
        requires
            self.wf(),
        ensures
            r is None <==> !self.accounts@.contains_key(wallet@),
            r matches Some(a) ==> a@ == self.accounts@[wallet@],
    {
        self.accounts.get(&wallet)
    }

    /// The staged nonce of `wallet`, 0 for an unknown wallet.
    pub fn get_nonce(&self, wallet: String) -> (r: u64)
        requires
            self.wf(),
        ensures
            self.accounts@.contains_key(wallet@) ==> r == self.accounts@[wallet@].nonce,
            !self.accounts@.contains_key(wallet@) ==> r == 0,
    {
        match self.accounts.get(&wallet) {
            Some(a) => a.nonce,
            None => 0,
        }
    }

    /// Proposes a block of all pending transactions when `validator` is this
    /// node's wallet; the pending list is then emptied.
    pub fn new_block(&mut self, validator: String) -> (r: Option<Block>)
        requires
            old(self).wf(),
        ensures
            final(self).wf(),
            final(self).wallet == old(self).wallet,
            final(self).current_block == old(self).current_block,
            final(self).prev_block_hash@ == old(self).prev_block_hash@,
            final(self).last_event@ == old(self).last_event@,
            final(self).accounts@ == old(self).accounts@,
            validator@ != old(self).address() ==> r is None && final(self).pending_txs@
                == old(self).pending_txs@,
            validator@ == old(self).address() ==> (r matches Some(b) && {
                &&& b@.idx == old(self).current_block
                &&& b@.validator == old(self).address()
                &&& b@.parent_hash == old(self).prev_block_hash@
                &&& b@.merkle_root == base58_of(merkle_digest(old(self).pending()))
                &&& b@.txs == Some(old(self).pending())
                &&& b@.signature == base58_of(
                    signature_of(old(self).wallet.secret_bytes(), block_digest(b@)),
                )
                &&& block_signed(b@)
                &&& final(self).pending_txs@.len() == 0
            }),
    {
        let own = self.wallet.address_str();
        if validator != own {
            return None;
        }
        let txs = crate::block::clone_txs(&self.pending_txs);
        match Block::new(&self.wallet, self.current_block, self.prev_block_hash.clone(), txs) {
            Ok(block) => {
                self.pending_txs.clear();
                Some(block)
            },
            Err(_) => None,
        }
    }

    /// The fee floor: `10^-11` times the number of pending transactions, at least once.
    pub fn current_fee(&self) -> (r: BigDecimal)
        ensures
            r@ == fee_floor(self.pending_txs@.len()),
    {
        let count = self.pending_txs.len();
        if count == 0 {
            return BigDecimal::from_parts(1, FEE_SCALE);
        }
        BigDecimal::from_parts(count as u64, FEE_SCALE)
    }
}

} // verus!
