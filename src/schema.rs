//! Key layout of the durable store.
use crate::text::{decimal_digits, u128_text};
use vstd::prelude::*;
use vstd::string::StringExecFns;

verus! {

/// The set of known wallets.
pub const ALL_WALLETS_KEY: &'static str = "account.all_wallets";

/// The hash of the most recent committed transaction.
pub const LATEST_TX_KEY: &'static str = "tx.latest";

/// The hash of the most recent committed block.
pub const LATEST_BLOCK_KEY: &'static str = "block.latest";

/// The account of a wallet: `balance.<wallet>`.
pub fn account_key(wallet: &str) -> (r: String)
    ensures
        r@ == "balance."@ + wallet@,
{
    String::from_str("balance.").concat(wallet)
}

/// A transaction by hash, or the hash list of a wallet: `tx.<value>`.
pub fn tx_key(value: &str) -> (r: String)
    ensures
        r@ == "tx."@ + value@,
{
    String::from_str("tx.").concat(value)
}

/// The hash list of a block's transactions: `tx.<idx>`.
pub fn tx_block_key(idx: u64) -> (r: String)
    ensures
        r@ == "tx."@ + decimal_digits(idx as nat),
{
    String::from_str("tx.").concat(u128_text(idx as u128).as_str())
}

/// A block by hash: `block.<hash>`.
pub fn block_key(hash: &str) -> (r: String)
    ensures
        r@ == "block."@ + hash@,
{
    String::from_str("block.").concat(hash)
}

/// The hash of the block at a height: `block_idx.<idx>`.
pub fn block_idx_key(idx: u64) -> (r: String)
    ensures
        r@ == "block_idx."@ + decimal_digits(idx as nat),
{
    String::from_str("block_idx.").concat(u128_text(idx as u128).as_str())
}

/// The height the next block must have: one past the tip, or 0 on an empty chain.
pub fn next_block_index(latest: Option<u64>) -> (r: Option<u64>)
    ensures
        latest is None ==> r == Some(0u64),
        latest matches Some(l) ==> (l < u64::MAX ==> r == Some((l + 1) as u64)) && (l == u64::MAX
            ==> r is None),
{
    match latest {
        Some(l) => {
            if l == u64::MAX {
                None
            } else {
                Some(l + 1)
            }
        },
        None => Some(0),
    }
}

} // verus!
