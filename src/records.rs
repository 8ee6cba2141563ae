//! Separate balance and stake records of the split account model.
use crate::num::{BigDecimal, BigInt};
use vstd::prelude::*;

verus! {

#[derive(Debug)]
pub struct Balance {
    pub wallet: String,
    pub nonce: u64,
    pub amount: BigDecimal,
}

impl Default for Balance {
    fn default() -> (r: Balance)
        ensures
            r.wallet@ == Seq::<char>::empty(),
            r.nonce == 0,
            r.amount@ == (0int, 0int),
    {
        Balance { wallet: String::new(), nonce: 0, amount: BigDecimal::zero() }
    }
}

impl Balance {
    pub fn wallet(&self) -> (r: String)
        ensures
            r@ == self.wallet@,
    {
        self.wallet.clone()
    }
}

#[derive(Debug)]
pub struct Stake {
    pub wallet: String,
    pub stake: BigInt,
}

impl Default for Stake {
    fn default() -> (r: Stake)
        ensures
            r.wallet@ == Seq::<char>::empty(),
            r.stake@ == 0,
    {
        Stake { wallet: String::new(), stake: BigInt::zero() }
    }
}

impl Stake {
    /// No stake for `wallet`.
    pub fn empty(wallet: String) -> (r: Stake)
        ensures
            r.wallet@ == wallet@,
            r.stake@ == 0,
    {
        Stake { wallet, stake: BigInt::zero() }
    }

    pub fn wallet(&self) -> (r: String)
        ensures
            r@ == self.wallet@,
    {
        self.wallet.clone()
    }

    pub fn stake(&self) -> (r: BigInt)
        ensures
            r@ == self.stake@,
    {
        self.stake.clone()
    }
}

} // verus!
