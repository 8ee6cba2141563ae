//! Per-wallet account: balance, nonce and stake, with the rules that move them.
use crate::num::{dec_lt, dec_lt_sum, dec_nonneg, is_difference, is_difference2, is_integral, is_sum, is_sum_minus, max_int, scale_of3, scale_ok, truncated, BigDecimal, BigInt};
use crate::scale::{lemma_cmp_at, lemma_difference_at, lemma_identity4_down, lemma_lt_sum_at, lemma_sum_at};
use crate::text::{decimal_digits, u128_text};
use vstd::prelude::*;
use vstd::string::StringExecFns;

verus! {

/// The abstract state of an account.
pub ghost struct AccountView {
    pub wallet: Seq<char>,
    /// `(mantissa, scale)` of the balance.
    pub balance: (int, int),
    pub nonce: u64,
    pub stake: int,
}

pub open spec fn not_enough_balance() -> Seq<char> {
    "Not enough balance"@
}

pub open spec fn not_enough_balance_for_fee() -> Seq<char> {
    "Not enough balance for fee"@
}

pub open spec fn not_enough_stake() -> Seq<char> {
    "Not enough stake"@
}

pub open spec fn stake_must_be_int() -> Seq<char> {
    "Stake must be int"@
}

/// `Invalid nonce, expected: <expected>, was: <was>`.
pub open spec fn invalid_nonce(expected: nat, was: nat) -> Seq<char> {
    "Invalid nonce, expected: "@ + decimal_digits(expected) + ", was: "@ + decimal_digits(was)
}

/// The text of an error, if any.
pub open spec fn error_text(r: Result<(), String>) -> Option<Seq<char>> {
    match r {
        Ok(_) => None,
        Err(e) => Some(e@),
    }
}

/// Account at rest: nothing owed, nothing unstaked beyond what was staked.
pub open spec fn account_at_rest(a: AccountView) -> bool {
    dec_nonneg(a.balance) && a.stake >= 0
}

pub open spec fn only_balance_changed(before: AccountView, after: AccountView) -> bool {
    after.wallet == before.wallet && after.nonce == before.nonce && after.stake == before.stake
}

/// The outcome of `credit(amount)`: take `amount` from the balance.
pub open spec fn credit_spec(
    before: AccountView,
    amount: (int, int),
    after: AccountView,
    err: Option<Seq<char>>,
) -> bool {
    if dec_lt(before.balance, amount) {
        err == Some(not_enough_balance()) && after == before
    } else {
        err is None && only_balance_changed(before, after) && is_difference(
            after.balance,
            before.balance,
            amount,
        )
    }
}

/// The outcome of `debit(amount)`: add `amount` to the balance.
pub open spec fn debit_spec(before: AccountView, amount: (int, int), after: AccountView) -> bool {
    only_balance_changed(before, after) && is_sum(after.balance, before.balance, amount)
}

/// The outcome of `stake_amount(amount, fee)`.
pub open spec fn stake_spec(
    before: AccountView,
    amount: (int, int),
    fee: (int, int),
    after: AccountView,
    err: Option<Seq<char>>,
) -> bool {
    if dec_lt_sum(before.balance, fee, amount) {
        err == Some(not_enough_balance()) && after == before
    } else if !is_integral(amount) {
        err == Some(stake_must_be_int()) && after == before
    } else {
        &&& err is None
        &&& after.wallet == before.wallet
        &&& after.nonce == before.nonce
        &&& after.stake == before.stake + truncated(amount)
        &&& is_difference2(after.balance, before.balance, amount, fee)
    }
}

/// The outcome of `unstake_amount(amount, fee)`.
pub open spec fn unstake_spec(
    before: AccountView,
    amount: (int, int),
    fee: (int, int),
    after: AccountView,
    err: Option<Seq<char>>,
) -> bool {
    if dec_lt(before.balance, fee) {
        err == Some(not_enough_balance_for_fee()) && after == before
    } else if !is_integral(amount) {
        err == Some(stake_must_be_int()) && after == before
    } else if before.stake < truncated(amount) {
        err == Some(not_enough_stake()) && after == before
    } else {
        &&& err is None
        &&& after.wallet == before.wallet
        &&& after.nonce == before.nonce
        &&& after.stake == before.stake - truncated(amount)
        &&& is_sum_minus(after.balance, before.balance, amount, fee)
    }
}

/// The outcome of `set_nonce(nonce)`.
pub open spec fn nonce_spec(before: AccountView, nonce: u64, after: AccountView, err: Option<
    Seq<char>,
>) -> bool {
    if nonce as int != before.nonce as int + 1 {
        err == Some(invalid_nonce((before.nonce + 1) as nat, nonce as nat)) && after == before
    } else {
        err is None && after == AccountView { nonce, ..before }
    }
}

#[derive(Debug)]
pub struct Account {
    pub wallet: String,
    pub balance: BigDecimal,
    pub nonce: u64,
    pub stake: BigInt,
}

impl View for Account {
    type V = AccountView;

    open spec fn view(&self) -> AccountView {
        AccountView {
            wallet: self.wallet@,
            balance: self.balance@,
            nonce: self.nonce,
            stake: self.stake@,
        }
    }
}

impl Clone for Account {
    fn clone(&self) -> (r: Account)
        ensures
            r@ == self@,
    {
        Account {
            wallet: self.wallet.clone(),
            balance: self.balance.clone(),
            nonce: self.nonce,
            stake: self.stake.clone(),
        }
    }
}

impl Account {
    /// A fresh account: zero balance, nonce and stake.
    pub fn new(wallet: String) -> (r: Account)
        ensures
            r@ == (AccountView { wallet: wallet@, balance: (0int, 0int), nonce: 0, stake: 0 }),
    {
        Account { wallet, balance: BigDecimal::zero(), nonce: 0, stake: BigInt::zero() }
    }

    /// Takes `amount` from the balance, failing when the balance is smaller.
    pub fn credit(&mut self, amount: BigDecimal) -> (r: Result<(), String>)
        requires
            scale_ok(old(self).balance@),
            scale_ok(amount@),
        ensures
            scale_ok(final(self).balance@),
            credit_spec(old(self)@, amount@, final(self)@, error_text(r)),
    {
        if self.balance.less_than(&amount) {
            return Err(String::from_str("Not enough balance"));
        }
        self.balance = self.balance.minus(&amount);
        Ok(())
    }

    /// Adds `amount` to the balance.
    pub fn debit(&mut self, amount: BigDecimal) -> (r: Result<(), String>)
        requires
            scale_ok(old(self).balance@),
            scale_ok(amount@),
        ensures
            scale_ok(final(self).balance@),
            r is Ok,
            debit_spec(old(self)@, amount@, final(self)@),
    {
        self.balance = self.balance.plus(&amount);
        Ok(())
    }

    /// Moves the integer `amount` from the balance into the stake and pays `fee`.
    pub fn stake_amount(&mut self, amount: BigDecimal, fee: BigDecimal) -> (r: Result<(), String>)
        requires
            scale_ok(old(self).balance@),
            scale_ok(amount@),
            scale_ok(fee@),
        ensures
            scale_ok(final(self).balance@),
            stake_spec(old(self)@, amount@, fee@, final(self)@, error_text(r)),
    {
        let total = fee.plus(&amount);
        let ghost k = max_int(max_int(scale_of3(self.balance@, fee@, amount@), total@.1), 0);
        proof {
            lemma_sum_at(total@, fee@, amount@, k);
            lemma_cmp_at(self.balance@, total@, k);
            lemma_lt_sum_at(self.balance@, fee@, amount@, k);
        }
        if self.balance.less_than(&total) {
            return Err(String::from_str("Not enough balance"));
        }
        let stake = match amount.to_bigint() {
            Some(s) => s,
            None => {
                return Err(String::from_str("Stake must be int"));
            },
        };
        let ghost b0 = self.balance@;
        let b1 = self.balance.minus(&amount);
        let b2 = b1.minus(&fee);
        proof {
            let kk = max_int(max_int(k, b1@.1), b2@.1);
            lemma_difference_at(b1@, b0, amount@, kk);
            lemma_difference_at(b2@, b1@, fee@, kk);
            lemma_identity4_down(b2@, b0, amount@, fee@, -1, -1, kk);
        }
        self.balance = b2;
        self.stake = self.stake.plus(&stake);
        Ok(())
    }

    /// Moves the integer `amount` from the stake back to the balance and pays `fee`.
    pub fn unstake_amount(&mut self, amount: BigDecimal, fee: BigDecimal) -> (r: Result<
        (),
        String,
    >)
        requires
            scale_ok(old(self).balance@),
            scale_ok(amount@),
            scale_ok(fee@),
        ensures
            scale_ok(final(self).balance@),
            unstake_spec(old(self)@, amount@, fee@, final(self)@, error_text(r)),
    {
        if self.balance.less_than(&fee) {
            return Err(String::from_str("Not enough balance for fee"));
        }
        let stake = match amount.to_bigint() {
            Some(s) => s,
            None => {
                return Err(String::from_str("Stake must be int"));
            },
        };
        if let core::cmp::Ordering::Less = self.stake.compare(&stake) {
            return Err(String::from_str("Not enough stake"));
        }
        let ghost b0 = self.balance@;
        let b1 = self.balance.plus(&amount);
        let b2 = b1.minus(&fee);
        proof {
            let kk = max_int(
                max_int(scale_of3(b0, amount@, fee@), b1@.1),
                b2@.1,
            );
            lemma_sum_at(b1@, b0, amount@, kk);
            lemma_difference_at(b2@, b1@, fee@, kk);
            lemma_identity4_down(b2@, b0, amount@, fee@, 1, -1, kk);
        }
        self.balance = b2;
        self.stake = self.stake.minus(&stake);
        Ok(())
    }

    /// Accepts `nonce` only as the successor of the current one.
    pub fn set_nonce(&mut self, nonce: u64) -> (r: Result<(), String>)
        ensures
            nonce_spec(old(self)@, nonce, final(self)@, error_text(r)),
    {
        let expected: u128 = self.nonce as u128 + 1;
        if expected != nonce as u128 {
            let msg = String::from_str("Invalid nonce, expected: ").concat(
                u128_text(expected).as_str(),
            ).concat(", was: ").concat(u128_text(nonce as u128).as_str());
            return Err(msg);
        }
        self.nonce = nonce;
        Ok(())
    }

    pub fn wallet(&self) -> (r: String)
        ensures
            r@ == self.wallet@,
    {
        self.wallet.clone()
    }

    pub fn balance(&self) -> (r: BigDecimal)
        ensures
            r@ == self.balance@,
    {
        self.balance.clone()
    }

    pub fn nonce(&self) -> (r: u64)
        ensures
            r == self.nonce,
    {
        self.nonce
    }

    pub fn stake(&self) -> (r: BigInt)
        ensures
            r@ == self.stake@,
    {
        self.stake.clone()
    }
}

} // verus!
