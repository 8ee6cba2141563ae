//! Applying one transaction to the account table.
use crate::account::{
    error_text, invalid_nonce, not_enough_balance, only_balance_changed, stake_spec, unstake_spec,
    Account, AccountView,
};
use crate::accounts::Accounts;
use crate::num::{dec_lt_sum, is_difference2, is_sum};
use crate::scale::{lemma_difference_of_sum, lemma_lt_of_sum, lemma_zero_plus_sum};
use crate::tx::{payload_in_range, Tx, TxDataView, TxView};
use vstd::prelude::*;
use vstd::string::StringExecFns;

verus! {

pub open spec fn genesis_wallet() -> Seq<char> {
    "GENESIS"@
}

pub open spec fn stake_wallet() -> Seq<char> {
    "STAKE"@
}

pub open spec fn unstake_wallet() -> Seq<char> {
    "UNSTAKE"@
}

pub open spec fn fresh_account(wallet: Seq<char>) -> AccountView {
    AccountView { wallet, balance: (0int, 0int), nonce: 0, stake: 0 }
}

/// A genesis transaction mints its own funds.
pub open spec fn mints(tx: TxView) -> bool {
    tx.data.from == genesis_wallet() && tx.block == 0
}

/// The sender's account as the transaction finds it: a freshly minted genesis
/// account holding `amount + fee`, or the stored one.
pub open spec fn sender_start(
    tx: TxView,
    before: Map<Seq<char>, AccountView>,
    s0: AccountView,
) -> bool {
    if mints(tx) {
        &&& s0.wallet == genesis_wallet()
        &&& s0.nonce == 0
        &&& s0.stake == 0
        &&& is_sum(s0.balance, tx.data.amount, tx.data.fee)
    } else {
        before.contains_key(tx.data.from) && s0 == before[tx.data.from]
    }
}

/// A transfer takes `amount + fee` from the sender.
pub open spec fn transfer_spec(
    before: AccountView,
    d: TxDataView,
    after: AccountView,
    err: Option<Seq<char>>,
) -> bool {
    if dec_lt_sum(before.balance, d.amount, d.fee) {
        err == Some(not_enough_balance()) && after == before
    } else {
        err is None && only_balance_changed(before, after) && is_difference2(
            after.balance,
            before.balance,
            d.amount,
            d.fee,
        )
    }
}

/// The sender's own step: the nonce, then staking, unstaking or paying.
pub open spec fn sender_step(
    s0: AccountView,
    d: TxDataView,
    s2: AccountView,
    err: Option<Seq<char>>,
) -> bool {
    if d.nonce as int != s0.nonce as int + 1 {
        err == Some(invalid_nonce((s0.nonce + 1) as nat, d.nonce as nat))
    } else {
        let s1 = AccountView { nonce: d.nonce, ..s0 };
        if d.to == stake_wallet() {
            stake_spec(s1, d.amount, d.fee, s2, err)
        } else if d.to == unstake_wallet() {
            unstake_spec(s1, d.amount, d.fee, s2, err)
        } else {
            transfer_spec(s1, d, s2, err)
        }
    }
}

/// After the sender's step: the receiver is credited `amount` and the
/// validator `fee`, each account created on first credit.
pub open spec fn credits_landed(
    validator: Seq<char>,
    d: TxDataView,
    m1: Map<Seq<char>, AccountView>,
    r1: AccountView,
    v1: AccountView,
    after: Map<Seq<char>, AccountView>,
) -> bool {
    let r0 = if m1.contains_key(d.to) {
        m1[d.to]
    } else {
        fresh_account(d.to)
    };
    let m2 = m1.insert(d.to, r1);
    let v0 = if m2.contains_key(validator) {
        m2[validator]
    } else {
        fresh_account(validator)
    };
    &&& only_balance_changed(r0, r1)
    &&& is_sum(r1.balance, r0.balance, d.amount)
    &&& only_balance_changed(v0, v1)
    &&& is_sum(v1.balance, v0.balance, d.fee)
    &&& after == m2.insert(validator, v1)
}

pub open spec fn tx_outcome(
    validator: Seq<char>,
    tx: TxView,
    before: Map<Seq<char>, AccountView>,
    after: Map<Seq<char>, AccountView>,
    err: Option<Seq<char>>,
    s0: AccountView,
    s2: AccountView,
    r1: AccountView,
    v1: AccountView,
) -> bool {
    &&& sender_start(tx, before, s0)
    &&& sender_step(s0, tx.data, s2, err)
    &&& err is Some ==> after == before
    &&& err is None ==> credits_landed(
        validator,
        tx.data,
        before.insert(tx.data.from, s2),
        r1,
        v1,
        after,
    )
}

/// What applying `tx` with fees to `validator` does to the table: it fails
/// with the first broken rule and leaves the table as it was, or it applies
/// the sender's step and the two credits.
pub open spec fn tx_applied(
    validator: Seq<char>,
    tx: TxView,
    before: Map<Seq<char>, AccountView>,
    after: Map<Seq<char>, AccountView>,
    err: Option<Seq<char>>,
) -> bool {
    if !mints(tx) && !before.contains_key(tx.data.from) {
        err == Some(not_enough_balance()) && after == before
    } else {
        exists|s0: AccountView, s2: AccountView, r1: AccountView, v1: AccountView|
            #[trigger] tx_outcome(validator, tx, before, after, err, s0, s2, r1, v1)
    }
}

/// Applies `tx` to `accounts`, the fee going to `validator`. On failure the
/// table is left unchanged and the first broken rule is reported.
pub fn process_tx(validator: String, tx: &Tx, accounts: &mut Accounts) -> (r: Result<(), String>)
    requires
        old(accounts).wf(),
        payload_in_range(tx@.data),
    ensures
        final(accounts).wf(),
        tx_applied(validator@, tx@, old(accounts)@, final(accounts)@, error_text(r)),
        r is Err ==> final(accounts)@ == old(accounts)@,
{
    let ghost before = accounts@;
    let from = tx.from();
    let genesis = String::from_str("GENESIS");
    let mut sender = if tx.block == 0 && from == genesis {
        let mut minted = Account::new(genesis);
        let total = tx.amount_with_fee();
        let _ = minted.debit(total);
        proof {
            lemma_zero_plus_sum(minted.balance@, total@, tx.data.amount@, tx.data.fee@);
        }
        minted
    } else {
        match accounts.get(&from) {
            Some(a) => a,
            None => {
                return Err(String::from_str("Not enough balance"));
            },
        }
    };
    let ghost s0 = sender@;
    if let Err(e) = sender.set_nonce(tx.nonce()) {
        proof {
            assert(tx_outcome(validator@, tx@, before, accounts@, Some(e@), s0, s0, s0, s0));
        }
        return Err(e);
    }
    let ghost s1 = sender@;
    let to = tx.to();
    let stake = String::from_str("STAKE");
    let unstake = String::from_str("UNSTAKE");
    let step = if to == stake {
        sender.stake_amount(tx.amount(), tx.fee())
    } else if to == unstake {
        sender.unstake_amount(tx.amount(), tx.fee())
    } else {
        let total = tx.amount_with_fee();
        proof {
            lemma_lt_of_sum(sender.balance@, total@, tx.data.amount@, tx.data.fee@);
        }
        let ghost b1 = sender.balance@;
        let res = sender.credit(total);
        proof {
            if res is Ok {
                lemma_difference_of_sum(sender.balance@, b1, total@, tx.data.amount@, tx.data.fee@);
            }
        }
        res
    };
    if let Err(e) = step {
        proof {
            assert(tx_outcome(validator@, tx@, before, accounts@, Some(e@), s0, sender@, s0, s0));
        }
        return Err(e);
    }
    let ghost s2 = sender@;
    accounts.insert(sender);
    let ghost m1 = accounts@;
    let mut receiver = accounts.get_or_new(&to);
    let _ = receiver.debit(tx.amount());
    let ghost r1 = receiver@;
    accounts.insert(receiver);
    let mut fees = accounts.get_or_new(&validator);
    let _ = fees.debit(tx.fee());
    let ghost v1 = fees@;
    accounts.insert(fees);
    proof {
        assert(tx_outcome(validator@, tx@, before, accounts@, None, s0, s2, r1, v1));
    }
    Ok(())
}

} // verus!
