//! Properties of the ledger that span several operations.
use crate::account::{account_at_rest, stake_spec, unstake_spec, AccountView};
use crate::block::{block_content_valid, block_signed, block_txs, merkle_digest, BlockView};
use crate::accounts::{has_wallet, index_of, lemma_index_of, lemma_wallets_distinct, wallet_key, Accounts};
use crate::chain::{
    all_applied, block_accepted, elected, link_holds, ordered_accounts, steps_applied,
};
use crate::text::lemma_bytes_cmp_antisymmetric;
use crate::digest::base58_of;
use crate::num::{at_scale, dec_nonneg, pow10, truncated, max_int};
use crate::scale::{lemma_pow10_positive, lemma_rescale, lemma_integral_at, lemma_sum_minus_at, lemma_difference2_at, lemma_difference2_nonneg, lemma_sum_at, lemma_sum_minus_nonneg, lemma_sum_nonneg, lemma_truncated_nonneg};
use crate::operation::{
    fresh_account, mints, sender_step, stake_wallet, transfer_spec, tx_applied,
    tx_outcome, unstake_wallet,
};
use crate::tx::{chained_hash, payload_signed, tx_valid, TxDataView, TxView};
use vstd::prelude::*;

verus! {

pub open spec fn all_at_rest(m: Map<Seq<char>, AccountView>) -> bool {
    forall|w: Seq<char>| #[trigger] m.contains_key(w) ==> account_at_rest(m[w])
}

proof fn lemma_sender_step_at_rest(s0: AccountView, tx: TxView, s2: AccountView)
    requires
        account_at_rest(s0),
        dec_nonneg(tx.data.amount),
        dec_nonneg(tx.data.fee),
        sender_step(s0, tx.data, s2, None),
    ensures
        account_at_rest(s2),
{
    let d = tx.data;
    let s1 = AccountView { nonce: d.nonce, ..s0 };
    if d.to == stake_wallet() {
        assert(stake_spec(s1, d.amount, d.fee, s2, None));
        lemma_difference2_nonneg(s2.balance, s1.balance, d.amount, d.fee);
        lemma_truncated_nonneg(d.amount);
    } else if d.to == unstake_wallet() {
        assert(unstake_spec(s1, d.amount, d.fee, s2, None));
        lemma_sum_minus_nonneg(s2.balance, s1.balance, d.amount, d.fee);
    } else {
        assert(transfer_spec(s1, d, s2, None));
        lemma_difference2_nonneg(s2.balance, s1.balance, d.amount, d.fee);
    }
}

/// Accounts stay at rest (balance and stake non-negative) through every
/// transaction whose amount and fee are non-negative, accepted or not.
pub proof fn lemma_tx_keeps_accounts_at_rest(
    validator: Seq<char>,
    tx: TxView,
    before: Map<Seq<char>, AccountView>,
    after: Map<Seq<char>, AccountView>,
    err: Option<Seq<char>>,
)
    requires
        all_at_rest(before),
        dec_nonneg(tx.data.amount),
        dec_nonneg(tx.data.fee),
        tx_applied(validator, tx, before, after, err),
    ensures
        all_at_rest(after),
{
    if !mints(tx) && !before.contains_key(tx.data.from) {
        return;
    }
    let (s0, s2, r1, v1) = choose|s0: AccountView, s2: AccountView, r1: AccountView, v1: AccountView|
        #[trigger] tx_outcome(validator, tx, before, after, err, s0, s2, r1, v1);
    if err is Some {
        return;
    }
    let d = tx.data;
    if mints(tx) {
        lemma_sum_nonneg(s0.balance, d.amount, d.fee);
    } else {
        assert(before.contains_key(d.from));
    }
    assert(account_at_rest(s0));
    lemma_sender_step_at_rest(s0, tx, s2);
    let m1 = before.insert(d.from, s2);
    assert(all_at_rest(m1));
    let r0 = if m1.contains_key(d.to) {
        m1[d.to]
    } else {
        fresh_account(d.to)
    };
    assert(account_at_rest(r0));
    lemma_sum_nonneg(r1.balance, r0.balance, d.amount);
    let m2 = m1.insert(d.to, r1);
    assert(all_at_rest(m2));
    let v0 = if m2.contains_key(validator) {
        m2[validator]
    } else {
        fresh_account(validator)
    };
    assert(account_at_rest(v0));
    lemma_sum_nonneg(v1.balance, v0.balance, d.fee);
    assert(after == m2.insert(validator, v1));
}

/// An accepted transaction moves its sender's nonce up by exactly one, to the
/// nonce the transaction carries.
pub proof fn lemma_sender_nonce_advances(
    validator: Seq<char>,
    tx: TxView,
    before: Map<Seq<char>, AccountView>,
    after: Map<Seq<char>, AccountView>,
)
    requires
        tx_applied(validator, tx, before, after, None),
        !mints(tx),
    ensures
        before.contains_key(tx.data.from),
        after.contains_key(tx.data.from),
        after[tx.data.from].nonce == tx.data.nonce,
        tx.data.nonce == before[tx.data.from].nonce + 1,
{
    let (s0, s2, r1, v1) = choose|s0: AccountView, s2: AccountView, r1: AccountView, v1: AccountView|
        #[trigger] tx_outcome(validator, tx, before, after, None, s0, s2, r1, v1);
    let d = tx.data;
    let s1 = AccountView { nonce: d.nonce, ..s0 };
    if d.to == stake_wallet() {
        assert(stake_spec(s1, d.amount, d.fee, s2, None));
    } else if d.to == unstake_wallet() {
        assert(unstake_spec(s1, d.amount, d.fee, s2, None));
    } else {
        assert(transfer_spec(s1, d, s2, None));
    }
    assert(s2.nonce == d.nonce);
    let m1 = before.insert(d.from, s2);
    let m2 = m1.insert(d.to, r1);
    assert(m2[d.from].nonce == d.nonce);
}

/// Every transaction of a committed block is valid: genesis transactions
/// trivially, the others with their recomputed hash and a signed payload. The
/// block's Merkle root matches its transactions and, past genesis, the
/// validator signed it.
pub proof fn lemma_committed_block_sound(
    latest: Option<u64>,
    last_hash: Option<Seq<char>>,
    b: BlockView,
    before: Map<Seq<char>, AccountView>,
    after: Map<Seq<char>, AccountView>,
)
    requires
        block_accepted(latest, last_hash, b, before, after),
    ensures
        b.merkle_root == base58_of(merkle_digest(block_txs(b))),
        b.idx > 0 ==> block_signed(b),
        forall|i: int|
            0 <= i < block_txs(b).len() && (#[trigger] block_txs(b)[i]).block > 0 ==> {
                &&& block_txs(b)[i].hash == chained_hash(
                    block_txs(b)[i].prev_hash,
                    block_txs(b)[i].block,
                    block_txs(b)[i].data,
                )
                &&& payload_signed(block_txs(b)[i].data)
            },
{
}

/// Staged transactions form a chain: each names its predecessor's hash and
/// the last event is the hash of the last one.
pub open spec fn staged_chain(pending: Seq<TxView>, last_event: Seq<char>) -> bool {
    &&& pending.len() > 0 ==> pending.last().hash == last_event
    &&& forall|i: int| 0 < i < pending.len() ==> (#[trigger] pending[i]).prev_hash == pending[i - 1].hash
}

/// Staging a transaction chained after the last event keeps the chain: the new
/// transaction names the previous one's hash.
pub proof fn lemma_staging_extends_chain(
    pending: Seq<TxView>,
    last_event: Seq<char>,
    t: TxView,
)
    requires
        staged_chain(pending, last_event),
        t.prev_hash == last_event,
    ensures
        staged_chain(pending.push(t), t.hash),
        pending.len() > 0 ==> t.prev_hash == pending.last().hash,
{
    let p = pending.push(t);
    assert forall|i: int| 0 < i < p.len() implies (#[trigger] p[i]).prev_hash == p[i - 1].hash by {
        if i < pending.len() {
            assert(p[i] == pending[i]);
            assert(p[i - 1] == pending[i - 1]);
        }
    }
}

pub open spec fn balance_or_zero(m: Map<Seq<char>, AccountView>, w: Seq<char>) -> (int, int) {
    if m.contains_key(w) {
        m[w].balance
    } else {
        (0int, 0int)
    }
}

/// The change of a wallet's balance, written at scale `k`.
pub open spec fn balance_delta(
    before: Map<Seq<char>, AccountView>,
    after: Map<Seq<char>, AccountView>,
    w: Seq<char>,
    k: int,
) -> int {
    at_scale(after[w].balance, k) - at_scale(balance_or_zero(before, w), k)
}


proof fn lemma_same_wallets_prefix(a: Accounts, b: Accounts, i: int)
    requires
        a.wf(),
        b.wf(),
        a@ == b@,
        a.entries@.len() == b.entries@.len(),
        0 <= i <= a.entries@.len(),
    ensures
        forall|j: int| 0 <= j < i ==> (#[trigger] a.entries@[j]).wallet@ == b.entries@[j].wallet@,
    decreases i,
{
    if i == 0 {
        return;
    }
    lemma_same_wallets_prefix(a, b, i - 1);
    let s = a.entries@;
    let t = b.entries@;
    let n = i - 1;
    if s[n].wallet@ != t[n].wallet@ {
        let w = s[n].wallet@;
        let u = t[n].wallet@;
        lemma_index_of(s, n);
        lemma_index_of(t, n);
        assert(has_wallet(t, w));
        let j = index_of(t, w);
        assert(has_wallet(s, u));
        let k = index_of(s, u);
        if j < n {
            assert(t[j].wallet@ == s[j].wallet@);
            lemma_wallets_distinct(s, j, n);
        }
        if k < n {
            assert(s[k].wallet@ == t[k].wallet@);
            lemma_wallets_distinct(t, k, n);
        }
        assert(wallet_key(t[j]) == wallet_key(s[n]));
        assert(wallet_key(s[k]) == wallet_key(t[n]));
        lemma_bytes_cmp_antisymmetric(wallet_key(t[n]), wallet_key(s[n]));
    }
}

/// Two tables holding the same accounts list them in the same order.
pub proof fn lemma_same_table_same_order(a: Accounts, b: Accounts)
    requires
        a.wf(),
        b.wf(),
        a@ == b@,
    ensures
        ordered_accounts(a) == ordered_accounts(b),
{
    a.lemma_len();
    b.lemma_len();
    lemma_same_wallets_prefix(a, b, a.entries@.len() as int);
    let s = a.entries@;
    let t = b.entries@;
    assert forall|i: int| 0 <= i < s.len() implies (#[trigger] s[i])@ == t[i]@ by {
        lemma_index_of(s, i);
        lemma_index_of(t, i);
    }
    assert(ordered_accounts(a) =~= ordered_accounts(b));
}

/// Nodes holding the same accounts elect the same validator from the same seed,
/// whatever order the accounts reached them in.
pub proof fn lemma_election_deterministic(a: Accounts, b: Accounts, seed: u64)
    requires
        a.wf(),
        b.wf(),
        a@ == b@,
    ensures
        elected(ordered_accounts(a), seed) == elected(ordered_accounts(b), seed),
        elected(ordered_accounts(a), seed) matches Some(i) ==> ordered_accounts(a)[i].wallet
            == ordered_accounts(b)[i].wallet,
{
    lemma_same_table_same_order(a, b);
}

/// A scale fine enough for the sender's and validator's balances and the
/// amount and fee of a staking transaction.
pub open spec fn staking_scale(
    validator: Seq<char>,
    tx: TxView,
    before: Map<Seq<char>, AccountView>,
    after: Map<Seq<char>, AccountView>,
) -> int {
    let d = tx.data;
    max_int(
        max_int(max_int(d.amount.1, d.fee.1), max_int(balance_or_zero(before, d.from).1, after[d.from].balance.1)),
        max_int(max_int(balance_or_zero(before, validator).1, after[validator].balance.1), 0),
    )
}

/// Staking and unstaking move value between the sender's balance and stake
/// and pay the fee to the validator, creating none: the sender's balance
/// change, the validator's, and the sender's stake change (as a decimal) sum
/// to zero.
pub proof fn lemma_staking_conserves(
    validator: Seq<char>,
    tx: TxView,
    before: Map<Seq<char>, AccountView>,
    after: Map<Seq<char>, AccountView>,
)
    requires
        tx_applied(validator, tx, before, after, None),
        !mints(tx),
        tx.data.to == stake_wallet() || tx.data.to == unstake_wallet(),
        tx.data.from != tx.data.to,
        tx.data.from != validator,
        tx.data.to != validator,
    ensures
        after.contains_key(tx.data.from) && after.contains_key(validator),
        ({
            let k = staking_scale(validator, tx, before, after);
            balance_delta(before, after, tx.data.from, k) + balance_delta(before, after, validator, k)
                + (after[tx.data.from].stake - before[tx.data.from].stake) * pow10(k as nat) == 0
        }),
{
    let (s0, s2, r1, v1) = choose|s0: AccountView, s2: AccountView, r1: AccountView, v1: AccountView|
        #[trigger] tx_outcome(validator, tx, before, after, None, s0, s2, r1, v1);
    let d = tx.data;
    let s1 = AccountView { nonce: d.nonce, ..s0 };
    let m1 = before.insert(d.from, s2);
    let m2 = m1.insert(d.to, r1);
    assert(after == m2.insert(validator, v1));
    assert(after[d.from] == s2);
    assert(after[validator] == v1);
    assert(balance_or_zero(before, validator) == (if m2.contains_key(validator) { m2[validator] } else { fresh_account(validator) }).balance);
    let k = staking_scale(validator, tx, before, after);
    lemma_sum_at(v1.balance, balance_or_zero(before, validator), d.fee, k);
    let t = truncated(d.amount);
    let p = pow10(k as nat);
    if d.to == stake_wallet() {
        assert(stake_spec(s1, d.amount, d.fee, s2, None));
        lemma_difference2_at(s2.balance, s1.balance, d.amount, d.fee, k);
        lemma_integral_at(d.amount, k);
        assert((s0.stake + t - s0.stake) * p == t * p) by (nonlinear_arith);
    } else {
        assert(unstake_spec(s1, d.amount, d.fee, s2, None));
        lemma_sum_minus_at(s2.balance, s1.balance, d.amount, d.fee, k);
        lemma_integral_at(d.amount, k);
        assert((s0.stake - t - s0.stake) * p == -(t * p)) by (nonlinear_arith);
    }
}

proof fn lemma_states_at_rest(
    validator: Seq<char>,
    txs: Seq<TxView>,
    states: Seq<Map<Seq<char>, AccountView>>,
    i: int,
)
    requires
        steps_applied(validator, txs, states),
        all_at_rest(states[0]),
        forall|k: int|
            0 <= k < txs.len() ==> dec_nonneg((#[trigger] txs[k]).data.amount) && dec_nonneg(
                txs[k].data.fee,
            ),
        0 <= i <= txs.len(),
    ensures
        all_at_rest(states[i]),
    decreases i,
{
    if i > 0 {
        lemma_states_at_rest(validator, txs, states, i - 1);
        assert(tx_applied(validator, txs[i - 1], states[i - 1], states[i], None));
        lemma_tx_keeps_accounts_at_rest(validator, txs[i - 1], states[i - 1], states[i], None);
    }
}

/// A block of transactions with non-negative amounts and fees keeps every
/// account at rest.
pub proof fn lemma_block_keeps_accounts_at_rest(
    validator: Seq<char>,
    txs: Seq<TxView>,
    before: Map<Seq<char>, AccountView>,
    after: Map<Seq<char>, AccountView>,
)
    requires
        all_at_rest(before),
        forall|k: int|
            0 <= k < txs.len() ==> dec_nonneg((#[trigger] txs[k]).data.amount) && dec_nonneg(
                txs[k].data.fee,
            ),
        all_applied(validator, txs, before, after),
    ensures
        all_at_rest(after),
{
    let states = choose|states: Seq<Map<Seq<char>, AccountView>>|
        #[trigger] steps_applied(validator, txs, states) && states[0] == before && states.last()
            == after;
    lemma_states_at_rest(validator, txs, states, txs.len() as int);
}

/// An accepted transaction leaves the nonce of every account but its sender's.
pub proof fn lemma_others_keep_nonce(
    validator: Seq<char>,
    tx: TxView,
    before: Map<Seq<char>, AccountView>,
    after: Map<Seq<char>, AccountView>,
    w: Seq<char>,
)
    requires
        tx_applied(validator, tx, before, after, None),
        w != tx.data.from,
        before.contains_key(w),
    ensures
        after.contains_key(w),
        after[w].nonce == before[w].nonce,
{
    if !mints(tx) && !before.contains_key(tx.data.from) {
        return;
    }
    let (s0, s2, r1, v1) = choose|s0: AccountView, s2: AccountView, r1: AccountView, v1: AccountView|
        #[trigger] tx_outcome(validator, tx, before, after, None, s0, s2, r1, v1);
    let d = tx.data;
    let m1 = before.insert(d.from, s2);
    let m2 = m1.insert(d.to, r1);
    assert(m1[w] == before[w]);
    assert(m2.contains_key(w) && m2[w].nonce == before[w].nonce);
    assert(after == m2.insert(validator, v1));
}

proof fn lemma_nonce_held(
    validator: Seq<char>,
    txs: Seq<TxView>,
    states: Seq<Map<Seq<char>, AccountView>>,
    i: int,
    k: int,
)
    requires
        steps_applied(validator, txs, states),
        0 <= i < k <= txs.len(),
        !mints(txs[i]),
        forall|m: int| i < m < k ==> (#[trigger] txs[m]).data.from != txs[i].data.from,
    ensures
        states[k].contains_key(txs[i].data.from),
        states[k][txs[i].data.from].nonce == txs[i].data.nonce,
    decreases k - i,
{
    let a = txs[i].data.from;
    if k == i + 1 {
        assert(tx_applied(validator, txs[i], states[i], states[i + 1], None));
        lemma_sender_nonce_advances(validator, txs[i], states[i], states[i + 1]);
    } else {
        lemma_nonce_held(validator, txs, states, i, k - 1);
        assert(txs[k - 1].data.from != a);
        assert(tx_applied(validator, txs[k - 1], states[k - 1], states[k], None));
        lemma_others_keep_nonce(validator, txs[k - 1], states[k - 1], states[k], a);
    }
}

/// Within an applied sequence, two successive transactions of one sender
/// carry successive nonces.
pub proof fn lemma_successive_nonces(
    validator: Seq<char>,
    txs: Seq<TxView>,
    states: Seq<Map<Seq<char>, AccountView>>,
    i: int,
    j: int,
)
    requires
        steps_applied(validator, txs, states),
        0 <= i < j < txs.len(),
        txs[i].data.from == txs[j].data.from,
        !mints(txs[i]),
        !mints(txs[j]),
        forall|m: int| i < m < j ==> (#[trigger] txs[m]).data.from != txs[i].data.from,
    ensures
        txs[j].data.nonce == txs[i].data.nonce + 1,
{
    lemma_nonce_held(validator, txs, states, i, j);
    assert(tx_applied(validator, txs[j], states[j], states[j + 1], None));
    lemma_sender_nonce_advances(validator, txs[j], states[j], states[j + 1]);
}

/// Adjacent committed transactions are linked: within a block each names its
/// predecessor's hash, and a block's first names the hash of the last
/// transaction committed before it.
pub proof fn lemma_committed_chain_links(
    latest: Option<u64>,
    last_hash: Option<Seq<char>>,
    b: BlockView,
    before: Map<Seq<char>, AccountView>,
    after: Map<Seq<char>, AccountView>,
)
    requires
        block_accepted(latest, last_hash, b, before, after),
    ensures
        forall|i: int|
            0 < i < block_txs(b).len() ==> (#[trigger] block_txs(b)[i]).prev_hash == block_txs(
                b,
            )[i - 1].hash,
        last_hash matches Some(h) ==> (block_txs(b).len() > 0 ==> block_txs(b)[0].prev_hash == h),
{
    let txs = block_txs(b);
    assert forall|i: int| 0 < i < txs.len() implies (#[trigger] txs[i]).prev_hash == txs[i
        - 1].hash by {
        assert(link_holds(last_hash, txs, i));
    }
    if txs.len() > 0 {
        assert(link_holds(last_hash, txs, 0));
    }
}

/// A payload the mempool admits becomes a valid transaction: it is signed and
/// its hash is the recomputed chaining hash.
pub proof fn lemma_admitted_tx_valid(pool_last_event: Seq<char>, height: u64, d: TxDataView)
    requires
        payload_signed(d),
    ensures
        tx_valid(
            TxView {
                data: d,
                prev_hash: pool_last_event,
                block: height,
                hash: chained_hash(pool_last_event, height, d),
            },
        ),
{
}

/// A genesis block over genesis transactions has a matching Merkle root and
/// only valid transactions.
pub proof fn lemma_genesis_block_content_valid(b: BlockView)
    requires
        b.merkle_root == base58_of(merkle_digest(block_txs(b))),
        forall|i: int| 0 <= i < block_txs(b).len() ==> (#[trigger] block_txs(b)[i]).block == 0,
    ensures
        block_content_valid(b),
{
}

pub open spec fn stake_or_zero(m: Map<Seq<char>, AccountView>, w: Seq<char>) -> int {
    if m.contains_key(w) {
        m[w].stake
    } else {
        0
    }
}

/// What a transfer does to wallet `w`'s balance, written at scale `k`: the
/// sender pays `amount + fee`, the receiver gets `amount`, the validator gets
/// `fee`; a wallet in several roles gets each share.
pub open spec fn transfer_share(validator: Seq<char>, tx: TxView, w: Seq<char>, k: int) -> int {
    role_share(
        w == tx.data.from,
        w == tx.data.to,
        w == validator,
        at_scale(tx.data.amount, k),
        at_scale(tx.data.fee, k),
    )
}

/// A scale fine enough for a transfer's amount and fee and wallet `w`'s
/// balance before and after.
pub open spec fn wallet_scale(
    tx: TxView,
    before: Map<Seq<char>, AccountView>,
    after: Map<Seq<char>, AccountView>,
    w: Seq<char>,
) -> int {
    max_int(
        max_int(max_int(tx.data.amount.1, tx.data.fee.1), max_int(balance_or_zero(before, w).1, balance_or_zero(after, w).1)),
        0,
    )
}

/// A wallet's share of a transfer given its roles.
pub open spec fn role_share(from: bool, to: bool, fees: bool, a: int, f: int) -> int {
    (if from {
        -(a + f)
    } else {
        0
    }) + (if to {
        a
    } else {
        0
    }) + (if fees {
        f
    } else {
        0
    })
}

proof fn lemma_role_share_scales(from: bool, to: bool, fees: bool, a: int, f: int, p: int)
    ensures
        role_share(from, to, fees, a * p, f * p) == role_share(from, to, fees, a, f) * p,
{
    let t1 = if from { -(a + f) } else { 0 };
    let t2 = if to { a } else { 0 };
    let t3 = if fees { f } else { 0 };
    assert((t1 + t2 + t3) * p == t1 * p + t2 * p + t3 * p) by (nonlinear_arith);
    if from {
        assert(-(a * p + f * p) == -(a + f) * p) by (nonlinear_arith);
    }
}

proof fn lemma_share_down(
    x1: (int, int),
    x0: (int, int),
    a: (int, int),
    f: (int, int),
    from: bool,
    to: bool,
    fees: bool,
    k: int,
    kk: int,
)
    requires
        x1.1 <= k,
        x0.1 <= k,
        a.1 <= k,
        f.1 <= k,
        k <= kk,
        at_scale(x1, kk) - at_scale(x0, kk) == role_share(from, to, fees, at_scale(a, kk), at_scale(f, kk)),
    ensures
        at_scale(x1, k) - at_scale(x0, k) == role_share(from, to, fees, at_scale(a, k), at_scale(f, k)),
{
    lemma_rescale(x1, k, kk);
    lemma_rescale(x0, k, kk);
    lemma_rescale(a, k, kk);
    lemma_rescale(f, k, kk);
    lemma_pow10_positive((kk - k) as nat);
    let p = pow10((kk - k) as nat);
    let (y1, y0, ya, yf) = (at_scale(x1, k), at_scale(x0, k), at_scale(a, k), at_scale(f, k));
    lemma_role_share_scales(from, to, fees, ya, yf, p);
    let e = role_share(from, to, fees, ya, yf);
    assert(y1 * p - y0 * p == (y1 - y0) * p) by (nonlinear_arith);
    assert((y1 - y0) * p == e * p ==> y1 - y0 == e) by (nonlinear_arith)
        requires p > 0;
}

/// An accepted transfer changes each wallet's balance by exactly its share
/// and leaves every stake as it was. Sender, receiver and validator may be
/// the same wallet.
pub proof fn lemma_transfer_moves_shares(
    validator: Seq<char>,
    tx: TxView,
    before: Map<Seq<char>, AccountView>,
    after: Map<Seq<char>, AccountView>,
    w: Seq<char>,
)
    requires
        tx_applied(validator, tx, before, after, None),
        !mints(tx),
        tx.data.to != stake_wallet(),
        tx.data.to != unstake_wallet(),
    ensures
        ({
            let k = wallet_scale(tx, before, after, w);
            at_scale(balance_or_zero(after, w), k) - at_scale(balance_or_zero(before, w), k)
                == transfer_share(validator, tx, w, k)
        }),
        stake_or_zero(after, w) == stake_or_zero(before, w),
{
    let (s0, s2, r1, v1) = choose|s0: AccountView, s2: AccountView, r1: AccountView, v1: AccountView|
        #[trigger] tx_outcome(validator, tx, before, after, None, s0, s2, r1, v1);
    let d = tx.data;
    let s1 = AccountView { nonce: d.nonce, ..s0 };
    assert(transfer_spec(s1, d, s2, None));
    let m1 = before.insert(d.from, s2);
    let r0 = if m1.contains_key(d.to) { m1[d.to] } else { fresh_account(d.to) };
    let m2 = m1.insert(d.to, r1);
    let v0 = if m2.contains_key(validator) { m2[validator] } else { fresh_account(validator) };
    assert(after == m2.insert(validator, v1));
    let k = wallet_scale(tx, before, after, w);
    let b0 = balance_or_zero(before, w);
    let b1 = balance_or_zero(m1, w);
    let b2 = balance_or_zero(m2, w);
    let b3 = balance_or_zero(after, w);
    let kk = max_int(
        max_int(max_int(k, max_int(s2.balance.1, s0.balance.1)), max_int(r0.balance.1, r1.balance.1)),
        max_int(max_int(v0.balance.1, v1.balance.1), max_int(b1.1, b2.1)),
    );
    lemma_difference2_at(s2.balance, s1.balance, d.amount, d.fee, kk);
    lemma_sum_at(r1.balance, r0.balance, d.amount, kk);
    lemma_sum_at(v1.balance, v0.balance, d.fee, kk);
    assert(r0.balance == b1 || w != d.to);
    assert(v0.balance == b2 || w != validator);
    let (a, f) = (at_scale(d.amount, kk), at_scale(d.fee, kk));
    assert(at_scale(b1, kk) - at_scale(b0, kk) == (if w == d.from { -(a + f) } else { 0 }));
    assert(at_scale(b2, kk) - at_scale(b1, kk) == (if w == d.to { a } else { 0 }));
    assert(at_scale(b3, kk) - at_scale(b2, kk) == (if w == validator { f } else { 0 }));
    lemma_share_down(b3, b0, d.amount, d.fee, w == d.from, w == d.to, w == validator, k, kk);
}

/// The shares of a transfer cancel: summed over the distinct wallets among
/// sender, receiver and validator, they come to zero.
pub proof fn lemma_transfer_shares_cancel(validator: Seq<char>, tx: TxView, k: int)
    ensures
        transfer_share(validator, tx, tx.data.from, k) + (if tx.data.to != tx.data.from {
            transfer_share(validator, tx, tx.data.to, k)
        } else {
            0
        }) + (if validator != tx.data.from && validator != tx.data.to {
            transfer_share(validator, tx, validator, k)
        } else {
            0
        }) == 0,
{
}

} // verus!
