//! Chain rules: building the genesis transactions, applying a block's
//! transactions, deciding whether a block may be committed on top of the
//! current tip, and electing the next validator by stake.
use crate::account::{Account, AccountView};
use crate::accounts::Accounts;
use crate::block::{
    all_txs_valid, block_content_valid, block_digest, block_signed, block_txs, merkle_matches, txs_view,
    Block,
};
use crate::digest::{base58_encode, base58_of, default_hash, default_hash_of};
use crate::num::BigInt;
use crate::operation::{genesis_wallet, process_tx, tx_applied};
use crate::text::{decimal_digits, u128_text};
use crate::tx::{chained_hash, payload_in_range, Tx, TxData, TxView};
use std::cmp::Ordering;
use vstd::prelude::*;
use vstd::string::StringExecFns;

verus! {

/// Base58 of 32 zero bytes: the hash every chain of events starts from.
pub open spec fn empty_event_hash() -> Seq<char> {
    base58_of(Seq::new(32, |i: int| 0u8))
}

/// Each transaction names its predecessor's hash; the first names `start`.
pub open spec fn linked(start: Seq<char>, txs: Seq<TxView>) -> bool {
    &&& txs.len() > 0 ==> txs[0].prev_hash == start
    &&& forall|i: int| 0 < i < txs.len() ==> (#[trigger] txs[i]).prev_hash == txs[i - 1].hash
}

/// `states` records applying `txs` in order, fees to `validator`, with every
/// transaction accepted: `states[i + 1]` is `states[i]` after `txs[i]`.
pub open spec fn steps_applied(
    validator: Seq<char>,
    txs: Seq<TxView>,
    states: Seq<Map<Seq<char>, AccountView>>,
) -> bool {
    &&& states.len() == txs.len() + 1
    &&& forall|i: int|
        0 <= i < txs.len() ==> tx_applied(
            validator,
            #[trigger] txs[i],
            states[i],
            states[i + 1],
            None,
        )
}

/// Applying `txs` in order, fees to `validator`, takes `before` to `after`
/// with every transaction accepted.
pub open spec fn all_applied(
    validator: Seq<char>,
    txs: Seq<TxView>,
    before: Map<Seq<char>, AccountView>,
    after: Map<Seq<char>, AccountView>,
) -> bool {
    exists|states: Seq<Map<Seq<char>, AccountView>>|
        #[trigger] steps_applied(validator, txs, states) && states[0] == before && states.last()
            == after
}

pub open spec fn out_of_range() -> Seq<char> {
    "Amount out of range"@
}

/// The transaction at `i` is the first to fail, with `err`, after the ones
/// before it were accepted: its amount or fee is beyond the scale limit, or
/// applying it breaks a rule.
pub open spec fn fails_at(
    validator: Seq<char>,
    txs: Seq<TxView>,
    before: Map<Seq<char>, AccountView>,
    i: int,
    err: Seq<char>,
) -> bool {
    &&& 0 <= i < txs.len()
    &&& exists|states: Seq<Map<Seq<char>, AccountView>>|
        #[trigger] steps_applied(validator, txs.subrange(0, i), states) && states[0] == before
            && if payload_in_range(txs[i].data) {
            tx_applied(validator, txs[i], states.last(), states.last(), Some(err))
        } else {
            err == out_of_range()
        }
}

/// Chains genesis payloads in order at height 0, starting from the empty hash.
pub fn build_genesis_txs(txs_data: Vec<TxData>) -> (r: Vec<Tx>)
    ensures
        r@.len() == txs_data@.len(),
        linked(empty_event_hash(), txs_view(r@)),
        forall|i: int|
            0 <= i < r@.len() ==> {
                &&& (#[trigger] r@[i])@.data == txs_data@[i]@
                &&& r@[i]@.block == 0
                &&& r@[i]@.hash == chained_hash(r@[i]@.prev_hash, 0, r@[i]@.data)
            },
{
    let mut txs: Vec<Tx> = Vec::new();
    let mut latest = default_empty_hash();
    let mut i: usize = 0;
    while i < txs_data.len()
        invariant
            i <= txs_data@.len(),
            txs@.len() == i,
            i == 0 ==> latest@ == empty_event_hash(),
            i > 0 ==> latest@ == txs@[i - 1]@.hash,
            i > 0 ==> txs@[0]@.prev_hash == empty_event_hash(),
            forall|j: int| 0 < j < i ==> (#[trigger] txs@[j])@.prev_hash == txs@[j - 1]@.hash,
            forall|j: int|
                0 <= j < i ==> {
                    &&& (#[trigger] txs@[j])@.data == txs_data@[j]@
                    &&& txs@[j]@.block == 0
                    &&& txs@[j]@.hash == chained_hash(txs@[j]@.prev_hash, 0, txs@[j]@.data)
                },
        decreases txs_data@.len() - i,
    {
        let tx = Tx::from_tx(txs_data[i].clone(), latest.clone(), 0);
        latest = tx.hash_str();
        txs.push(tx);
        i = i + 1;
    }
    assert(linked(empty_event_hash(), txs_view(txs@))) by {
        assert forall|j: int| 0 < j < txs@.len() implies (#[trigger] txs_view(txs@)[j]).prev_hash
            == txs_view(txs@)[j - 1].hash by {
            assert(txs_view(txs@)[j] == txs@[j]@);
            assert(txs_view(txs@)[j - 1] == txs@[j - 1]@);
        }
    }
    txs
}

/// Base58 of 32 zero bytes.
pub fn default_empty_hash() -> (r: String)
    ensures
        r@ == empty_event_hash(),
{
    let zero = [0u8; 32];
    assert(zero@ =~= Seq::new(32, |i: int| 0u8));
    base58_encode(&zero)
}

/// Applies `txs` in order with fees to `validator`. On the first failure the
/// table is left as it was and its rule is reported with the position.
pub fn apply_txs(validator: &String, txs: &Vec<Tx>, accounts: &mut Accounts) -> (r: Result<
    (),
    (usize, String),
>)
    requires
        old(accounts).wf(),
    ensures
        final(accounts).wf(),
        r is Ok ==> all_applied(
            validator@,
            txs_view(txs@),
            old(accounts)@,
            final(accounts)@,
        ),
        r matches Err(e) ==> final(accounts)@ == old(accounts)@ && fails_at(
            validator@,
            txs_view(txs@),
            old(accounts)@,
            e.0 as int,
            e.1@,
        ),
{
    let ghost tv = txs_view(txs@);
    let ghost start = accounts@;
    let mut work = accounts.clone();
    proof {
        lemma_clone_view(accounts, &work);
    }
    let ghost mut states: Seq<Map<Seq<char>, AccountView>> = seq![start];
    let mut i: usize = 0;
    while i < txs.len()
        invariant
            tv == txs_view(txs@),
            work.wf(),
            accounts@ == start,
            accounts.wf(),
            i <= txs@.len(),
            steps_applied(validator@, tv.subrange(0, i as int), states),
            states[0] == start,
            states.last() == work@,
        decreases txs@.len() - i,
    {
        let ghost mid = work@;
        if !txs[i].data.in_range() {
            let e = String::from_str("Amount out of range");
            proof {
                assert(tv[i as int] == txs@[i as int]@);
                assert(fails_at(validator@, tv, start, i as int, e@));
            }
            return Err((i, e));
        }
        match process_tx(validator.clone(), &txs[i], &mut work) {
            Ok(()) => {
                proof {
                    let next = tv.subrange(0, i + 1);
                    let prev = states;
                    states = states.push(work@);
                    assert forall|j: int| 0 <= j < next.len() implies tx_applied(
                        validator@,
                        #[trigger] next[j],
                        states[j],
                        states[j + 1],
                        None,
                    ) by {
                        if j < i {
                            assert(next[j] == tv.subrange(0, i as int)[j]);
                        } else {
                            assert(next[j] == txs@[i as int]@);
                        }
                    }
                }
                i = i + 1;
            },
            Err(e) => {
                proof {
                    assert(tv[i as int] == txs@[i as int]@);
                    assert(fails_at(validator@, tv, start, i as int, e@));
                }
                return Err((i, e));
            },
        }
    }
    proof {
        assert(tv.subrange(0, txs@.len() as int) =~= tv);
    }
    *accounts = work;
    Ok(())
}

proof fn lemma_clone_view(a: &Accounts, b: &Accounts)
    requires
        a.wf(),
        b.entries@.len() == a.entries@.len(),
        forall|i: int| 0 <= i < a.entries@.len() ==> (#[trigger] b.entries@[i])@ == a.entries@[i]@,
    ensures
        b.wf(),
        b@ == a@,
{
    let s = a.entries@;
    let t = b.entries@;
    assert forall|i: int, j: int| 0 <= i < j < t.len() implies crate::text::bytes_cmp(
        #[trigger] crate::accounts::wallet_key(t[i]),
        #[trigger] crate::accounts::wallet_key(t[j]),
    ) == Ordering::Less by {
        assert(t[i]@.wallet == s[i]@.wallet);
        assert(t[j]@.wallet == s[j]@.wallet);
        assert(crate::accounts::wallet_key(t[i]) == crate::accounts::wallet_key(s[i]));
        assert(crate::accounts::wallet_key(t[j]) == crate::accounts::wallet_key(s[j]));
    }
    assert(b@ =~= a@) by {
        assert forall|w: Seq<char>| #[trigger] b@.contains_key(w) <==> a@.contains_key(w) by {
            if crate::accounts::has_wallet(t, w) {
                let j = crate::accounts::index_of(t, w);
                assert(s[j].wallet@ == w);
            }
            if crate::accounts::has_wallet(s, w) {
                let j = crate::accounts::index_of(s, w);
                assert(t[j].wallet@ == w);
            }
        }
        assert forall|w: Seq<char>| #[trigger] b@.contains_key(w) implies b@[w] == a@[w] by {
            let j = crate::accounts::index_of(t, w);
            crate::accounts::lemma_index_of(t, j);
            crate::accounts::lemma_index_of(s, j);
        }
    }
}

/// The accounts genesis payloads produce, fees to `GENESIS`; on failure, the
/// position of the first rejected payload and its rule.
pub fn genesis_accounts(txs: &Vec<Tx>) -> (r: Result<Accounts, (usize, String)>)
    ensures
        r matches Ok(a) ==> a.wf() && all_applied(
            genesis_wallet(),
            txs_view(txs@),
            Map::<Seq<char>, AccountView>::empty(),
            a@,
        ),
        r matches Err(e) ==> fails_at(
            genesis_wallet(),
            txs_view(txs@),
            Map::<Seq<char>, AccountView>::empty(),
            e.0 as int,
            e.1@,
        ),
{
    let mut accounts = Accounts::new();
    let validator = String::from_str("GENESIS");
    match apply_txs(&validator, txs, &mut accounts) {
        Ok(()) => Ok(accounts),
        Err(e) => Err(e),
    }
}

/// `Invalid block index, expected: <e>, was: <w>`.
pub open spec fn bad_index(expected: nat, was: nat) -> Seq<char> {
    "Invalid block index, expected: "@ + decimal_digits(expected) + ", was: "@ + decimal_digits(was)
}

/// `PoH error, expected: <e>, was: <w>`.
pub open spec fn broken_link(expected: Seq<char>, was: Seq<char>) -> Seq<char> {
    "PoH error, expected: "@ + expected + ", was: "@ + was
}

/// The hash the transaction at `i` must name: the last committed hash for the
/// first one (if any is known), its predecessor's hash for the others.
pub open spec fn link_expected(last_hash: Option<Seq<char>>, txs: Seq<TxView>, i: int) -> Option<
    Seq<char>,
> {
    if i == 0 {
        last_hash
    } else {
        Some(txs[i - 1].hash)
    }
}

pub open spec fn link_holds(last_hash: Option<Seq<char>>, txs: Seq<TxView>, i: int) -> bool {
    match link_expected(last_hash, txs, i) {
        Some(h) => txs[i].prev_hash == h,
        None => true,
    }
}

/// Every transaction names the one before it, the first the last committed one.
pub open spec fn chain_links(last_hash: Option<Seq<char>>, txs: Seq<TxView>) -> bool {
    forall|i: int| 0 <= i < txs.len() ==> #[trigger] link_holds(last_hash, txs, i)
}

/// `i` is the first position whose link is broken.
pub open spec fn first_break(last_hash: Option<Seq<char>>, txs: Seq<TxView>, i: int) -> bool {
    &&& 0 <= i < txs.len()
    &&& !link_holds(last_hash, txs, i)
    &&& forall|j: int| 0 <= j < i ==> #[trigger] link_holds(last_hash, txs, j)
}

/// The first position whose link is broken, if any.
pub fn find_link_break(last_hash: &Option<String>, txs: &Vec<Tx>) -> (r: Option<usize>)
    ensures
        r is None <==> chain_links(text_of(*last_hash), txs_view(txs@)),
        r matches Some(i) ==> first_break(text_of(*last_hash), txs_view(txs@), i as int),
{
    let ghost lh = text_of(*last_hash);
    let ghost tv = txs_view(txs@);
    let mut i: usize = 0;
    while i < txs.len()
        invariant
            lh == text_of(*last_hash),
            tv == txs_view(txs@),
            i <= txs@.len(),
            forall|j: int| 0 <= j < i ==> #[trigger] link_holds(lh, tv, j),
        decreases txs@.len() - i,
    {
        let holds = if i == 0 {
            match last_hash {
                Some(h) => txs[0].prev_hash == *h,
                None => true,
            }
        } else {
            txs[i].prev_hash == txs[i - 1].hash
        };
        proof {
            assert(tv[i as int] == txs@[i as int]@);
            if i > 0 {
                assert(tv[i - 1] == txs@[i - 1]@);
            }
            assert(holds == link_holds(lh, tv, i as int));
        }
        if !holds {
            return Some(i);
        }
        i = i + 1;
    }
    None
}

pub open spec fn text_of(s: Option<String>) -> Option<Seq<char>> {
    match s {
        Some(h) => Some(h@),
        None => None,
    }
}

/// The height a block must have on top of the current tip.
pub open spec fn expected_index(latest: Option<u64>) -> int {
    match latest {
        Some(l) => l + 1,
        None => 0,
    }
}

/// A block may be committed on the tip `latest` (height of the last block)
/// with `last_hash` the hash of the last committed transaction: the height
/// follows, each transaction names the one before it (the first names
/// `last_hash`), the block is valid
/// (signature not required of the genesis block) and every transaction applies.
pub open spec fn block_accepted(
    latest: Option<u64>,
    last_hash: Option<Seq<char>>,
    b: crate::block::BlockView,
    before: Map<Seq<char>, AccountView>,
    after: Map<Seq<char>, AccountView>,
) -> bool {
    &&& b.idx == expected_index(latest)
    &&& chain_links(last_hash, block_txs(b))
    &&& block_content_valid(b)
    &&& (b.idx > 0 ==> block_signed(b))
    &&& all_applied(b.validator, block_txs(b), before, after)
}

/// Decides whether `block` may be committed on top of the tip and, if so,
/// applies its transactions to `accounts` (left unchanged otherwise).
pub fn check_block(
    latest: Option<u64>,
    last_hash: Option<String>,
    block: &Block,
    accounts: &mut Accounts,
) -> (r: Result<(), String>)
    requires
        old(accounts).wf(),
    ensures
        final(accounts).wf(),
        r is Ok ==> block_accepted(latest, text_of(last_hash), block@, old(accounts)@, final(accounts)@),
        r is Err ==> final(accounts)@ == old(accounts)@,
        block@.idx != expected_index(latest) ==> (r matches Err(e) && e@ == bad_index(
            expected_index(latest) as nat,
            block@.idx as nat,
        )),
        block@.idx == expected_index(latest) && !chain_links(text_of(last_hash), block_txs(block@))
            ==> (r matches Err(e) && exists|i: int|
            #[trigger] first_break(text_of(last_hash), block_txs(block@), i) && e@ == broken_link(
                link_expected(text_of(last_hash), block_txs(block@), i)->0,
                block_txs(block@)[i].prev_hash,
            )),
        block@.idx == expected_index(latest) && chain_links(text_of(last_hash), block_txs(block@)) && !(
        merkle_matches(block@) && (block@.idx > 0 ==> block_signed(block@))) ==> (r matches Err(e)
            && e@ == "Invalid block"@),
        block@.idx == expected_index(latest) && chain_links(text_of(last_hash), block_txs(block@))
            && merkle_matches(block@) && (block@.idx > 0 ==> block_signed(block@)) && !all_txs_valid(
            block@,
        ) ==> (r matches Err(e) && e@ == "Invalid transactions"@),
        block@.idx == expected_index(latest) && chain_links(text_of(last_hash), block_txs(block@))
            && block_content_valid(block@) && (block@.idx > 0 ==> block_signed(block@)) && r is Err
            ==> (r matches Err(e) && e@ == "Invalid transactions"@ && exists|i: int, f: Seq<char>|
            #[trigger] fails_at(block@.validator, block_txs(block@), old(accounts)@, i, f)),
{
    let expected: u128 = match latest {
        Some(l) => l as u128 + 1,
        None => 0,
    };
    if expected != block.idx as u128 {
        let msg = String::from_str("Invalid block index, expected: ").concat(
            u128_text(expected).as_str(),
        ).concat(", was: ").concat(u128_text(block.idx as u128).as_str());
        return Err(msg);
    }
    let empty: Vec<Tx> = Vec::new();
    let txs = match &block.txs {
        Some(t) => t,
        None => &empty,
    };
    assert(txs_view(txs@) == block_txs(block@)) by {
        assert(txs_view(txs@) =~= block_txs(block@));
    }
    if let Some(i) = find_link_break(&last_hash, txs) {
        let expected = if i == 0 {
            match &last_hash {
                Some(h) => h.clone(),
                None => String::new(),
            }
        } else {
            txs[i - 1].hash.clone()
        };
        proof {
            assert(block_txs(block@)[i as int] == txs@[i as int]@);
            if i > 0 {
                assert(block_txs(block@)[i - 1] == txs@[i - 1]@);
            }
            assert(link_expected(text_of(last_hash), block_txs(block@), i as int) is Some);
        }
        let msg = String::from_str("PoH error, expected: ").concat(expected.as_str()).concat(
            ", was: ",
        ).concat(txs[i].prev_hash.as_str());
        return Err(msg);
    }
    if !block.merkle_valid() {
        return Err(String::from_str("Invalid block"));
    }
    if block.idx > 0 && !block.signed() {
        return Err(String::from_str("Invalid block"));
    }
    if !block.txs_valid() {
        return Err(String::from_str("Invalid transactions"));
    }
    match apply_txs(&block.validator, txs, accounts) {
        Ok(()) => Ok(()),
        Err((i, e)) => {
            proof {
                assert(fails_at(block@.validator, block_txs(block@), old(accounts)@, i as int, e@));
            }
            Err(String::from_str("Invalid transactions"))
        },
    }
}

/// The accounts of a table in ascending wallet order.
pub open spec fn ordered_accounts(a: Accounts) -> Seq<AccountView> {
    a.entries@.map_values(|x: Account| x@)
}

/// Stake held by the first `n` accounts.
pub open spec fn stake_prefix(s: Seq<AccountView>, n: int) -> int
    decreases n,
{
    if n <= 0 || n > s.len() {
        0
    } else {
        stake_prefix(s, n - 1) + s[n - 1].stake
    }
}

pub open spec fn total_stake(s: Seq<AccountView>) -> int {
    stake_prefix(s, s.len() as int)
}

/// Position `i` is the first whose running stake passes `target`.
pub open spec fn elects(s: Seq<AccountView>, target: int, i: int) -> bool {
    &&& 0 <= i < s.len()
    &&& stake_prefix(s, i + 1) > target
    &&& forall|j: int| 0 <= j < i ==> stake_prefix(s, #[trigger] (j + 1)) <= target
}

/// The position elected by a 64-bit seed, walking accounts in ascending
/// wallet order: the first whose running stake passes `seed mod total`.
pub open spec fn elected(s: Seq<AccountView>, seed: u64) -> Option<int> {
    if total_stake(s) > 0 && exists|i: int| #[trigger] elects(s, seed as int % total_stake(s), i) {
        Some(choose|i: int| #[trigger] elects(s, seed as int % total_stake(s), i))
    } else {
        None
    }
}

pub proof fn lemma_elects_unique(s: Seq<AccountView>, target: int, i: int, j: int)
    requires
        elects(s, target, i),
        elects(s, target, j),
    ensures
        i == j,
{
    if i < j {
        assert(stake_prefix(s, i + 1) <= target);
    } else if j < i {
        assert(stake_prefix(s, j + 1) <= target);
    }
}

pub open spec fn no_stake() -> Seq<char> {
    "No latest block"@
}

/// Stake-weighted election from a seed over the table, in ascending wallet order.
pub fn elect_validator(seed: u64, accounts: &Accounts) -> (r: Result<String, String>)
    ensures
        elected(ordered_accounts(*accounts), seed) matches Some(i) ==> (r matches Ok(w) && w@
            == ordered_accounts(*accounts)[i].wallet),
        elected(ordered_accounts(*accounts), seed) is None ==> (r matches Err(e) && e@ == no_stake()),
{
    let ghost s = ordered_accounts(*accounts);
    let entries = &accounts.entries;
    let mut total = BigInt::zero();
    let mut i: usize = 0;
    while i < entries.len()
        invariant
            s == ordered_accounts(*accounts),
            entries@ == accounts.entries@,
            i <= entries@.len(),
            total@ == stake_prefix(s, i as int),
        decreases entries@.len() - i,
    {
        total = total.plus(&entries[i].stake);
        i = i + 1;
    }
    let zero = BigInt::zero();
    match total.compare(&zero) {
        Ordering::Greater => {},
        _ => {
            return Err(String::from_str("No latest block"));
        },
    }
    let target = match BigInt::from_u64(seed) {
        Some(v) => v.modulo(&total),
        None => {
            return Err(String::from_str("No latest block"));
        },
    };
    let mut running = BigInt::zero();
    let mut k: usize = 0;
    while k < entries.len()
        invariant
            s == ordered_accounts(*accounts),
            entries@ == accounts.entries@,
            total_stake(s) > 0,
            target@ == seed as int % total_stake(s),
            k <= entries@.len(),
            running@ == stake_prefix(s, k as int),
            forall|j: int| 0 <= j < k ==> stake_prefix(s, #[trigger] (j + 1)) <= target@,
        decreases entries@.len() - k,
    {
        let next = running.plus(&entries[k].stake);
        if let Ordering::Greater = next.compare(&target) {
            proof {
                assert(elects(s, target@, k as int));
                lemma_choose_elects(s, target@, k as int);
            }
            return Ok(entries[k].wallet.clone());
        }
        running = next;
        k = k + 1;
    }
    proof {
        assert forall|i: int| !elects(s, target@, i) by {
            if elects(s, target@, i) {
                assert(stake_prefix(s, i + 1) <= target@);
            }
        }
    }
    Err(String::from_str("No latest block"))
}

proof fn lemma_choose_elects(s: Seq<AccountView>, target: int, k: int)
    requires
        elects(s, target, k),
    ensures
        (choose|i: int| #[trigger] elects(s, target, i)) == k,
{
    let c = choose|i: int| #[trigger] elects(s, target, i);
    lemma_elects_unique(s, target, c, k);
}

/// The validator elected after `latest`: the seed is the default 64-bit hash
/// of the block digest.
pub fn current_validator(latest: &Block, accounts: &Accounts) -> (r: Result<String, String>)
    ensures
        ({
            let seed = default_hash_of(block_digest(latest@));
            &&& elected(ordered_accounts(*accounts), seed) matches Some(i) ==> (r matches Ok(w)
                && w@ == ordered_accounts(*accounts)[i].wallet)
            &&& elected(ordered_accounts(*accounts), seed) is None ==> (r matches Err(e) && e@
                == no_stake())
        }),
{
    let digest = latest.hash();
    let seed = default_hash(&digest);
    elect_validator(seed, accounts)
}

} // verus!
