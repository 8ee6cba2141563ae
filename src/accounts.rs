//! The account table: accounts kept in ascending order of wallet, one per wallet.
use crate::account::{Account, AccountView};
use crate::num::scale_ok;
use crate::text::{bytes_cmp, compare_text, lemma_bytes_cmp_antisymmetric, lemma_bytes_cmp_equal, lemma_bytes_cmp_transitive};
use std::cmp::Ordering;
use vstd::prelude::*;
use vstd::utf8::{encode_utf8, encode_utf8_decode_utf8};

verus! {

/// The bytes a wallet is ordered by (its UTF-8 encoding).
pub open spec fn wallet_key(a: Account) -> Seq<u8> {
    encode_utf8(a.wallet@)
}

/// Strictly ascending wallets.
pub open spec fn sorted_by_wallet(s: Seq<Account>) -> bool {
    forall|i: int, j: int|
        0 <= i < j < s.len() ==> bytes_cmp(#[trigger] wallet_key(s[i]), #[trigger] wallet_key(s[j]))
            == Ordering::Less
}

/// Every balance's scale is within the library's limit.
pub open spec fn balances_in_range(s: Seq<Account>) -> bool {
    forall|i: int| 0 <= i < s.len() ==> scale_ok(#[trigger] s[i].balance@)
}

pub open spec fn has_wallet(s: Seq<Account>, w: Seq<char>) -> bool {
    exists|i: int| 0 <= i < s.len() && #[trigger] s[i].wallet@ == w
}

pub open spec fn index_of(s: Seq<Account>, w: Seq<char>) -> int {
    choose|i: int| 0 <= i < s.len() && #[trigger] s[i].wallet@ == w
}

/// The table as a map from wallet to account.
pub open spec fn table_map(s: Seq<Account>) -> Map<Seq<char>, AccountView> {
    Map::new(|w: Seq<char>| has_wallet(s, w), |w: Seq<char>| s[index_of(s, w)]@)
}

pub proof fn lemma_wallets_distinct(s: Seq<Account>, i: int, j: int)
    requires
        sorted_by_wallet(s),
        0 <= i < s.len(),
        0 <= j < s.len(),
        i != j,
    ensures
        s[i].wallet@ != s[j].wallet@,
{
    if i < j {
        lemma_bytes_cmp_equal(wallet_key(s[i]), wallet_key(s[j]));
    } else {
        lemma_bytes_cmp_equal(wallet_key(s[j]), wallet_key(s[i]));
    }
}

pub proof fn lemma_index_of(s: Seq<Account>, i: int)
    requires
        sorted_by_wallet(s),
        0 <= i < s.len(),
    ensures
        has_wallet(s, s[i].wallet@),
        index_of(s, s[i].wallet@) == i,
        table_map(s).contains_key(s[i].wallet@),
        table_map(s)[s[i].wallet@] == s[i]@,
{
    let w = s[i].wallet@;
    assert(has_wallet(s, w));
    let j = index_of(s, w);
    if j != i {
        lemma_wallets_distinct(s, i, j);
    }
}

/// Accounts by wallet, iterated in ascending wallet order.
#[derive(Debug)]
pub struct Accounts {
    pub entries: Vec<Account>,
}

impl View for Accounts {
    type V = Map<Seq<char>, AccountView>;

    open spec fn view(&self) -> Map<Seq<char>, AccountView> {
        table_map(self.entries@)
    }
}

impl Clone for Accounts {
    fn clone(&self) -> (r: Accounts)
        ensures
            r.entries@.len() == self.entries@.len(),
            forall|i: int| 0 <= i < self.entries@.len() ==> (#[trigger] r.entries@[i])@ == self.entries@[i]@,
    {
        let mut out: Vec<Account> = Vec::new();
        let mut i: usize = 0;
        while i < self.entries.len()
            invariant
                i <= self.entries@.len(),
                out@.len() == i,
                forall|j: int| 0 <= j < i ==> (#[trigger] out@[j])@ == self.entries@[j]@,
            decreases self.entries@.len() - i,
        {
            out.push(self.entries[i].clone());
            i = i + 1;
        }
        Accounts { entries: out }
    }
}

impl Accounts {
    pub open spec fn wf(&self) -> bool {
        sorted_by_wallet(self.entries@) && balances_in_range(self.entries@)
    }

    pub fn new() -> (r: Accounts)
        ensures
            r.wf(),
            r@ == Map::<Seq<char>, AccountView>::empty(),
    {
        let r = Accounts { entries: Vec::new() };
        assert(r@ =~= Map::<Seq<char>, AccountView>::empty());
        r
    }

    pub fn len(&self) -> (r: usize)
        requires
            self.wf(),
        ensures
            r == self@.len(),
    {
        proof {
            self.lemma_len();
        }
        self.entries.len()
    }

    pub proof fn lemma_len(&self)
        requires
            self.wf(),
        ensures
            self@.len() == self.entries@.len(),
            self@.dom().finite(),
    {
        let s = self.entries@;
        let d = Set::new(|i: int| 0 <= i < s.len());
        let f = |i: int| s[i].wallet@;
        assert(self@.dom() =~= d.map(f)) by {
            assert forall|w: Seq<char>| self@.dom().contains(w) implies d.map(f).contains(w) by {
                let i = index_of(s, w);
                assert(d.contains(i) && f(i) == w);
            }
        }
        vstd::set_lib::lemma_int_range(0, s.len() as int);
        assert(d =~= vstd::set_lib::set_int_range(0, s.len() as int));
        assert(vstd::relations::injective_on(f, d)) by {
            assert forall|x: int, y: int| d.contains(x) && d.contains(y) && #[trigger] f(x) == #[trigger] f(y) implies x == y by {
                if x != y {
                    lemma_wallets_distinct(s, x, y);
                }
            }
        }
        vstd::set_lib::lemma_map_size(d, d.map(f), f);
    }

    /// Position of `wallet` in the table, if present.
    pub fn position(&self, wallet: &String) -> (r: Option<usize>)
        requires
            self.wf(),
        ensures
            r is None <==> !self@.contains_key(wallet@),
            r matches Some(i) ==> i < self.entries@.len() && self.entries@[i as int].wallet@
                == wallet@,
    {
        let mut i: usize = 0;
        while i < self.entries.len()
            invariant
                self.wf(),
                i <= self.entries@.len(),
                forall|j: int| 0 <= j < i ==> (#[trigger] self.entries@[j]).wallet@ != wallet@,
            decreases self.entries@.len() - i,
        {
            if self.entries[i].wallet == *wallet {
                proof {
                    lemma_index_of(self.entries@, i as int);
                }
                return Some(i);
            }
            i = i + 1;
        }
        None
    }

    /// A copy of the account of `wallet`, if present.
    pub fn get(&self, wallet: &String) -> (r: Option<Account>)
        requires
            self.wf(),
        ensures
            r is None <==> !self@.contains_key(wallet@),
            r matches Some(a) ==> a@ == self@[wallet@],
            r matches Some(a) ==> scale_ok(a.balance@),
    {
        match self.position(wallet) {
            Some(i) => {
                proof {
                    lemma_index_of(self.entries@, i as int);
                }
                Some(self.entries[i].clone())
            },
            None => None,
        }
    }

    /// The account of `wallet`, or a fresh one when the wallet is unknown.
    pub fn get_or_new(&self, wallet: &String) -> (r: Account)
        requires
            self.wf(),
        ensures
            self@.contains_key(wallet@) ==> r@ == self@[wallet@],
            !self@.contains_key(wallet@) ==> r@ == (AccountView {
                wallet: wallet@,
                balance: (0int, 0int),
                nonce: 0,
                stake: 0,
            }),
            scale_ok(r.balance@),
    {
        match self.get(wallet) {
            Some(a) => a,
            None => Account::new(wallet.clone()),
        }
    }

    /// Stores `account` under its wallet, replacing any account there.
    pub fn insert(&mut self, account: Account)
        requires
            old(self).wf(),
            scale_ok(account.balance@),
        ensures
            final(self).wf(),
            final(self)@ == old(self)@.insert(account.wallet@, account@),
    {
        let ghost s0 = self.entries@;
        let ghost key = encode_utf8(account.wallet@);
        let mut i: usize = 0;
        while i < self.entries.len()
            invariant
                self.entries@ == s0,
                old(self).entries@ == s0,
                sorted_by_wallet(s0),
                balances_in_range(s0),
                scale_ok(account.balance@),
                key == encode_utf8(account.wallet@),
                i <= s0.len(),
                forall|j: int| 0 <= j < i ==> bytes_cmp(#[trigger] wallet_key(s0[j]), key) == Ordering::Less,
            ensures
                self.entries@ == s0,
                i <= s0.len(),
                forall|j: int| 0 <= j < i ==> bytes_cmp(#[trigger] wallet_key(s0[j]), key) == Ordering::Less,
                i < s0.len() ==> bytes_cmp(wallet_key(s0[i as int]), key) == Ordering::Greater,
            decreases s0.len() - i,
        {
            match compare_text(self.entries[i].wallet.as_str(), account.wallet.as_str()) {
                Ordering::Less => {
                    i = i + 1;
                },
                Ordering::Equal => {
                    proof {
                        lemma_bytes_cmp_equal(wallet_key(s0[i as int]), key);
                        encode_utf8_decode_utf8(s0[i as int].wallet@);
                        encode_utf8_decode_utf8(account.wallet@);
                    }
                    let ghost w = account.wallet@;
                    let ghost av = account@;
                    self.entries.set(i, account);
                    proof {
                        let s1 = self.entries@;
                        assert(balances_in_range(s1)) by {
                            assert forall|j: int| 0 <= j < s1.len() implies scale_ok(
                                #[trigger] s1[j].balance@,
                            ) by {
                                if j != i {
                                    assert(s1[j] == s0[j]);
                                }
                            }
                        }
                        assert forall|a: int, b: int| 0 <= a < b < s1.len() implies bytes_cmp(
                            #[trigger] wallet_key(s1[a]),
                            #[trigger] wallet_key(s1[b]),
                        ) == Ordering::Less by {
                            assert(wallet_key(s1[a]) == wallet_key(s0[a]));
                            assert(wallet_key(s1[b]) == wallet_key(s0[b]));
                        }
                        lemma_replace_view(s0, s1, i as int, w, av);
                        assert(self.entries@ == s1);

                    }
                    return;
                },
                Ordering::Greater => {
                    break;
                },
            }
        }
        proof {
            if i < s0.len() {
                lemma_bytes_cmp_antisymmetric(key, wallet_key(s0[i as int]));
            }
        }
        let ghost w = account.wallet@;
        let ghost av = account@;
        self.entries.insert(i, account);
        proof {
            let s1 = self.entries@;
            assert(balances_in_range(s1)) by {
                assert forall|j: int| 0 <= j < s1.len() implies scale_ok(#[trigger] s1[j].balance@) by {
                    if j < i {
                        assert(s1[j] == s0[j]);
                    } else if j > i {
                        assert(s1[j] == s0[j - 1]);
                    }
                }
            }
            assert forall|a: int, b: int| 0 <= a < b < s1.len() implies bytes_cmp(
                #[trigger] wallet_key(s1[a]),
                #[trigger] wallet_key(s1[b]),
            ) == Ordering::Less by {
                if b < i {
                } else if b == i {
                } else if a < i {
                    // s0[a] < key < s0[i] <= s0[b - 1]
                    if b - 1 > i {
                        lemma_bytes_cmp_transitive(key, wallet_key(s0[i as int]), wallet_key(s0[b - 1]));
                    }
                    lemma_bytes_cmp_transitive(wallet_key(s0[a]), key, wallet_key(s0[b - 1]));
                } else if a == i {
                    if b - 1 > i {
                        lemma_bytes_cmp_transitive(key, wallet_key(s0[i as int]), wallet_key(s0[b - 1]));
                    }
                } else {
                    assert(wallet_key(s1[a]) == wallet_key(s0[a - 1]));
                }
            }
            assert(!has_wallet(s0, w)) by {
                if has_wallet(s0, w) {
                    let j = index_of(s0, w);
                    lemma_bytes_cmp_equal(wallet_key(s0[j]), key);
                    if j >= i {
                        if j > i {
                            lemma_bytes_cmp_transitive(key, wallet_key(s0[i as int]), wallet_key(s0[j]));
                        }
                        lemma_bytes_cmp_antisymmetric(key, wallet_key(s0[j]));
                    }
                }
            }
            assert(self@ =~= table_map(s0).insert(w, av)) by {
                assert forall|x: Seq<char>| #[trigger] self@.contains_key(x) <==> table_map(
                    s0,
                ).insert(w, av).contains_key(x) by {
                    if has_wallet(s1, x) {
                        let j = index_of(s1, x);
                        if j < i {
                            assert(s0[j] == s1[j]);
                        } else if j > i {
                            assert(s0[j - 1] == s1[j]);
                        }
                    }
                    if has_wallet(s0, x) {
                        let j = index_of(s0, x);
                        if j < i {
                            assert(s0[j] == s1[j]);
                        } else {
                            assert(s0[j] == s1[j + 1]);
                        }
                    }
                    if x == w {
                        assert(s1[i as int].wallet@ == w);
                    }
                }
                assert forall|x: Seq<char>| #[trigger] self@.contains_key(x) implies self@[x]
                    == table_map(s0).insert(w, av)[x] by {
                    let j = index_of(s1, x);
                    lemma_index_of(s1, j);
                    if j < i {
                        assert(s0[j] == s1[j]);
                        lemma_index_of(s0, j);
                    } else if j > i {
                        assert(s0[j - 1] == s1[j]);
                        lemma_index_of(s0, j - 1);
                    } else {
                    }
                }
            }
        }
    }

}

/// Replacing the account at a position changes the map at its wallet only.
proof fn lemma_replace_view(
        s0: Seq<Account>,
        s1: Seq<Account>,
        i: int,
        w: Seq<char>,
        av: AccountView,
    )
        requires
            sorted_by_wallet(s0),
            sorted_by_wallet(s1),
            0 <= i < s0.len(),
            s1 == s0.update(i, s1[i]),
            s0[i].wallet@ == w,
            s1[i]@ == av,
            av.wallet == w,
        ensures
            table_map(s1) == table_map(s0).insert(w, av),
    {
        assert(table_map(s1) =~= table_map(s0).insert(w, av)) by {
            assert forall|x: Seq<char>| #[trigger] table_map(s1).contains_key(x) <==> table_map(
                s0,
            ).insert(w, av).contains_key(x) by {
                if has_wallet(s1, x) {
                    let j = index_of(s1, x);
                    if j != i {
                        assert(s0[j] == s1[j]);
                    }
                }
                if has_wallet(s0, x) {
                    let j = index_of(s0, x);
                    if j != i {
                        assert(s0[j] == s1[j]);
                    } else {
                        assert(s1[i].wallet@ == x);
                    }
                }
                if x == w {
                    assert(s1[i].wallet@ == w);
                }
            }
            assert forall|x: Seq<char>| #[trigger] table_map(s1).contains_key(x) implies table_map(s1)[x]
                == table_map(s0).insert(w, av)[x] by {
                let j = index_of(s1, x);
                lemma_index_of(s1, j);
                if j != i {
                    assert(s0[j] == s1[j]);
                    lemma_index_of(s0, j);
                    lemma_wallets_distinct(s1, i, j);
                }
            }
        }
    }

} // verus!
