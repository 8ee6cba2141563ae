//! Bookkeeping of in-flight peer requests: each outbound request or query is
//! remembered under its id until its answer arrives or it fails.
use crate::tx::Tx;
use crate::messages::TxResponse;
use vstd::hash_map::HashMapWithView;
use vstd::prelude::*;
use vstd::string::StringExecFns;

verus! {

broadcast use vstd::std_specs::hash::group_hash_axioms;

/// What an in-flight request waits for.
#[derive(Clone, Copy, Debug, PartialEq, Eq, Structural)]
pub enum RequestKind {
    Dial,
    StartProviding,
    GetProviders,
    GetAccount,
    FindBlock,
    AddTx,
    GetFee,
}

/// In-flight requests by id.
pub struct PendingRequests {
    pub pending: HashMapWithView<u64, RequestKind>,
}

impl View for PendingRequests {
    type V = Map<u64, RequestKind>;

    open spec fn view(&self) -> Map<u64, RequestKind> {
        self.pending@
    }
}

impl PendingRequests {
    pub fn new() -> (r: PendingRequests)
        ensures
            r@ == Map::<u64, RequestKind>::empty(),
    {
        PendingRequests { pending: HashMapWithView::new() }
    }

    /// Remembers a request; an id already in flight is left as it was and
    /// reported as not started.
    pub fn start(&mut self, id: u64, kind: RequestKind) -> (r: bool)
        ensures
            r == !old(self)@.contains_key(id),
            r ==> final(self)@ == old(self)@.insert(id, kind),
            !r ==> final(self)@ == old(self)@,
    {
        if self.pending.contains_key(&id) {
            return false;
        }
        self.pending.insert(id, kind);
        true
    }

    /// An answer of `kind` arrived for `id`: the request is settled when it
    /// was in flight with that kind; any other answer is ignored.
    pub fn settle(&mut self, id: u64, kind: RequestKind) -> (r: bool)
        ensures
            r == (old(self)@.contains_key(id) && old(self)@[id] == kind),
            r ==> final(self)@ == old(self)@.remove(id),
            !r ==> final(self)@ == old(self)@,
    {
        match self.pending.get(&id) {
            Some(k) => {
                if *k == kind {
                    let _ = self.pending.remove(&id);
                    true
                } else {
                    false
                }
            },
            None => false,
        }
    }

    /// The request failed: it leaves the table, and its kind is reported so
    /// the waiting caller can be told.
    pub fn fail(&mut self, id: u64) -> (r: Option<RequestKind>)
        ensures
            r == (if old(self)@.contains_key(id) {
                Some(old(self)@[id])
            } else {
                None
            }),
            final(self)@ == old(self)@.remove(id),
    {
        let r = self.pending.remove(&id);
        proof {
            if r is None {
                assert(old(self)@.remove(id) =~= old(self)@);
            }
        }
        r
    }

    pub fn len(&self) -> (r: usize)
        ensures
            r == self@.len(),
    {
        self.pending.len()
    }
}

/// What an `/add-tx` answer means for the caller: the chained transaction,
/// or the peer's error, `Invalid transaction` when it gave none.
pub fn add_tx_outcome(response: TxResponse) -> (r: Result<Tx, String>)
    ensures
        response.data matches Some(t) ==> r == Ok::<Tx, String>(t),
        response.data is None ==> (response.error matches Some(e) ==> r == Err::<Tx, String>(e)),
        response.data is None && response.error is None ==> (r matches Err(e) && e@
            == "Invalid transaction"@),
{
    match response.data {
        Some(tx) => Ok(tx),
        None => match response.error {
            Some(e) => Err(e),
            None => Err(String::from_str("Invalid transaction")),
        },
    }
}

} // verus!
