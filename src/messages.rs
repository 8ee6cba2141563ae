//! Request and response payloads of the peer protocols and the RPC, and how a
//! node answers the peer requests from its mempool.
use crate::account::Account;
use crate::block::Block;
use crate::mempool::{admitted, fee_floor, fee_ratio, fee_too_low, invalid_transaction, MemPool};
use crate::num::dec_lt;
use crate::operation::tx_applied;
use crate::num::BigDecimal;
use crate::tx::{Tx, TxData};
use vstd::prelude::*;

verus! {

#[derive(Debug)]
pub struct NonceRequest {
    pub wallet: String,
}

#[derive(Debug)]
pub struct NonceResponse {
    pub nonce: u64,
}

#[derive(Debug)]
pub struct AccountResponse {
    pub account: Option<Account>,
}

#[derive(Debug)]
pub struct BlockRequest {
    pub idx: u64,
}

#[derive(Debug)]
pub struct BlockResponse {
    pub block: Option<Block>,
}

#[derive(Debug)]
pub struct TxResponse {
    pub data: Option<Tx>,
    pub error: Option<String>,
}

#[derive(Debug)]
pub struct FeeRequest {}

#[derive(Debug)]
pub struct FeeResponse {
    pub fee: BigDecimal,
}

#[derive(Debug)]
pub struct WalletInfo {
    pub nonce: u64,
}

#[derive(Debug)]
pub struct ErrorResponse {
    pub error: String,
}

/// `/get-nonce`: the staged account of the wallet.
pub fn answer_account(pool: &MemPool, request: NonceRequest) -> (r: AccountResponse)
    requires
        pool.wf(),
    ensures
        r.account is None <==> !pool.accounts@.contains_key(request.wallet@),
        r.account matches Some(a) ==> a@ == pool.accounts@[request.wallet@],
{
    AccountResponse { account: pool.get_account(request.wallet) }
}

/// `/add-tx`: admits the payload; the chained transaction or the rejection.
pub fn answer_add_tx(pool: &mut MemPool, data: TxData) -> (r: TxResponse)
    requires
        old(pool).wf(),
    ensures
        final(pool).wf(),
        final(pool).wallet == old(pool).wallet,
        r.data is Some <==> r.error is None,
        !admitted(data) ==> (r.error matches Some(e) && e@ == invalid_transaction()),
        admitted(data) && dec_lt(fee_ratio(data@), fee_floor(old(pool).pending_txs@.len())) ==> (
        r.error matches Some(e) && e@ == fee_too_low()),
        admitted(data) && !dec_lt(fee_ratio(data@), fee_floor(old(pool).pending_txs@.len()))
            ==> tx_applied(
            old(pool).address(),
            old(pool).staged(data@),
            old(pool).accounts@,
            final(pool).accounts@,
            match r.error {
                Some(e) => Some(e@),
                None => None,
            },
        ),
        r.data matches Some(t) ==> t@ == old(pool).staged(data@) && final(pool).pending() == old(
            pool,
        ).pending().push(t@) && final(pool).last_event@ == t@.hash,
        r.error is Some ==> final(pool).pending() == old(pool).pending() && final(pool).accounts@
            == old(pool).accounts@ && final(pool).last_event@ == old(pool).last_event@,
{
    match pool.add_tx(data) {
        Ok(tx) => TxResponse { data: Some(tx), error: None },
        Err(e) => TxResponse { data: None, error: Some(e) },
    }
}

/// `/get-fee`: the current fee floor.
pub fn answer_fee(pool: &MemPool, request: FeeRequest) -> (r: FeeResponse)
    ensures
        r.fee@ == fee_floor(pool.pending_txs@.len()),
{
    FeeResponse { fee: pool.current_fee() }
}

/// `GET /api/wallets/{wallet}`: the staged nonce, 0 for an unknown wallet.
pub fn wallet_info(pool: &MemPool, wallet: String) -> (r: WalletInfo)
    requires
        pool.wf(),
    ensures
        pool.accounts@.contains_key(wallet@) ==> r.nonce == pool.accounts@[wallet@].nonce,
        !pool.accounts@.contains_key(wallet@) ==> r.nonce == 0,
{
    WalletInfo { nonce: pool.get_nonce(wallet) }
}

/// Requests are served locally when this node is the current validator, and
/// forwarded to the validator otherwise.
pub fn serve_locally(current_validator: &String, own_wallet: &String) -> (r: bool)
    ensures
        r == (current_validator@ == own_wallet@),
{
    *current_validator == *own_wallet
}

} // verus!
