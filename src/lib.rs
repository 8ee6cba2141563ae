//! A small proof-of-stake ledger: accounts, transactions, blocks, mempool and
//! stake-weighted leader election.
pub mod account;
pub mod accounts;
pub mod block;
pub mod chain;
pub mod config;
pub mod digest;
pub mod laws;
pub mod mempool;
pub mod messages;
pub mod num;
pub mod operation;
pub mod records;
pub mod requests;
pub mod scale;
pub mod schema;
pub mod text;
pub mod tx;
pub mod wallet;
