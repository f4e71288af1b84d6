//! Core of an Ethereum-style JSON-RPC gateway in front of a ledger validator:
//! data transforms, envelope framing, reply correlation, filter bookkeeping,
//! account lookup, transaction assembly and error sanitization.
pub mod accounts;
pub mod calls;
pub mod client;
pub mod codec;
pub mod compare;
pub mod errors;
pub mod executor;
pub mod filters;
pub mod transactions;
pub mod transform;
pub mod pending;
pub mod records;
