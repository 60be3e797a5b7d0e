//! Client library for a permissioned blockchain: a request dispatcher that
//! fans one call out to every configured node, and a pipeline that assembles,
//! encodes and signs transactions.

pub mod error;
pub mod rpc;
pub mod client;
pub mod codec;
pub mod transaction;
