//! The verified core of the champ node: the block and transaction model,
//! block validation, the in-memory block store, wallet bookkeeping, the
//! blockpool's vote bookkeeping and the node's smaller rules.
use vstd::prelude::*;

pub mod api;
pub mod auth;
pub mod blockpool;
pub mod cli;
pub mod config;
pub mod consensus;
pub mod env;
pub mod http;
pub mod interceptors;
pub mod metrics;
pub mod p2p;
pub mod rpc;
pub mod string_map;
pub mod storage;
pub mod validation;
pub mod wallets;

verus! {

} // verus!
