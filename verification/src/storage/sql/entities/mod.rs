//! The entities of the SQL block store.
pub mod account;
pub mod block;
pub mod transaction;
pub mod tx_claim;
