//! Consensus: which blocks an account's voting power is computed from, and
//! how the powers of an account and of its delegators combine.
pub mod voting_power;
