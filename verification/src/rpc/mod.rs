//! The node's RPC services: what they answer, given the block store.
pub mod account;
pub mod greeter;
pub mod node_admin;
pub mod lattice;
pub mod node_user;
