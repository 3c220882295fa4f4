//! The node's plain HTTP endpoint.
pub mod server;
