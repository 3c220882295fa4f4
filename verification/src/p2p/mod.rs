//! The peer-to-peer layer's own rules: the request-response protocol's
//! framing, the clock, and how peers count as connected.
pub mod metrics;
pub mod pogprotocol;
pub mod server;
