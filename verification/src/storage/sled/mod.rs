//! The sled block store: the keys it uses, and the store itself.
pub mod keys;
pub mod laws;
pub mod main;
pub mod sled;
pub mod staged;
