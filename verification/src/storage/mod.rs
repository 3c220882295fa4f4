//! Block storage: the configuration of a backend, the errors a backend
//! reports, the interface every backend offers, and the in-memory backend.
pub mod keyed;
pub mod database;
pub mod mock;
pub mod rocksdb;
pub mod scylla;
pub mod sled;
pub mod sql;
