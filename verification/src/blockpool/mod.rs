//! The blockpool: blocks waiting to be added to the chain and the votes on
//! them.
pub mod pool;
