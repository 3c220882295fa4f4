//! A block store on RocksDB. No operation of it is supported yet; it only
//! records whether a database handle was attached.
use vstd::prelude::*;

verus! {

/// An open RocksDB database; the engine itself is not part of this library.
#[derive(Debug)]
pub struct RocksHandle {
    pub path: String,
}

/// The RocksDB block store.
#[derive(Debug)]
pub struct RocksDB {
    db: Option<RocksHandle>,
}

impl RocksDB {
    /// A store with no database attached.
    pub fn new() -> (r: Self)
        ensures
            !r.is_open(),
    {
        RocksDB { db: None }
    }

    /// A database is attached.
    pub closed spec fn is_open(&self) -> bool {
        self.db is Some
    }
}

impl Default for RocksDB {
    fn default() -> (r: Self)
        ensures
            !r.is_open(),
    {
        Self::new()
    }
}

} // verus!
