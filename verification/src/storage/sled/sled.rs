//! The first layout of the sled block store, with a tree for pending blocks
//! and one for metadata. Only opening it is supported.
use crate::storage::database::{DatabaseConfig, DatabaseError};
use crate::storage::sled::main::{error_text, open_tree};
use vstd::prelude::*;

verus! {

/// Opens (or creates) the database at `path` with sled's default settings,
/// through `sled::open`. Whether it opens depends on the machine; nothing is
/// stated of the result.
#[verifier::external_body]
fn open_path(path: &str) -> (r: Result<::sled::Db, ::sled::Error>) {
    ::sled::open(path)
}

/// The tree names of the first layout, in the order they are opened.
pub open spec fn first_layout_tree_names() -> Seq<Seq<char>> {
    seq!["pending_blocks"@, "accounts"@, "blocks"@, "transactions"@, "meta"@]
}

/// The trees of the first layout, in the order they are opened:
/// pending blocks, accounts, blocks, transactions, metadata.
pub fn tree_names() -> (r: Vec<&'static str>)
    ensures
        r@.len() == 5,
        forall|i: int| 0 <= i < 5 ==> (#[trigger] r@[i])@ == first_layout_tree_names()[i],
{
    let mut v: Vec<&'static str> = Vec::new();
    v.push("pending_blocks");
    v.push("accounts");
    v.push("blocks");
    v.push("transactions");
    v.push("meta");
    v
}

/// Where the store of the first layout lives: the configured data path,
/// which must be named.
pub fn store_path(cfg: &DatabaseConfig) -> (r: &String)
    requires
        cfg.data_path is Some,
    ensures
        *r == cfg.data_path->0,
{
    cfg.data_path.as_ref().unwrap()
}

/// The block store on sled, in its first layout.
pub struct SledDB {
    db: ::sled::Db,
    pending_blocks: ::sled::Tree,
    blocks: ::sled::Tree,
    accounts: ::sled::Tree,
    transactions: ::sled::Tree,
    meta: ::sled::Tree,
}

impl SledDB {
    /// Opens the store at the data path of `cfg` ([`store_path`]), which
    /// must name one, with the trees of [`tree_names`]. Whether it opens
    /// depends on the machine.
    pub fn new(cfg: &DatabaseConfig) -> (r: Result<Self, DatabaseError>)
        requires
            cfg.data_path is Some,
        ensures
            r matches Err(e) ==> e is Specific,
    {
        let path = store_path(cfg);
        let db = match open_path(path.as_str()) {
            Ok(db) => db,
            Err(e) => return Err(DatabaseError::Specific(error_text(&e))),
        };
        let names = tree_names();
        let pending_blocks = match open_tree(&db, names[0]) {
            Ok(t) => t,
            Err(e) => return Err(DatabaseError::Specific(error_text(&e))),
        };
        let accounts = match open_tree(&db, names[1]) {
            Ok(t) => t,
            Err(e) => return Err(DatabaseError::Specific(error_text(&e))),
        };
        let blocks = match open_tree(&db, names[2]) {
            Ok(t) => t,
            Err(e) => return Err(DatabaseError::Specific(error_text(&e))),
        };
        let transactions = match open_tree(&db, names[3]) {
            Ok(t) => t,
            Err(e) => return Err(DatabaseError::Specific(error_text(&e))),
        };
        let meta = match open_tree(&db, names[4]) {
            Ok(t) => t,
            Err(e) => return Err(DatabaseError::Specific(error_text(&e))),
        };
        Ok(SledDB { db, pending_blocks, blocks, accounts, transactions, meta })
    }
}

} // verus!
