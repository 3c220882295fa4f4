//! Writes made inside a sled transaction, with a record of them.
//!
//! A tree seen from inside a transaction keeps the writes made through it
//! until the transaction commits them. The types here carry, next to the
//! tree or batch, the list of writes made through them so far; only the
//! functions of this file add to that list, each when it makes the write.
use crate::storage::sled::main::Writes;
use vstd::prelude::*;

verus! {

/// A tree inside a sled transaction, with the writes made through it so far,
/// oldest first.
pub struct StagedTree<'a> {
    tree: &'a ::sled::transaction::TransactionalTree,
    writes: Ghost<Writes>,
}

/// A batch of writes, with the writes added to it so far, oldest first.
pub struct StagedBatch {
    batch: ::sled::Batch,
    writes: Ghost<Writes>,
}

/// The writes made through each tree of a transaction: accounts, blocks,
/// transactions, claims.
pub struct StagedWrites {
    accounts: Ghost<Writes>,
    blocks: Ghost<Writes>,
    transactions: Ghost<Writes>,
    claims: Ghost<Writes>,
}

impl<'a> StagedTree<'a> {
    /// The writes made through this tree, oldest first.
    pub closed spec fn writes(&self) -> Writes {
        self.writes@
    }

    /// `tree`, with no writes made through it yet.
    pub fn new(tree: &'a ::sled::transaction::TransactionalTree) -> (r: Self)
        ensures
            r.writes() == Seq::<(Seq<u8>, Seq<u8>)>::empty(),
    {
        StagedTree { tree, writes: Ghost(Seq::empty()) }
    }
}

impl StagedBatch {
    /// The writes added to this batch, oldest first.
    pub closed spec fn writes(&self) -> Writes {
        self.writes@
    }
}

impl StagedWrites {
    /// The writes made through the accounts tree.
    pub closed spec fn accounts(&self) -> Writes {
        self.accounts@
    }

    /// The writes made through the blocks tree.
    pub closed spec fn blocks(&self) -> Writes {
        self.blocks@
    }

    /// The writes made through the transactions tree.
    pub closed spec fn transactions(&self) -> Writes {
        self.transactions@
    }

    /// The writes made through the claims tree.
    pub closed spec fn claims(&self) -> Writes {
        self.claims@
    }
}

/// The writes made through four trees of one transaction.
pub fn staged_writes(
    accounts: &StagedTree,
    blocks: &StagedTree,
    transactions: &StagedTree,
    claims: &StagedTree,
) -> (r: StagedWrites)
    ensures
        r.accounts() == accounts.writes(),
        r.blocks() == blocks.writes(),
        r.transactions() == transactions.writes(),
        r.claims() == claims.writes(),
{
    StagedWrites {
        accounts: Ghost(accounts.writes()),
        blocks: Ghost(blocks.writes()),
        transactions: Ghost(transactions.writes()),
        claims: Ghost(claims.writes()),
    }
}

/// Stores `value` under `key` in the transaction's view of the tree, through
/// `sled::transaction::TransactionalTree::insert`, which first reads the old
/// value (a failed read is the error, through sled's own conversion) and
/// then records the write. When it succeeds the write is added to the
/// tree's list of writes.
#[verifier::external_body]
pub(crate) fn tx_insert(tree: &mut StagedTree, key: &Vec<u8>, value: &Vec<u8>) -> (r: Result<
    (),
    ::sled::transaction::ConflictableTransactionError<()>,
>)
    ensures
        r is Ok ==> final(tree).writes() == old(tree).writes().push((key@, value@)),
        r is Err ==> final(tree).writes() == old(tree).writes(),
{
    match tree.tree.insert(key.as_slice(), value.as_slice()) {
        Ok(_) => Ok(()),
        Err(e) => Err(::sled::transaction::ConflictableTransactionError::from(e)),
    }
}

/// An empty batch of writes, through `sled::Batch::default`.
#[verifier::external_body]
pub(crate) fn new_batch() -> (r: StagedBatch)
    ensures
        r.writes() == Seq::<(Seq<u8>, Seq<u8>)>::empty(),
{
    StagedBatch { batch: ::sled::Batch::default(), writes: Ghost(Seq::empty()) }
}

/// Adds the write of `value` under `key` to `batch`, through
/// `sled::Batch::insert`, which keeps the last value given for a key.
#[verifier::external_body]
pub(crate) fn batch_insert(batch: &mut StagedBatch, key: &Vec<u8>, value: &Vec<u8>)
    ensures
        final(batch).writes() == old(batch).writes().push((key@, value@)),
{
    batch.batch.insert(key.as_slice(), value.as_slice());
}

/// Applies `batch` in the transaction's view of the tree, through
/// `sled::transaction::TransactionalTree::apply_batch`, which inserts each
/// of the batch's keys with its last value. When it succeeds the batch's
/// writes are added to the tree's list of writes; a batch keeps one value
/// per key, the last, so what the list stands for is the same.
#[verifier::external_body]
pub(crate) fn tx_apply_batch(tree: &mut StagedTree, batch: &StagedBatch) -> (r: Result<
    (),
    ::sled::transaction::ConflictableTransactionError<()>,
>)
    ensures
        r is Ok ==> final(tree).writes() == old(tree).writes() + batch.writes(),
{
    match tree.tree.apply_batch(&batch.batch) {
        Ok(_) => Ok(()),
        Err(e) => Err(::sled::transaction::ConflictableTransactionError::from(e)),
    }
}

} // verus!
