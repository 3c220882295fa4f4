//! Backend configuration, backend errors and the interface of a block store.
use crate::api::{
    AccountId, BlockFacts, BlockId, SignedBlock, SignedBlockView, Transaction, TransactionId,
    TransactionView,
};
use vstd::prelude::*;

verus! {

/// Represents a generic storage backend.
#[derive(Debug, Clone, Copy, PartialEq, Eq)]
#[non_exhaustive]
pub enum Databases {
    SQLite,
    Postgres,
    MySQL,
    Sled,
}

/// How to reach or where to keep the block store.
#[derive(Debug, Clone)]
pub struct DatabaseConfig {
    pub kind: Databases,
    pub uri: Option<String>,
    /// the database is deleted after it is dropped
    pub temporary: Option<bool>,
    /// absolute path or relative path (relative to the config file location)
    pub path: Option<String>,
    pub data_path: Option<String>,
}

impl Default for DatabaseConfig {
    fn default() -> (r: Self)
        ensures
            r.kind == Databases::Sled,
            r.path is None,
            r.temporary == Some(true),
            r.uri is None,
            r.data_path is None,
    {
        DatabaseConfig { kind: Databases::Sled, path: None, temporary: Some(true), uri: None, data_path: None }
    }
}

/// What can go wrong in a block store.
#[derive(Debug)]
pub enum DatabaseError {
    Unknown,
    DataNotFound,
    GetIDFailed,
    InvalidKind,
    NoLastBlock,
    BlockNotFound,
    DBInsertFailed(u32),
    Specific(String),
}

/// A block-store error, as a value.
pub enum DatabaseErrorView {
    Unknown,
    DataNotFound,
    GetIDFailed,
    InvalidKind,
    NoLastBlock,
    BlockNotFound,
    DBInsertFailed(u32),
    Specific(Seq<char>),
}

impl View for DatabaseError {
    type V = DatabaseErrorView;

    open spec fn view(&self) -> DatabaseErrorView {
        match self {
            DatabaseError::Unknown => DatabaseErrorView::Unknown,
            DatabaseError::DataNotFound => DatabaseErrorView::DataNotFound,
            DatabaseError::GetIDFailed => DatabaseErrorView::GetIDFailed,
            DatabaseError::InvalidKind => DatabaseErrorView::InvalidKind,
            DatabaseError::NoLastBlock => DatabaseErrorView::NoLastBlock,
            DatabaseError::BlockNotFound => DatabaseErrorView::BlockNotFound,
            DatabaseError::DBInsertFailed(l) => DatabaseErrorView::DBInsertFailed(*l),
            DatabaseError::Specific(s) => DatabaseErrorView::Specific(s@),
        }
    }
}

impl DatabaseError {
    /// The same error.
    pub fn duplicate(&self) -> (r: DatabaseError)
        ensures
            r@ == self@,
    {
        match self {
            DatabaseError::Unknown => DatabaseError::Unknown,
            DatabaseError::DataNotFound => DatabaseError::DataNotFound,
            DatabaseError::GetIDFailed => DatabaseError::GetIDFailed,
            DatabaseError::InvalidKind => DatabaseError::InvalidKind,
            DatabaseError::NoLastBlock => DatabaseError::NoLastBlock,
            DatabaseError::BlockNotFound => DatabaseError::BlockNotFound,
            DatabaseError::DBInsertFailed(l) => DatabaseError::DBInsertFailed(*l),
            DatabaseError::Specific(s) => DatabaseError::Specific(s.clone()),
        }
    }
}

/// A lookup result, as a value.
pub open spec fn block_result<T: View>(r: Result<T, DatabaseError>) -> Result<T::V, DatabaseErrorView> {
    match r {
        Ok(b) => Ok(b@),
        Err(e) => Err(e@),
    }
}

/// A lookup result that may find nothing, as a value.
pub open spec fn option_result<T: View>(r: Result<Option<T>, DatabaseError>) -> Result<
    Option<T::V>,
    DatabaseErrorView,
> {
    match r {
        Ok(Some(b)) => Ok(Some(b@)),
        Ok(None) => Ok(None),
        Err(e) => Err(e@),
    }
}

/// A lookup result that may find nothing, with a plain value and its error
/// as a value.
pub open spec fn option_plain_result<T>(r: Result<Option<T>, DatabaseError>) -> Result<Option<T>, DatabaseErrorView> {
    match r {
        Ok(v) => Ok(v),
        Err(e) => Err(e@),
    }
}

/// A result whose success value is plain, with its error as a value.
pub open spec fn plain_result<T>(r: Result<T, DatabaseError>) -> Result<T, DatabaseErrorView> {
    match r {
        Ok(b) => Ok(b),
        Err(e) => Err(e@),
    }
}

/// A block store. Each query is a function of the store's current content,
/// named by the matching spec function.
pub trait Database {
    spec fn block_by_id(&self, block_id: BlockId) -> Result<SignedBlockView, DatabaseErrorView>;

    spec fn block_by_height(&self, account_id: AccountId, block_height: u64) -> Result<
        Option<SignedBlockView>,
        DatabaseErrorView,
    >;

    spec fn transaction_by_id(&self, transaction_id: TransactionId) -> Result<
        TransactionView,
        DatabaseErrorView,
    >;

    spec fn latest_block_by_account(&self, account_id: AccountId) -> Result<
        SignedBlockView,
        DatabaseErrorView,
    >;

    spec fn latest_block_by_account_before(
        &self,
        account_id: AccountId,
        unix_from: u64,
        unix_limit: u64,
    ) -> Result<Option<SignedBlockView>, DatabaseErrorView>;

    spec fn account_delegate(&self, account_id: AccountId) -> Result<
        Option<AccountId>,
        DatabaseErrorView,
    >;

    spec fn delegates_by_account(&self, account_id: AccountId) -> Result<
        Set<AccountId>,
        DatabaseErrorView,
    >;

    spec fn send_recipient(&self, send_transaction_id: TransactionId) -> Result<
        Option<TransactionId>,
        DatabaseErrorView,
    >;

    fn get_block_by_id(&self, block_id: BlockId) -> (r: Result<SignedBlock, DatabaseError>)
        ensures
            block_result(r) == self.block_by_id(block_id),
    ;

    fn get_block_by_height(&self, account_id: AccountId, block_height: &u64) -> (r: Result<
        Option<SignedBlock>,
        DatabaseError,
    >)
        ensures
            option_result(r) == self.block_by_height(account_id, *block_height),
    ;

    fn get_transaction_by_id(&self, transaction_id: TransactionId) -> (r: Result<
        Transaction,
        DatabaseError,
    >)
        ensures
            block_result(r) == self.transaction_by_id(transaction_id),
    ;

    /// Finds the latest block for a given address
    ///
    /// Only includes confirmed blocks
    fn get_latest_block_by_account(&self, acc_id: AccountId) -> (r: Result<SignedBlock, DatabaseError>)
        ensures
            block_result(r) == self.latest_block_by_account(acc_id),
    ;

    /// Finds the latest block for a given address before a given date
    ///
    /// Set limit to 0 to keep looking until an accounts first transaction
    fn get_latest_block_by_account_before(
        &self,
        account_id: AccountId,
        unix_from: u64,
        unix_limit: u64,
    ) -> (r: Result<Option<SignedBlock>, DatabaseError>)
        ensures
            option_result(r) == self.latest_block_by_account_before(
                account_id,
                unix_from,
                unix_limit,
            ),
    ;

    /// Finds out if an account is delegating their power to someone else
    fn get_account_delegate(&self, account_id: AccountId) -> (r: Result<
        Option<AccountId>,
        DatabaseError,
    >)
        ensures
            plain_result(r) == self.account_delegate(account_id),
    ;

    /// Finds who is delegating power to an account; no account occurs twice
    fn get_delegates_by_account(&self, account_id: AccountId) -> (r: Result<
        Vec<AccountId>,
        DatabaseError,
    >)
        ensures
            match r {
                Ok(v) => {
                    &&& self.delegates_by_account(account_id) == Ok::<
                        Set<AccountId>,
                        DatabaseErrorView,
                    >(v@.to_set())
                    &&& v@.no_duplicates()
                },
                Err(e) => self.delegates_by_account(account_id) == Err::<
                    Set<AccountId>,
                    DatabaseErrorView,
                >(e@),
            },
    ;

    /// Adds a new block to the database
    fn add_block(&mut self, block: SignedBlock, facts: &BlockFacts) -> (r: Result<(), DatabaseError>);

    /// Get the transaction id claiming a send transaction
    fn get_send_recipient(&self, send_transaction_id: TransactionId) -> (r: Result<
        Option<TransactionId>,
        DatabaseError,
    >)
        ensures
            plain_result(r) == self.send_recipient(send_transaction_id),
    ;
}

} // verus!
