//! The `accounts` table.
use vstd::prelude::*;

verus! {

/// How an account row relates to other rows.
#[derive(Debug, Clone, Copy, PartialEq, Eq)]
pub enum Relation {
    /// the account's blocks
    Block,
    /// its latest block (`latest_block` -> `blocks.block_id`)
    LatestBlock,
    /// the account it delegates to (`delegate` -> `accounts.account_id_v1`)
    Delegate,
}

} // verus!
