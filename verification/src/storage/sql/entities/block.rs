//! The `blocks` table.
use vstd::prelude::*;

verus! {

/// The version of a block's format, stored as a number.
#[derive(Debug, Clone, Copy, PartialEq, Eq)]
pub enum BlockVersion {
    V1,
}

impl BlockVersion {
    /// The number under which the version is stored.
    pub fn num_value(&self) -> (r: u8)
        ensures
            r == 0,
    {
        match self {
            BlockVersion::V1 => 0,
        }
    }

    /// The version stored under `value`, if any.
    pub fn from_num_value(value: u8) -> (r: Option<BlockVersion>)
        ensures
            value == 0 ==> r == Some(BlockVersion::V1),
            value != 0 ==> r is None,
    {
        if value == 0 {
            Some(BlockVersion::V1)
        } else {
            None
        }
    }
}

/// How a block row relates to other rows.
#[derive(Debug, Clone, Copy, PartialEq, Eq)]
pub enum Relation {
    /// the account that signed it (`public_key` -> `accounts.public_key`)
    Account,
    /// its transactions
    Transaction,
}

} // verus!
