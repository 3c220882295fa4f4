//! The `tx_claim` table: which transaction claimed which send transaction.
use vstd::prelude::*;

verus! {

/// How a claim row relates to other rows.
#[derive(Debug, Clone, Copy, PartialEq, Eq)]
pub enum Relation {
    /// the claimed send transaction (`send_tx_id` -> `transaction_id`)
    SendTransaction,
    /// the claiming transaction (`claim_tx_id` -> `transaction_id`)
    ClaimTransaction,
}

} // verus!
