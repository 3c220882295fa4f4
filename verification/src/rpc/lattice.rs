//! The lattice service: an account's latest block, pages of blocks, and
//! submitting a block while consensus is skipped for debugging.
use crate::api::{id_from_bytes, id_of_bytes, AccountId, SignedBlock};
use crate::rpc::account::{fails_with, RpcStatus};
use crate::storage::database::{Database, DatabaseError, DatabaseErrorView};
use vstd::prelude::*;

verus! {

broadcast use vstd::string::group_string_axioms;

/// A failure with the text of `message`.
fn status(message: &str) -> (r: RpcStatus)
    ensures
        r.message@ == message@,
{
    RpcStatus { message: message.to_string() }
}

/// Answers questions about the block lattice.
#[derive(Debug)]
pub struct LatticeService {}

/// The largest page of blocks that may be asked for.
pub const MAX_BLOCKS_LIMIT: u32 = 100;

impl LatticeService {
    /// The lattice service.
    pub fn new() -> (r: Self) {
        LatticeService {  }
    }

    /// The latest block of the account `address`; `None` when it has none.
    pub fn get_latest_block<D: Database>(&self, db: &D, address: &Vec<u8>) -> (r: Result<
        Option<SignedBlock>,
        RpcStatus,
    >)
        ensures
            address@.len() != 24 ==> fails_with(r, "Address could not be parsed"@),
            address@.len() == 24 ==> match db.latest_block_by_account(id_of_bytes::<24>(address@)) {
                Ok(b) => r matches Ok(Some(block)) && block@ == b,
                Err(DatabaseErrorView::NoLastBlock) => r matches Ok(None),
                Err(_) => fails_with(r, "couldn't get last block"@),
            },
    {
        proof {
            reveal_strlit("Address could not be parsed");
            reveal_strlit("couldn't get last block");
        }
        let account: AccountId = match id_from_bytes::<24>(address) {
            Some(a) => a,
            None => return Err(status("Address could not be parsed")),
        };
        match db.get_latest_block_by_account(account) {
            Ok(b) => Ok(Some(b)),
            Err(DatabaseError::NoLastBlock) => Ok(None),
            Err(_) => Err(status("couldn't get last block")),
        }
    }

    /// Checks a request for a page of blocks: at most `MAX_BLOCKS_LIMIT`
    /// blocks may be asked for.
    pub fn check_blocks_limit(&self, limit: u32) -> (r: Result<(), RpcStatus>)
        ensures
            limit > MAX_BLOCKS_LIMIT ==> fails_with(r, "limit has to be < 100"@),
            limit <= MAX_BLOCKS_LIMIT ==> r is Ok,
    {
        if limit > MAX_BLOCKS_LIMIT {
            proof {
                reveal_strlit("limit has to be < 100");
            }
            return Err(status("limit has to be < 100"));
        }
        Ok(())
    }

    /// Submits a decoded block. Only while consensus is skipped for
    /// debugging is it stored right away: first validated unless validation
    /// is skipped too, then added to the store. `valid` and `stored` are the
    /// outcomes of validating and of storing it; each is consulted only when
    /// that step runs (`None` before).
    pub fn submit_block(
        &self,
        skip_consensus: bool,
        skip_validation: bool,
        valid: Option<bool>,
        stored: Option<bool>,
    ) -> (r: Result<SubmitStep, RpcStatus>)
        ensures
            !skip_consensus ==> r matches Ok(SubmitStep::Done),
            skip_consensus && !skip_validation && valid is None ==> r matches Ok(SubmitStep::Validate),
            skip_consensus && !skip_validation && valid == Some(false) ==> fails_with(r, "invalid block: validation"@),
            skip_consensus && (skip_validation || valid == Some(true)) ==> match stored {
                None => r matches Ok(SubmitStep::Store),
                Some(true) => r matches Ok(SubmitStep::Done),
                Some(false) => fails_with(r, "internal server error"@),
            },
    {
        proof {
            reveal_strlit("invalid block: validation");
            reveal_strlit("internal server error");
        }
        if !skip_consensus {
            return Ok(SubmitStep::Done);
        }
        if !skip_validation {
            match valid {
                None => return Ok(SubmitStep::Validate),
                Some(false) => return Err(status("invalid block: validation")),
                Some(true) => {},
            }
        }
        match stored {
            None => Ok(SubmitStep::Store),
            Some(true) => Ok(SubmitStep::Done),
            Some(false) => Err(status("internal server error")),
        }
    }
}

/// What submitting a block does next.
#[derive(Debug, Clone, Copy, PartialEq, Eq)]
pub enum SubmitStep {
    /// validate the block, then ask again with the outcome
    Validate,
    /// store the block, then ask again with the outcome
    Store,
    /// answer that the block was taken
    Done,
}

} // verus!
