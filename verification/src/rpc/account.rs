//! The account service: balances, block heights, blocks and delegates, as
//! the block store has them.
use crate::api::{id_from_bytes, id_of_bytes, id_to_vec, AccountId, BlockId, SignedBlock};
use crate::storage::database::{Database, DatabaseErrorView};
use vstd::prelude::*;

verus! {

broadcast use vstd::string::group_string_axioms;

/// An RPC failure; every failure of this service has the status code
/// `Internal`, and differs by its message.
#[derive(Debug)]
pub struct RpcStatus {
    pub message: String,
}

/// A failure with `message`.
pub open spec fn fails_with<T>(r: Result<T, RpcStatus>, message: Seq<char>) -> bool {
    r matches Err(s) && s.message@ == message
}

/// A failure with the text of `message`.
fn status(message: &str) -> (r: RpcStatus)
    ensures
        r.message@ == message@,
{
    RpcStatus { message: message.to_string() }
}

/// Answers questions about accounts.
#[derive(Debug)]
pub struct AccountService {}

impl AccountService {
    /// The account service.
    pub fn new() -> (r: Self) {
        AccountService {  }
    }

    /// The balance of the account `address`: that of its latest block.
    pub fn get_balance<D: Database>(&self, db: &D, address: &Vec<u8>) -> (r: Result<u64, RpcStatus>)
        ensures
            address@.len() != 24 ==> fails_with(r, "Address could not be parsed"@),
            address@.len() == 24 ==> match db.latest_block_by_account(id_of_bytes::<24>(address@)) {
                Err(_) => fails_with(r, "internal server error"@),
                Ok(b) => match b.data {
                    Some(d) => r matches Ok(balance) && balance == d.balance,
                    None => fails_with(r, "missing Block data"@),
                },
            },
    {
        proof {
            reveal_strlit("Address could not be parsed");
            reveal_strlit("internal server error");
            reveal_strlit("missing Block data");
        }
        let account: AccountId = match id_from_bytes::<24>(address) {
            Some(a) => a,
            None => return Err(status("Address could not be parsed")),
        };
        let block = match db.get_latest_block_by_account(account) {
            Ok(b) => b,
            Err(_) => return Err(status("internal server error")),
        };
        match &block.data {
            Some(data) => Ok(data.balance),
            None => Err(status("missing Block data")),
        }
    }

    /// The height of the latest block of the account `address` (0 where it
    /// has none yet), plus one when the next height is asked for.
    pub fn get_block_height<D: Database>(&self, db: &D, address: &Vec<u8>, get_next: Option<bool>) -> (r: Result<
        u64,
        RpcStatus,
    >)
        requires
            address@.len() == 24 && get_next == Some(true) ==> match db.latest_block_by_account(
                id_of_bytes::<24>(address@),
            ) {
                Ok(b) => b.data matches Some(d) ==> d.height < u64::MAX,
                Err(_) => true,
            },
        ensures
            address@.len() != 24 ==> fails_with(r, "Address could not be parsed"@),
            address@.len() == 24 ==> {
                let next: int = if get_next == Some(true) { 1 } else { 0 };
                match db.latest_block_by_account(id_of_bytes::<24>(address@)) {
                    Ok(b) => match b.data {
                        Some(d) => r matches Ok(h) && h == d.height + next,
                        None => fails_with(r, "missing Block data"@),
                    },
                    Err(DatabaseErrorView::NoLastBlock) => r matches Ok(h) && h == next,
                    Err(_) => fails_with(r, "couldn't get last block"@),
                }
            },
    {
        proof {
            reveal_strlit("Address could not be parsed");
            reveal_strlit("couldn't get last block");
            reveal_strlit("missing Block data");
        }
        let next: u64 = match get_next {
            Some(true) => 1,
            _ => 0,
        };
        let account: AccountId = match id_from_bytes::<24>(address) {
            Some(a) => a,
            None => return Err(status("Address could not be parsed")),
        };
        let height = match db.get_latest_block_by_account(account) {
            Ok(b) => match &b.data {
                Some(d) => d.height,
                None => return Err(status("missing Block data")),
            },
            Err(crate::storage::database::DatabaseError::NoLastBlock) => 0,
            Err(_) => return Err(status("couldn't get last block")),
        };
        Ok(height + next)
    }

    /// The block with id `hash`.
    pub fn get_block_by_id<D: Database>(&self, db: &D, hash: &Vec<u8>) -> (r: Result<SignedBlock, RpcStatus>)
        ensures
            hash@.len() != 32 ==> fails_with(r, "couldn't parse address"@),
            hash@.len() == 32 ==> match db.block_by_id(id_of_bytes::<32>(hash@)) {
                Ok(b) => r matches Ok(block) && block@ == b,
                Err(_) => fails_with(r, "internal server error"@),
            },
    {
        proof {
            reveal_strlit("couldn't parse address");
            reveal_strlit("internal server error");
        }
        let block_id: BlockId = match id_from_bytes::<32>(hash) {
            Some(id) => id,
            None => return Err(status("couldn't parse address")),
        };
        match db.get_block_by_id(block_id) {
            Ok(b) => Ok(b),
            Err(_) => Err(status("internal server error")),
        }
    }

    /// The account that the account `address` delegates to.
    pub fn get_delegate<D: Database>(&self, db: &D, address: &Vec<u8>) -> (r: Result<Vec<u8>, RpcStatus>)
        ensures
            address@.len() != 24 ==> fails_with(r, "Address could not be parsed"@),
            address@.len() == 24 ==> match db.account_delegate(id_of_bytes::<24>(address@)) {
                Ok(Some(d)) => r matches Ok(v) && v@ == d@,
                Ok(None) => fails_with(r, "missing Block data"@),
                Err(_) => fails_with(r, "internal server error"@),
            },
    {
        proof {
            reveal_strlit("Address could not be parsed");
            reveal_strlit("internal server error");
            reveal_strlit("missing Block data");
        }
        let account: AccountId = match id_from_bytes::<24>(address) {
            Some(a) => a,
            None => return Err(status("Address could not be parsed")),
        };
        match db.get_account_delegate(account) {
            Ok(Some(d)) => Ok(id_to_vec(&d)),
            Ok(None) => Err(status("missing Block data")),
            Err(_) => Err(status("internal server error")),
        }
    }
}

} // verus!
