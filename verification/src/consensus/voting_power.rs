//! Voting power. An account's actual power is computed (in floating point,
//! outside this library) from three of its blocks: the latest, the latest
//! one between one and two months older, and the first. Its active power
//! adds the actual power of the accounts that delegate to it, capped at the
//! share of the network's power that a single node may hold.
use crate::api::{AccountId, SignedBlock, SignedBlockView};
use crate::storage::database::{Database, DatabaseError, DatabaseErrorView};
use vstd::prelude::*;

verus! {

/// A month, in seconds.
pub const LOOKBACK_RANGE: u64 = 2592000;

/// Two months, in seconds.
pub const MAX_LOOKBACK_RANGE: u64 = 5184000;

/// The blocks an account's actual power is computed from.
pub struct PowerBlocks {
    /// the account's latest block
    pub latest: SignedBlock,
    /// its latest block between one and two months before the latest
    pub old: SignedBlock,
    /// its first block (height 0)
    pub first: SignedBlock,
}

/// Why the blocks could not be gathered.
#[derive(Debug)]
pub enum PowerError {
    /// the block store failed
    Database(DatabaseError),
    /// "no block found": the account has no first block
    NoFirstBlock,
    /// "block not found": the account has no block in the lookback window
    NoOldBlock,
    /// a block carries no data to read a balance from
    MissingData,
}

/// The blocks gathered for `account`, as values, or why they are not
/// there. The latest block's timestamp must leave room for the lookback.
pub open spec fn power_blocks_spec<D: Database>(db: &D, account: AccountId) -> Result<
    (SignedBlockView, SignedBlockView, SignedBlockView),
    Option<DatabaseErrorView>,
> {
    match db.latest_block_by_account(account) {
        Err(e) => Err(Some(e)),
        Ok(latest) => match db.latest_block_by_account_before(
            account,
            (latest.timestamp - LOOKBACK_RANGE) as u64,
            (latest.timestamp - MAX_LOOKBACK_RANGE) as u64,
        ) {
            Err(e) => Err(Some(e)),
            Ok(old) => match db.block_by_height(account, 0) {
                Err(e) => Err(Some(e)),
                Ok(None) => Err(None),
                Ok(Some(first)) => match old {
                    None => Err(None),
                    Some(o) => Ok((latest, o, first)),
                },
            },
        },
    }
}

/// Gathers the blocks `account`'s actual power is computed from: its latest
/// block, its latest block older than a month but not older than two
/// months before that, and its first block. Each block must carry data.
pub fn power_blocks<D: Database>(db: &D, account: AccountId) -> (r: Result<PowerBlocks, PowerError>)
    requires
        db.latest_block_by_account(account) matches Ok(b) ==> b.timestamp >= MAX_LOOKBACK_RANGE,
    ensures
        match power_blocks_spec(db, account) {
            Ok((latest, old, first)) => match r {
                Ok(p) => p.latest@ == latest && p.old@ == old && p.first@ == first && latest.data is Some
                    && old.data is Some,
                Err(e) => e is MissingData && (latest.data is None || old.data is None),
            },
            Err(Some(e)) => r matches Err(PowerError::Database(d)) && d@ == e,
            Err(None) => match r {
                Err(PowerError::NoFirstBlock) => db.block_by_height(account, 0) == Ok::<
                    Option<SignedBlockView>,
                    DatabaseErrorView,
                >(None),
                Err(PowerError::NoOldBlock) => db.block_by_height(account, 0) is Ok,
                _ => false,
            },
        },
{
    let latest = match db.get_latest_block_by_account(account) {
        Ok(b) => b,
        Err(e) => return Err(PowerError::Database(e)),
    };
    let from = latest.timestamp - LOOKBACK_RANGE;
    let limit = latest.timestamp - MAX_LOOKBACK_RANGE;
    let old = match db.get_latest_block_by_account_before(account, from, limit) {
        Ok(b) => b,
        Err(e) => return Err(PowerError::Database(e)),
    };
    let first = match db.get_block_by_height(account, &0) {
        Ok(Some(b)) => b,
        Ok(None) => return Err(PowerError::NoFirstBlock),
        Err(e) => return Err(PowerError::Database(e)),
    };
    let old = match old {
        Some(b) => b,
        None => return Err(PowerError::NoOldBlock),
    };
    if latest.data.is_none() || old.data.is_none() {
        return Err(PowerError::MissingData);
    }
    Ok(PowerBlocks { latest, old, first })
}

/// The active power of an account: its actual power and the power
/// delegated to it, capped at `allowed`, the power a single node may hold.
pub fn active_power(actual: u64, delegated: u64, allowed: u64) -> (r: u64)
    requires
        actual + delegated <= u64::MAX,
    ensures
        actual + delegated > allowed ==> r == allowed,
        actual + delegated <= allowed ==> r == actual + delegated,
{
    let total = actual + delegated;
    if total > allowed {
        allowed
    } else {
        total
    }
}

/// The power delegated to an account: the sum of the actual powers of the
/// accounts that delegate to it.
pub open spec fn delegated_sum(powers: Seq<u64>) -> int
    decreases powers.len(),
{
    if powers.len() == 0 {
        0
    } else {
        delegated_sum(powers.drop_last()) + powers.last()
    }
}

/// Adds up the actual powers of the delegating accounts.
pub fn delegated_power(powers: &Vec<u64>) -> (r: u64)
    requires
        delegated_sum(powers@) <= u64::MAX,
    ensures
        r == delegated_sum(powers@),
{
    let mut total: u64 = 0;
    let mut i: usize = 0;
    while i < powers.len()
        invariant
            i <= powers@.len(),
            total == delegated_sum(powers@.subrange(0, i as int)),
            delegated_sum(powers@) <= u64::MAX,
        decreases powers@.len() - i,
    {
        proof {
            lemma_delegated_sum_prefix(powers@, i as int + 1);
            assert(powers@.subrange(0, i as int + 1).drop_last() =~= powers@.subrange(0, i as int));
        }
        total = total + powers[i];
        i = i + 1;
    }
    assert(powers@.subrange(0, powers@.len() as int) =~= powers@);
    total
}

/// A prefix of a list of powers sums to no more than the whole list.
proof fn lemma_delegated_sum_prefix(powers: Seq<u64>, n: int)
    requires
        0 <= n <= powers.len(),
    ensures
        delegated_sum(powers.subrange(0, n)) <= delegated_sum(powers),
    decreases powers.len() - n,
{
    if n < powers.len() {
        lemma_delegated_sum_prefix(powers, n + 1);
        assert(powers.subrange(0, n + 1).drop_last() =~= powers.subrange(0, n));
    } else {
        assert(powers.subrange(0, n) =~= powers);
    }
}

/// The active power never exceeds what a single node may hold, and never
/// exceeds the account's own and delegated power together.
pub proof fn law_active_power_capped(actual: u64, delegated: u64, allowed: u64, r: u64)
    requires
        actual + delegated <= u64::MAX,
        actual + delegated > allowed ==> r == allowed,
        actual + delegated <= allowed ==> r == actual + delegated,
    ensures
        r <= allowed,
        r <= actual + delegated,
{
}

} // verus!
