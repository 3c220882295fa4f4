//! An in-memory block store: blocks and transactions in maps ordered by
//! identifier, accounts in a map by account id.
use crate::api::{
    contains_id, id_equal, id_from_bytes, id_less, id_of_bytes, id_lt, id_to_vec, lemma_id_order, Account, AccountId,
    AccountView, BlockFacts, BlockId, Data, DataView, SignedBlock, SignedBlockView, Transaction,
    TransactionId, TransactionView, copy_transactions,
};
use crate::storage::database::{
    plain_result, Database, DatabaseError, DatabaseErrorView,
};
use crate::storage::keyed::{
    entries_map, is_max_key_where, keys_sorted, lemma_entries_contains, lemma_entries_insert,
    lemma_entries_lookup, lemma_entries_update, lemma_last_match_is_max, lemma_no_match,
    max_key_where, has_key,
};
use vstd::prelude::*;

verus! {

broadcast use vstd::string::group_string_axioms;

/// An entry of an identifier-keyed map.
pub struct Entry<const N: usize, V> {
    pub id: [u8; N],
    pub value: V,
}

/// A sequence of entries as (key, value) pairs.
pub open spec fn entries_view<const N: usize, V: View>(s: Seq<Entry<N, V>>) -> Seq<([u8; N], V::V)> {
    s.map_values(|e: Entry<N, V>| (e.id, e.value@))
}

/// A stored block and the account that signed it.
pub struct BlockRecord {
    pub block: SignedBlock,
    pub account: AccountId,
}

impl View for BlockRecord {
    type V = (SignedBlockView, AccountId);

    open spec fn view(&self) -> (SignedBlockView, AccountId) {
        (self.block@, self.account)
    }
}

/// A stored transaction and the account whose block holds it.
pub struct TxRecord {
    pub tx: Transaction,
    pub account: AccountId,
}

impl View for TxRecord {
    type V = (TransactionView, AccountId);

    open spec fn view(&self) -> (TransactionView, AccountId) {
        (self.tx@, self.account)
    }
}

/// A stored account with the ids of its blocks and transactions, in the
/// order they were added.
pub struct AccountRecord {
    pub account: Account,
    pub blocks: Vec<BlockId>,
    pub transactions: Vec<TransactionId>,
}

impl View for AccountRecord {
    type V = (AccountView, Seq<BlockId>, Seq<TransactionId>);

    open spec fn view(&self) -> (AccountView, Seq<BlockId>, Seq<TransactionId>) {
        (self.account@, self.blocks@, self.transactions@)
    }
}

/// Where `id` stands in a sorted list of entries: the number of entries with
/// a smaller key, and whether the entry there has key `id`.
fn position<const N: usize, V: View>(entries: &Vec<Entry<N, V>>, id: &[u8; N]) -> (r: (usize, bool))
    requires
        keys_sorted(entries_view(entries@)),
    ensures
        r.0 <= entries@.len(),
        forall|i: int| 0 <= i < r.0 ==> id_lt(#[trigger] entries@[i].id, *id),
        r.1 ==> r.0 < entries@.len() && entries@[r.0 as int].id == *id,
        !r.1 ==> forall|i: int| r.0 <= i < entries@.len() ==> id_lt(*id, #[trigger] entries@[i].id),
        r.1 == has_key(entries_view(entries@), *id),
{
    let ghost s = entries_view(entries@);
    let mut i: usize = 0;
    while i < entries.len() && id_less(&entries[i].id, id)
        invariant
            0 <= i <= entries@.len(),
            s == entries_view(entries@),
            keys_sorted(s),
            forall|j: int| 0 <= j < i ==> id_lt(#[trigger] entries@[j].id, *id),
        decreases entries@.len() - i,
    {
        assert(s[i as int].0 == entries@[i as int].id);
        i = i + 1;
    }
    let found = i < entries.len() && id_equal(&entries[i].id, id);
    proof {
        if found {
            assert(s[i as int].0 == *id);
        } else if i < entries@.len() {
            lemma_id_order(entries@[i as int].id, *id, *id);
            assert forall|j: int| i <= j < entries@.len() implies id_lt(*id, #[trigger] entries@[j].id) by {
                assert(s[j].0 == entries@[j].id);
                assert(s[i as int].0 == entries@[i as int].id);
                if j > i {
                    lemma_id_order(*id, entries@[i as int].id, entries@[j].id);
                }
            }
        }
        if has_key(s, *id) {
            let k = choose|k: int| 0 <= k < s.len() && #[trigger] s[k].0 == *id;
            assert(s[k].0 == entries@[k].id);
            lemma_id_order(*id, *id, *id);
        }
        if found {
            assert(s[i as int].0 == *id);
        }
    }
    (i, found)
}

/// The entry at `j` is the last delegation made by `a`.
pub open spec fn last_delegation_at(s: Seq<(TransactionId, (TransactionView, AccountId))>, a: AccountId, j: int) -> bool {
    &&& 0 <= j < s.len()
    &&& delegation_by(a)(s[j].0, s[j].1)
    &&& forall|j2: int| j < j2 < s.len() ==> !(#[trigger] delegation_by(a)(s[j2].0, s[j2].1))
}

/// Looking one entry further down: the last delegation of `a` from `i - 1`
/// on is the one from `i` on, or the entry at `i - 1` when there is none
/// from `i` on.
proof fn lemma_last_delegation_step(
    s: Seq<(TransactionId, (TransactionView, AccountId))>,
    a: AccountId,
    i: int,
    account_id: AccountId,
)
    requires
        0 < i <= s.len(),
    ensures
        (exists|j: int| i - 1 <= j < s.len() && last_delegation_at(s, a, j) && representative_of(s[j].1.0) == account_id@)
            <==> if exists|j: int| i <= j < s.len() && (#[trigger] delegation_by(a)(s[j].0, s[j].1)) {
            exists|j: int| i <= j < s.len() && last_delegation_at(s, a, j) && representative_of(s[j].1.0) == account_id@
        } else {
            delegation_by(a)(s[i - 1].0, s[i - 1].1) && representative_of(s[i - 1].1.0) == account_id@
        },
{
    if exists|j: int| i <= j < s.len() && (#[trigger] delegation_by(a)(s[j].0, s[j].1)) {
        let w = choose|j: int| i <= j < s.len() && (#[trigger] delegation_by(a)(s[j].0, s[j].1));
        if exists|j: int| i - 1 <= j < s.len() && last_delegation_at(s, a, j) && representative_of(s[j].1.0) == account_id@ {
            let j = choose|j: int| i - 1 <= j < s.len() && last_delegation_at(s, a, j) && representative_of(s[j].1.0)
                == account_id@;
            if j == i - 1 {
                assert(!delegation_by(a)(s[w].0, s[w].1));
            }
        }
    } else {
        if delegation_by(a)(s[i - 1].0, s[i - 1].1) && representative_of(s[i - 1].1.0) == account_id@ {
            assert(last_delegation_at(s, a, i - 1));
        }
    }
}

/// Whether `a` has a latest delegation in the map, and which entry holds it.
proof fn lemma_latest_delegation(s: Seq<(TransactionId, (TransactionView, AccountId))>, a: AccountId)
    requires
        keys_sorted(s),
    ensures
        (forall|j: int| 0 <= j < s.len() ==> !(#[trigger] delegation_by(a)(s[j].0, s[j].1))) ==> max_key_where(
            entries_map(s),
            delegation_by(a),
        ) is None,
        forall|j: int|
            last_delegation_at(s, a, j) ==> max_key_where(entries_map(s), delegation_by(a)) == Some(s[j].0)
                && entries_map(s)[s[j].0] == s[j].1,
        (exists|j: int| 0 <= j < s.len() && (#[trigger] delegation_by(a)(s[j].0, s[j].1))) ==> exists|j: int|
            last_delegation_at(s, a, j),
{
    if forall|j: int| 0 <= j < s.len() ==> !(#[trigger] delegation_by(a)(s[j].0, s[j].1)) {
        lemma_no_match(s, delegation_by(a));
    }
    assert forall|j: int| last_delegation_at(s, a, j) implies max_key_where(entries_map(s), delegation_by(a))
        == Some(s[j].0) && entries_map(s)[s[j].0] == s[j].1 by {
        lemma_last_match_is_max(s, delegation_by(a), j);
        lemma_entries_lookup(s, j);
    }
    if exists|j: int| 0 <= j < s.len() && (#[trigger] delegation_by(a)(s[j].0, s[j].1)) {
        lemma_last_delegation_exists(s, a, s.len() as int);
    }
}

/// Among the first `n` entries, a delegation of `a` is followed by a last
/// one.
proof fn lemma_last_delegation_exists(s: Seq<(TransactionId, (TransactionView, AccountId))>, a: AccountId, n: int)
    requires
        0 <= n <= s.len(),
        exists|j: int| 0 <= j < s.len() && (#[trigger] delegation_by(a)(s[j].0, s[j].1)),
        forall|j: int| n <= j < s.len() ==> !(#[trigger] delegation_by(a)(s[j].0, s[j].1)),
    ensures
        exists|j: int| last_delegation_at(s, a, j),
    decreases n,
{
    if n > 0 {
        if delegation_by(a)(s[n - 1].0, s[n - 1].1) {
            assert(last_delegation_at(s, a, n - 1));
        } else {
            lemma_last_delegation_exists(s, a, n - 1);
        }
    } else {
        let j = choose|j: int| 0 <= j < s.len() && (#[trigger] delegation_by(a)(s[j].0, s[j].1));
        assert(false);
    }
}

/// In a sorted sequence of blocks, an entry that satisfies `p`, at least as
/// recent as every other such entry and after every equally recent one,
/// holds the most recent block of the map.
proof fn lemma_latest_entry(
    s: Seq<(BlockId, (SignedBlockView, AccountId))>,
    p: spec_fn(BlockId, (SignedBlockView, AccountId)) -> bool,
    b: int,
)
    requires
        keys_sorted(s),
        0 <= b < s.len(),
        p(s[b].0, s[b].1),
        forall|j: int|
            0 <= j < s.len() && p(#[trigger] s[j].0, s[j].1) ==> s[j].1.0.timestamp < s[b].1.0.timestamp || (
            s[j].1.0.timestamp == s[b].1.0.timestamp && j <= b),
    ensures
        latest_where(entries_map(s), p) == Some(s[b].0),
        entries_map(s)[s[b].0] == s[b].1,
{
    let m = entries_map(s);
    lemma_entries_lookup(s, b);
    assert forall|k2: BlockId| #[trigger] m.contains_key(k2) && p(k2, m[k2]) implies m[k2].0.timestamp
        < m[s[b].0].0.timestamp || (m[k2].0.timestamp == m[s[b].0].0.timestamp && !id_lt(s[b].0, k2)) by {
        lemma_entries_contains(s, k2);
        let j = choose|j: int| 0 <= j < s.len() && #[trigger] s[j].0 == k2 && m[k2] == s[j].1;
        if j < b {
            lemma_id_order(s[j].0, s[b].0, s[b].0);
        } else if j == b {
            lemma_id_order(s[b].0, s[b].0, s[b].0);
        }
    }
    assert(is_latest_where(m, p, s[b].0));
    let c = choose|k: BlockId| is_latest_where(m, p, k);
    assert(is_latest_where(m, p, c));
    lemma_id_order(c, s[b].0, s[b].0);
}

/// When no entry of a sorted sequence of blocks satisfies `p`, the map has
/// no most recent such block.
proof fn lemma_no_latest(
    s: Seq<(BlockId, (SignedBlockView, AccountId))>,
    p: spec_fn(BlockId, (SignedBlockView, AccountId)) -> bool,
)
    requires
        keys_sorted(s),
        forall|j: int| 0 <= j < s.len() ==> !p(#[trigger] s[j].0, s[j].1),
    ensures
        latest_where(entries_map(s), p) is None,
{
    lemma_no_match(s, p);
}

/// Reported with `DBInsertFailed` when the block's id is already stored.
pub const DUPLICATE_BLOCK_AT: u32 = 93;

/// Reported with `DBInsertFailed` when a transaction's id is already stored.
pub const DUPLICATE_TRANSACTION_AT: u32 = 103;

/// The content of the in-memory store.
pub struct MockDBView {
    /// block id -> (block, account that signed it)
    pub blocks: Map<BlockId, (SignedBlockView, AccountId)>,
    /// account id -> (account, its block ids, its transaction ids)
    pub accounts: Map<AccountId, (AccountView, Seq<BlockId>, Seq<TransactionId>)>,
    /// transaction id -> (transaction, account whose block holds it)
    pub transactions: Map<TransactionId, (TransactionView, AccountId)>,
}

/// A block of `account_id` at height `height`.
pub open spec fn height_match(account_id: AccountId, height: u64) -> spec_fn(
    BlockId,
    (SignedBlockView, AccountId),
) -> bool {
    |k: BlockId, e: (SignedBlockView, AccountId)|
        e.1 == account_id && (e.0.data matches Some(d) && d.height == height)
}

/// A block of `account_id` older than `unix_from` or older than `unix_limit`.
pub open spec fn before_match(account_id: AccountId, unix_from: u64, unix_limit: u64) -> spec_fn(
    BlockId,
    (SignedBlockView, AccountId),
) -> bool {
    |k: BlockId, e: (SignedBlockView, AccountId)|
        e.1 == account_id && (e.0.timestamp < unix_limit || e.0.timestamp < unix_from)
}

/// `k` holds the most recent block of `m` whose entry satisfies `p`: no
/// such block is more recent, and of equally recent ones it has the
/// greatest id.
pub open spec fn is_latest_where(
    m: Map<BlockId, (SignedBlockView, AccountId)>,
    p: spec_fn(BlockId, (SignedBlockView, AccountId)) -> bool,
    k: BlockId,
) -> bool {
    &&& m.contains_key(k)
    &&& p(k, m[k])
    &&& forall|k2: BlockId|
        #[trigger] m.contains_key(k2) && p(k2, m[k2]) ==> m[k2].0.timestamp < m[k].0.timestamp || (
        m[k2].0.timestamp == m[k].0.timestamp && !id_lt(k, k2))
}

/// The most recent block of `m` whose entry satisfies `p`, if any entry does.
pub open spec fn latest_where(
    m: Map<BlockId, (SignedBlockView, AccountId)>,
    p: spec_fn(BlockId, (SignedBlockView, AccountId)) -> bool,
) -> Option<BlockId> {
    if exists|k: BlockId| is_latest_where(m, p, k) {
        Some(choose|k: BlockId| is_latest_where(m, p, k))
    } else {
        None
    }
}

/// A delegation made by `account_id`.
pub open spec fn delegation_by(account_id: AccountId) -> spec_fn(
    TransactionId,
    (TransactionView, AccountId),
) -> bool {
    |k: TransactionId, e: (TransactionView, AccountId)|
        e.1 == account_id && (e.0.data matches Some(DataView::TxDelegate { .. }))
}

/// A claim of the send transaction `send_id`.
pub open spec fn claim_of(send_id: TransactionId) -> spec_fn(
    TransactionId,
    (TransactionView, AccountId),
) -> bool {
    |k: TransactionId, e: (TransactionView, AccountId)|
        (e.0.data matches Some(DataView::TxCollect { transaction_id }) && transaction_id == send_id@)
}

/// The representative named by a delegation.
pub open spec fn representative_of(tx: TransactionView) -> Seq<u8> {
    match tx.data {
        Some(DataView::TxDelegate { representative }) => representative,
        _ => Seq::empty(),
    }
}


/// The account a new account id starts with.
pub open spec fn new_account_view(account_id: AccountId) -> AccountView {
    AccountView {
        account_type: 0,
        address: account_id@,
        voting_power: 0,
        public_key: Seq::empty(),
        private_key: Seq::empty(),
    }
}


/// The id given for the transaction at `i`; `None` when it is missing.
pub open spec fn tx_id_at(ids: Seq<Option<TransactionId>>, i: int) -> Option<TransactionId> {
    if 0 <= i < ids.len() {
        ids[i]
    } else {
        None
    }
}

/// The store after adding the first `n` transactions of a block of
/// `account_id`, stopping at the first that fails, and how that went.
pub open spec fn add_transactions(
    db: MockDBView,
    account_id: AccountId,
    txs: Seq<TransactionView>,
    ids: Seq<Option<TransactionId>>,
    n: nat,
) -> (MockDBView, Result<(), DatabaseErrorView>)
    decreases n,
{
    if n == 0 {
        (db, Ok(()))
    } else {
        let (d, r) = add_transactions(db, account_id, txs, ids, (n - 1) as nat);
        if r is Err {
            (d, r)
        } else {
            match tx_id_at(ids, n - 1) {
                None => (d, Err(DatabaseErrorView::GetIDFailed)),
                Some(tid) => if d.transactions.contains_key(tid) {
                    (d, Err(DatabaseErrorView::DBInsertFailed(DUPLICATE_TRANSACTION_AT)))
                } else {
                    let a = d.accounts[account_id];
                    (
                        MockDBView {
                            accounts: d.accounts.insert(account_id, (a.0, a.1, a.2.push(tid))),
                            transactions: d.transactions.insert(tid, (txs[n - 1], account_id)),
                            ..d
                        },
                        Ok(()),
                    )
                },
            }
        }
    }
}

/// The store after adding `block`, and how that went. What was changed
/// before a step failed stays changed.
pub open spec fn add_block_effect(
    db: MockDBView,
    block: SignedBlockView,
    block_id: Option<BlockId>,
    account_id: Option<AccountId>,
    tx_ids: Seq<Option<TransactionId>>,
) -> (MockDBView, Result<(), DatabaseErrorView>) {
    match block.data {
        None => (db, Err(DatabaseErrorView::DataNotFound)),
        Some(data) => match account_id {
            None => (db, Err(DatabaseErrorView::Specific("account ID could not be generated"@))),
            Some(acc) => match block_id {
                None => (db, Err(DatabaseErrorView::GetIDFailed)),
                Some(bid) => if data.height == 0 && db.accounts.contains_key(acc) {
                    (
                        db,
                        Err(
                            DatabaseErrorView::Specific(
                                "account already exists but block height == 0"@,
                            ),
                        ),
                    )
                } else {
                    let db1 = if data.height == 0 {
                        MockDBView {
                            accounts: db.accounts.insert(
                                acc,
                                (new_account_view(acc), Seq::empty(), Seq::empty()),
                            ),
                            ..db
                        }
                    } else {
                        db
                    };
                    if !db1.accounts.contains_key(acc) {
                        (db1, Err(DatabaseErrorView::Specific("account could not be fetched"@)))
                    } else if db1.blocks.contains_key(bid) {
                        (db1, Err(DatabaseErrorView::DBInsertFailed(DUPLICATE_BLOCK_AT)))
                    } else {
                        let a = db1.accounts[acc];
                        let db2 = MockDBView {
                            blocks: db1.blocks.insert(bid, (block, acc)),
                            accounts: db1.accounts.insert(acc, (a.0, a.1.push(bid), a.2)),
                            ..db1
                        };
                        add_transactions(db2, acc, data.transactions, tx_ids, data.transactions.len())
                    }
                },
            },
        },
    }
}

/// Once adding transactions has failed, adding more changes nothing.
pub proof fn lemma_add_transactions_stops(
    db: MockDBView,
    account_id: AccountId,
    txs: Seq<TransactionView>,
    ids: Seq<Option<TransactionId>>,
    n: nat,
    m: nat,
)
    requires
        n <= m,
        add_transactions(db, account_id, txs, ids, n).1 is Err,
    ensures
        add_transactions(db, account_id, txs, ids, m) == add_transactions(db, account_id, txs, ids, n),
    decreases m - n,
{
    if n < m {
        lemma_add_transactions_stops(db, account_id, txs, ids, n, (m - 1) as nat);
    }
}

impl MockDBView {
    pub open spec fn block_by_id(self, block_id: BlockId) -> Result<SignedBlockView, DatabaseErrorView> {
        if self.blocks.contains_key(block_id) {
            Ok(self.blocks[block_id].0)
        } else {
            Err(DatabaseErrorView::Unknown)
        }
    }

    pub open spec fn transaction_by_id(self, id: TransactionId) -> Result<TransactionView, DatabaseErrorView> {
        if self.transactions.contains_key(id) {
            Ok(self.transactions[id].0)
        } else {
            Err(DatabaseErrorView::Unknown)
        }
    }

    /// The block of the account at that height with the greatest block id.
    pub open spec fn block_by_height(self, account_id: AccountId, height: u64) -> Result<
        Option<SignedBlockView>,
        DatabaseErrorView,
    > {
        match max_key_where(self.blocks, height_match(account_id, height)) {
            Some(k) => Ok(Some(self.blocks[k].0)),
            None => Err(DatabaseErrorView::Unknown),
        }
    }

    /// The block of the last block id recorded for the account.
    pub open spec fn latest_block_by_account(self, account_id: AccountId) -> Result<
        SignedBlockView,
        DatabaseErrorView,
    > {
        if !self.accounts.contains_key(account_id) {
            Err(DatabaseErrorView::Unknown)
        } else if self.accounts[account_id].1.len() == 0 {
            Err(DatabaseErrorView::NoLastBlock)
        } else {
            self.block_by_id(self.accounts[account_id].1.last())
        }
    }

    /// Of the account's blocks older than `unix_from` (or than
    /// `unix_limit`), the most recent: it is found unless it is older than
    /// `unix_limit`, when nothing is; with no such block, `Unknown`.
    pub open spec fn latest_block_by_account_before(
        self,
        account_id: AccountId,
        unix_from: u64,
        unix_limit: u64,
    ) -> Result<Option<SignedBlockView>, DatabaseErrorView> {
        match latest_where(self.blocks, before_match(account_id, unix_from, unix_limit)) {
            Some(k) => if self.blocks[k].0.timestamp < unix_limit {
                Ok(None)
            } else {
                Ok(Some(self.blocks[k].0))
            },
            None => Err(DatabaseErrorView::Unknown),
        }
    }

    /// The representative of the account's delegation with the greatest
    /// transaction id; `None` when it is not as long as an account id.
    pub open spec fn account_delegate(self, account_id: AccountId) -> Result<
        Option<AccountId>,
        DatabaseErrorView,
    > {
        match max_key_where(self.transactions, delegation_by(account_id)) {
            Some(k) => {
                let rep = representative_of(self.transactions[k].0);
                if rep.len() == 24 {
                    Ok(Some(id_of_bytes::<24>(rep)))
                } else {
                    Ok(None)
                }
            },
            None => Err(DatabaseErrorView::Unknown),
        }
    }

    /// The accounts whose latest delegation (the one with the greatest
    /// transaction id) names `account_id`.
    pub open spec fn delegates_by_account(self, account_id: AccountId) -> Set<AccountId> {
        Set::new(
            |a: AccountId|
                match max_key_where(self.transactions, delegation_by(a)) {
                    Some(k) => representative_of(self.transactions[k].0) == account_id@,
                    None => false,
                },
        )
    }

    /// The claim of the send transaction with the greatest transaction id.
    pub open spec fn send_recipient(self, send_id: TransactionId) -> Option<TransactionId> {
        max_key_where(self.transactions, claim_of(send_id))
    }
}

/// An in-memory block store.
pub struct MockDB {
    blocks: Vec<Entry<32, BlockRecord>>,
    accounts: Vec<Entry<24, AccountRecord>>,
    transactions: Vec<Entry<32, TxRecord>>,
}

impl View for MockDB {
    type V = MockDBView;

    closed spec fn view(&self) -> MockDBView {
        MockDBView {
            blocks: entries_map(entries_view(self.blocks@)),
            accounts: entries_map(entries_view(self.accounts@)),
            transactions: entries_map(entries_view(self.transactions@)),
        }
    }
}

impl MockDB {
    #[verifier::type_invariant]
    spec fn sorted(&self) -> bool {
        &&& keys_sorted(entries_view(self.blocks@))
        &&& keys_sorted(entries_view(self.accounts@))
        &&& keys_sorted(entries_view(self.transactions@))
    }

    /// An empty store.
    pub fn new() -> (r: Self)
        ensures
            r@.blocks.is_empty(),
            r@.accounts.is_empty(),
            r@.transactions.is_empty(),
    {
        let r = MockDB { blocks: Vec::new(), accounts: Vec::new(), transactions: Vec::new() };
        assert(r@.blocks =~= Map::empty());
        assert(r@.accounts =~= Map::empty());
        assert(r@.transactions =~= Map::empty());
        r
    }
}

impl MockDB {
    /// The index of the last block entry that is a block of `account_id` at
    /// `height`, if any.
    fn last_block_at_height(&self, account_id: &AccountId, height: u64) -> (r: Option<usize>)
        ensures
            match r {
                Some(i) => {
                    &&& i < self.blocks@.len()
                    &&& is_max_key_where(self@.blocks, height_match(*account_id, height), self.blocks@[i as int].id)
                    &&& max_key_where(self@.blocks, height_match(*account_id, height)) == Some(self.blocks@[i as int].id)
                    &&& self@.blocks[self.blocks@[i as int].id].0 == self.blocks@[i as int].value.block@
                },
                None => max_key_where(self@.blocks, height_match(*account_id, height)) is None,
            },
    {
        proof { use_type_invariant(self); }
        let ghost s = entries_view(self.blocks@);
        let ghost p = height_match(*account_id, height);
        let mut i = self.blocks.len();
        while i > 0
            invariant
                i <= self.blocks@.len(),
                s == entries_view(self.blocks@),
                keys_sorted(s),
                p == height_match(*account_id, height),
                forall|j: int| i <= j < s.len() ==> !p(#[trigger] s[j].0, s[j].1),
            decreases i,
        {
            let e = &self.blocks[i - 1];
            let hit = match &e.value.block.data {
                Some(d) => id_equal(&e.value.account, account_id) && d.height == height,
                None => false,
            };
            assert(s[i - 1] == (e.id, e.value@));
            if hit {
                proof {
                    lemma_last_match_is_max(s, p, i - 1);
                    lemma_entries_lookup(s, i - 1);
                }
                return Some(i - 1);
            }
            i = i - 1;
        }
        proof { lemma_no_match(s, p); }
        None
    }

    /// The index of the last block entry of `account_id` older than
    /// `unix_limit` or older than `unix_from`, if any.
    fn last_block_before(&self, account_id: &AccountId, unix_from: u64, unix_limit: u64) -> (r: Option<usize>)
        ensures
            match r {
                Some(i) => {
                    &&& i < self.blocks@.len()
                    &&& latest_where(self@.blocks, before_match(*account_id, unix_from, unix_limit)) == Some(self.blocks@[i as int].id)
                    &&& self@.blocks[self.blocks@[i as int].id].0 == self.blocks@[i as int].value.block@
                },
                None => latest_where(self@.blocks, before_match(*account_id, unix_from, unix_limit)) is None,
            },
    {
        proof { use_type_invariant(self); }
        let ghost s = entries_view(self.blocks@);
        let ghost p = before_match(*account_id, unix_from, unix_limit);
        let mut best: Option<usize> = None;
        let mut i = self.blocks.len();
        while i > 0
            invariant
                i <= self.blocks@.len(),
                s == entries_view(self.blocks@),
                keys_sorted(s),
                p == before_match(*account_id, unix_from, unix_limit),
                match best {
                    None => forall|j: int| i <= j < s.len() ==> !p(#[trigger] s[j].0, s[j].1),
                    Some(b) => {
                        &&& i <= b < s.len()
                        &&& p(s[b as int].0, s[b as int].1)
                        &&& forall|j: int|
                            i <= j < s.len() && p(#[trigger] s[j].0, s[j].1) ==> s[j].1.0.timestamp < s[b as int].1.0.timestamp
                                || (s[j].1.0.timestamp == s[b as int].1.0.timestamp && j <= b)
                    },
                },
            decreases i,
        {
            let e = &self.blocks[i - 1];
            let ts = e.value.block.timestamp;
            let hit = id_equal(&e.value.account, account_id) && (ts < unix_limit || ts < unix_from);
            assert(s[i - 1] == (e.id, e.value@));
            if hit {
                match best {
                    None => {
                        best = Some(i - 1);
                    },
                    Some(b) => {
                        assert(s[b as int] == (self.blocks@[b as int].id, self.blocks@[b as int].value@));
                        if ts > self.blocks[b].value.block.timestamp {
                            best = Some(i - 1);
                        }
                    },
                }
            }
            i = i - 1;
        }
        match best {
            None => {
                proof { lemma_no_latest(s, p); }
                None
            },
            Some(b) => {
                proof {
                    assert(s[b as int] == (self.blocks@[b as int].id, self.blocks@[b as int].value@));
                    lemma_latest_entry(s, p, b as int);
                }
                Some(b)
            },
        }
    }

    /// The index of the last transaction entry that is a delegation made by
    /// `account_id`, if any.
    fn last_delegation_by(&self, account_id: &AccountId) -> (r: Option<usize>)
        ensures
            ({
                let p = delegation_by(*account_id);
                match r {
                    Some(i) => {
                        &&& i < self.transactions@.len()
                        &&& max_key_where(self@.transactions, p) == Some(self.transactions@[i as int].id)
                        &&& self@.transactions[self.transactions@[i as int].id].0 == self.transactions@[i as int].value.tx@
                    },
                    None => max_key_where(self@.transactions, p) is None,
                }
            }),
    {
        proof { use_type_invariant(self); }
        let ghost s = entries_view(self.transactions@);
        let ghost p = delegation_by(*account_id);
        let mut i = self.transactions.len();
        while i > 0
            invariant
                i <= self.transactions@.len(),
                s == entries_view(self.transactions@),
                keys_sorted(s),
                p == (delegation_by(*account_id)),
                forall|j: int| i <= j < s.len() ==> !p(#[trigger] s[j].0, s[j].1),
            decreases i,
        {
            let e = &self.transactions[i - 1];
            let hit = match &e.value.tx.data {
                Some(Data::TxDelegate(_)) => id_equal(&e.value.account, account_id),
                _ => false,
            };
            assert(s[i - 1] == (e.id, e.value@));
            if hit {
                proof {
                    lemma_last_match_is_max(s, p, i - 1);
                    lemma_entries_lookup(s, i - 1);
                }
                return Some(i - 1);
            }
            i = i - 1;
        }
        proof { lemma_no_match(s, p); }
        None
    }

    /// The index of the last transaction entry that collects the send
    /// transaction `send_id`, if any.
    fn last_claim_of(&self, send_id: &TransactionId) -> (r: Option<usize>)
        ensures
            ({
                let p = claim_of(*send_id);
                match r {
                    Some(i) => {
                        &&& i < self.transactions@.len()
                        &&& max_key_where(self@.transactions, p) == Some(self.transactions@[i as int].id)
                        &&& self@.transactions[self.transactions@[i as int].id].0 == self.transactions@[i as int].value.tx@
                    },
                    None => max_key_where(self@.transactions, p) is None,
                }
            }),
    {
        proof { use_type_invariant(self); }
        let ghost s = entries_view(self.transactions@);
        let ghost p = claim_of(*send_id);
        let mut i = self.transactions.len();
        while i > 0
            invariant
                i <= self.transactions@.len(),
                s == entries_view(self.transactions@),
                keys_sorted(s),
                p == (claim_of(*send_id)),
                forall|j: int| i <= j < s.len() ==> !p(#[trigger] s[j].0, s[j].1),
            decreases i,
        {
            let e = &self.transactions[i - 1];
            let hit = match &e.value.tx.data {
                Some(Data::TxCollect(c)) => crate::api::id_matches_bytes(send_id, &c.transaction_id),
                _ => false,
            };
            assert(s[i - 1] == (e.id, e.value@));
            if hit {
                proof {
                    lemma_last_match_is_max(s, p, i - 1);
                    lemma_entries_lookup(s, i - 1);
                }
                return Some(i - 1);
            }
            i = i - 1;
        }
        proof { lemma_no_match(s, p); }
        None
    }
}

impl MockDB {
    /// The index of the account entry of `account_id`, if there is one.
    fn account_index(&self, account_id: &AccountId) -> (r: Option<usize>)
        ensures
            match r {
                Some(i) => {
                    &&& i < self.accounts@.len()
                    &&& self.accounts@[i as int].id == *account_id
                    &&& self@.accounts.contains_key(*account_id)
                    &&& self@.accounts[*account_id] == self.accounts@[i as int].value@
                },
                None => !self@.accounts.contains_key(*account_id),
            },
    {
        proof { use_type_invariant(self); }
        let (i, found) = position(&self.accounts, account_id);
        proof {
            lemma_entries_contains(entries_view(self.accounts@), *account_id);
            if found {
                assert(entries_view(self.accounts@)[i as int] == (self.accounts@[i as int].id, self.accounts@[i as int].value@));
                lemma_entries_lookup(entries_view(self.accounts@), i as int);
            }
        }
        if found { Some(i) } else { None }
    }
}

impl MockDB {
    /// Whether a block with this id is stored.
    fn contains_block(&self, id: &BlockId) -> (r: bool)
        ensures
            r == self@.blocks.contains_key(*id),
    {
        proof { use_type_invariant(self); }
        let (_, found) = position(&self.blocks, id);
        proof { lemma_entries_contains(entries_view(self.blocks@), *id); }
        found
    }

    /// Whether a transaction with this id is stored.
    fn contains_transaction(&self, id: &TransactionId) -> (r: bool)
        ensures
            r == self@.transactions.contains_key(*id),
    {
        proof { use_type_invariant(self); }
        let (_, found) = position(&self.transactions, id);
        proof { lemma_entries_contains(entries_view(self.transactions@), *id); }
        found
    }

    /// Adds a new, empty account.
    fn insert_account(&mut self, account_id: AccountId)
        requires
            !old(self)@.accounts.contains_key(account_id),
        ensures
            final(self)@ == (MockDBView {
                accounts: old(self)@.accounts.insert(
                    account_id,
                    (new_account_view(account_id), Seq::empty(), Seq::empty()),
                ),
                ..old(self)@
            }),
    {
        proof { use_type_invariant(&*self); }
        let (pos, _) = position(&self.accounts, &account_id);
        let mut accounts: Vec<Entry<24, AccountRecord>> = Vec::new();
        std::mem::swap(&mut accounts, &mut self.accounts);
        let address = id_to_vec(&account_id);
        let entry = Entry {
            id: account_id,
            value: AccountRecord {
                account: Account {
                    account_type: 0,
                    address,
                    voting_power: 0,
                    public_key: Vec::new(),
                    private_key: Vec::new(),
                },
                blocks: Vec::new(),
                transactions: Vec::new(),
            },
        };
        let ghost old_s = entries_view(accounts@);
        accounts.insert(pos, entry);
        proof {
            assert(entry.value@.0 =~= new_account_view(account_id));
            assert(entry.value@.1 =~= Seq::<BlockId>::empty());
            assert(entry.value@.2 =~= Seq::<TransactionId>::empty());
            assert(entries_view(accounts@) =~= old_s.insert(pos as int, (entry.id, entry.value@)));
            lemma_entries_insert(old_s, pos as int, entry.id, entry.value@);
        }
        self.accounts = accounts;
    }

    /// Appends a block id to the account at index `ai`.
    fn push_account_block(&mut self, ai: usize, bid: BlockId)
        requires
            ai < old(self).accounts@.len(),
        ensures
            final(self).accounts@.len() == old(self).accounts@.len(),
            final(self).accounts@[ai as int].id == old(self).accounts@[ai as int].id,
            ({
                let key = old(self).accounts@[ai as int].id;
                let a = old(self)@.accounts[key];
                final(self)@ == (MockDBView {
                    accounts: old(self)@.accounts.insert(key, (a.0, a.1.push(bid), a.2)),
                    ..old(self)@
                })
            }),
    {
        proof { use_type_invariant(&*self); }
        let ghost old_s = entries_view(self.accounts@);
        proof { lemma_entries_lookup(old_s, ai as int); }
        let mut accounts: Vec<Entry<24, AccountRecord>> = Vec::new();
        std::mem::swap(&mut accounts, &mut self.accounts);
        let ghost before = accounts@;
        let mut e = accounts.remove(ai);
        e.value.blocks.push(bid);
        accounts.insert(ai, e);
        proof {
            assert(accounts@ =~= before.update(ai as int, e));
            assert(entries_view(accounts@) =~= old_s.update(ai as int, (old_s[ai as int].0, e.value@)));
            lemma_entries_update(old_s, ai as int, e.value@);
        }
        self.accounts = accounts;
    }

    /// Appends a transaction id to the account at index `ai`.
    fn push_account_transaction(&mut self, ai: usize, tid: TransactionId)
        requires
            ai < old(self).accounts@.len(),
        ensures
            final(self).accounts@.len() == old(self).accounts@.len(),
            final(self).accounts@[ai as int].id == old(self).accounts@[ai as int].id,
            ({
                let key = old(self).accounts@[ai as int].id;
                let a = old(self)@.accounts[key];
                final(self)@ == (MockDBView {
                    accounts: old(self)@.accounts.insert(key, (a.0, a.1, a.2.push(tid))),
                    ..old(self)@
                })
            }),
    {
        proof { use_type_invariant(&*self); }
        let ghost old_s = entries_view(self.accounts@);
        proof { lemma_entries_lookup(old_s, ai as int); }
        let mut accounts: Vec<Entry<24, AccountRecord>> = Vec::new();
        std::mem::swap(&mut accounts, &mut self.accounts);
        let ghost before = accounts@;
        let mut e = accounts.remove(ai);
        e.value.transactions.push(tid);
        accounts.insert(ai, e);
        proof {
            assert(accounts@ =~= before.update(ai as int, e));
            assert(entries_view(accounts@) =~= old_s.update(ai as int, (old_s[ai as int].0, e.value@)));
            lemma_entries_update(old_s, ai as int, e.value@);
        }
        self.accounts = accounts;
    }

    /// Stores a block that is not stored yet.
    fn insert_block(&mut self, bid: BlockId, block: SignedBlock, account: AccountId)
        requires
            !old(self)@.blocks.contains_key(bid),
        ensures
            final(self).accounts@ == old(self).accounts@,
            final(self)@ == (MockDBView {
                blocks: old(self)@.blocks.insert(bid, (block@, account)),
                ..old(self)@
            }),
    {
        proof { use_type_invariant(&*self); }
        let (pos, _) = position(&self.blocks, &bid);
        let mut blocks: Vec<Entry<32, BlockRecord>> = Vec::new();
        std::mem::swap(&mut blocks, &mut self.blocks);
        let ghost old_s = entries_view(blocks@);
        let entry = Entry { id: bid, value: BlockRecord { block, account } };
        blocks.insert(pos, entry);
        proof {
            assert(entries_view(blocks@) =~= old_s.insert(pos as int, (entry.id, entry.value@)));
            lemma_entries_insert(old_s, pos as int, entry.id, entry.value@);
        }
        self.blocks = blocks;
    }

    /// Stores a transaction that is not stored yet.
    fn insert_transaction(&mut self, tid: TransactionId, tx: Transaction, account: AccountId)
        requires
            !old(self)@.transactions.contains_key(tid),
        ensures
            final(self).accounts@ == old(self).accounts@,
            final(self)@ == (MockDBView {
                transactions: old(self)@.transactions.insert(tid, (tx@, account)),
                ..old(self)@
            }),
    {
        proof { use_type_invariant(&*self); }
        let (pos, _) = position(&self.transactions, &tid);
        let mut transactions: Vec<Entry<32, TxRecord>> = Vec::new();
        std::mem::swap(&mut transactions, &mut self.transactions);
        let ghost old_s = entries_view(transactions@);
        let entry = Entry { id: tid, value: TxRecord { tx, account } };
        transactions.insert(pos, entry);
        proof {
            assert(entries_view(transactions@) =~= old_s.insert(pos as int, (entry.id, entry.value@)));
            lemma_entries_insert(old_s, pos as int, entry.id, entry.value@);
        }
        self.transactions = transactions;
    }
}

impl Database for MockDB {
    open spec fn block_by_id(&self, block_id: BlockId) -> Result<SignedBlockView, DatabaseErrorView> {
        self@.block_by_id(block_id)
    }

    open spec fn block_by_height(&self, account_id: AccountId, block_height: u64) -> Result<
        Option<SignedBlockView>,
        DatabaseErrorView,
    > {
        self@.block_by_height(account_id, block_height)
    }

    open spec fn transaction_by_id(&self, transaction_id: TransactionId) -> Result<
        TransactionView,
        DatabaseErrorView,
    > {
        self@.transaction_by_id(transaction_id)
    }

    open spec fn latest_block_by_account(&self, account_id: AccountId) -> Result<
        SignedBlockView,
        DatabaseErrorView,
    > {
        self@.latest_block_by_account(account_id)
    }

    open spec fn latest_block_by_account_before(
        &self,
        account_id: AccountId,
        unix_from: u64,
        unix_limit: u64,
    ) -> Result<Option<SignedBlockView>, DatabaseErrorView> {
        self@.latest_block_by_account_before(account_id, unix_from, unix_limit)
    }

    open spec fn account_delegate(&self, account_id: AccountId) -> Result<
        Option<AccountId>,
        DatabaseErrorView,
    > {
        self@.account_delegate(account_id)
    }

    open spec fn delegates_by_account(&self, account_id: AccountId) -> Result<
        Set<AccountId>,
        DatabaseErrorView,
    > {
        Ok(self@.delegates_by_account(account_id))
    }

    open spec fn send_recipient(&self, send_transaction_id: TransactionId) -> Result<
        Option<TransactionId>,
        DatabaseErrorView,
    > {
        Ok(self@.send_recipient(send_transaction_id))
    }

    fn get_block_by_id(&self, block_id: BlockId) -> (r: Result<SignedBlock, DatabaseError>) {
        proof { use_type_invariant(self); }
        let (pos, found) = position(&self.blocks, &block_id);
        proof { lemma_entries_contains(entries_view(self.blocks@), block_id); }
        if found {
            proof {
                assert(entries_view(self.blocks@)[pos as int] == (self.blocks@[pos as int].id, self.blocks@[pos as int].value@));
                lemma_entries_lookup(entries_view(self.blocks@), pos as int);
            }
            Ok(self.blocks[pos].value.block.clone())
        } else {
            Err(DatabaseError::Unknown)
        }
    }

    fn get_transaction_by_id(&self, transaction_id: TransactionId) -> (r: Result<Transaction, DatabaseError>) {
        proof { use_type_invariant(self); }
        let (pos, found) = position(&self.transactions, &transaction_id);
        proof { lemma_entries_contains(entries_view(self.transactions@), transaction_id); }
        if found {
            proof {
                assert(entries_view(self.transactions@)[pos as int] == (self.transactions@[pos as int].id, self.transactions@[pos as int].value@));
                lemma_entries_lookup(entries_view(self.transactions@), pos as int);
            }
            Ok(self.transactions[pos].value.tx.clone())
        } else {
            Err(DatabaseError::Unknown)
        }
    }

    fn get_latest_block_by_account(&self, account_id: AccountId) -> (r: Result<SignedBlock, DatabaseError>) {
        match self.account_index(&account_id) {
            None => Err(DatabaseError::Unknown),
            Some(i) => {
                let blocks = &self.accounts[i].value.blocks;
                if blocks.len() == 0 {
                    Err(DatabaseError::NoLastBlock)
                } else {
                    let last = blocks[blocks.len() - 1];
                    self.get_block_by_id(last)
                }
            },
        }
    }

    fn get_block_by_height(&self, account_id: AccountId, block_height: &u64) -> (r: Result<
        Option<SignedBlock>,
        DatabaseError,
    >) {
        match self.last_block_at_height(&account_id, *block_height) {
            Some(i) => Ok(Some(self.blocks[i].value.block.clone())),
            None => Err(DatabaseError::Unknown),
        }
    }

    fn get_latest_block_by_account_before(
        &self,
        account_id: AccountId,
        unix_from: u64,
        unix_limit: u64,
    ) -> (r: Result<Option<SignedBlock>, DatabaseError>) {
        match self.last_block_before(&account_id, unix_from, unix_limit) {
            Some(i) => {
                if self.blocks[i].value.block.timestamp < unix_limit {
                    Ok(None)
                } else {
                    Ok(Some(self.blocks[i].value.block.clone()))
                }
            },
            None => Err(DatabaseError::Unknown),
        }
    }

    fn get_account_delegate(&self, account_id: AccountId) -> (r: Result<Option<AccountId>, DatabaseError>) {
        match self.last_delegation_by(&account_id) {
            Some(i) => {
                let rep = match &self.transactions[i].value.tx.data {
                    Some(Data::TxDelegate(d)) => &d.representative,
                    _ => {
                        assert(false);
                        return Err(DatabaseError::Unknown);
                    },
                };
                match id_from_bytes(rep) {
                    Some(d) => {
                        Ok(Some(d))
                    },
                    None => Ok(None),
                }
            },
            None => Err(DatabaseError::Unknown),
        }
    }

    fn get_delegates_by_account(&self, account_id: AccountId) -> (r: Result<Vec<AccountId>, DatabaseError>) {
        proof { use_type_invariant(self); }
        let ghost s = entries_view(self.transactions@);
        let ghost m = self@.transactions;
        let mut found: Vec<AccountId> = Vec::new();
        let mut seen: Vec<AccountId> = Vec::new();
        let mut i = self.transactions.len();
        while i > 0
            invariant
                i <= self.transactions@.len(),
                s == entries_view(self.transactions@),
                keys_sorted(s),
                m == entries_map(s),
                found@.no_duplicates(),
                forall|a: AccountId| seen@.contains(a) <==> exists|j: int|
                    i <= j < s.len() && (#[trigger] delegation_by(a)(s[j].0, s[j].1)),
                forall|a: AccountId| found@.contains(a) <==> exists|j: int|
                    i <= j < s.len() && last_delegation_at(s, a, j) && representative_of(s[j].1.0) == account_id@,
            decreases i,
        {
            let e = &self.transactions[i - 1];
            assert(s[i - 1] == (e.id, e.value@));
            let ghost old_found = found@;
            let ghost old_seen = seen@;
            let acc = e.value.account;
            let (delegation, to_account) = match &e.value.tx.data {
                Some(Data::TxDelegate(d)) => (true, crate::api::id_matches_bytes(&account_id, &d.representative)),
                _ => (false, false),
            };
            assert(delegation == delegation_by(acc)(s[i - 1].0, s[i - 1].1));
            assert(to_account == (delegation && representative_of(s[i - 1].1.0) == account_id@));
            let known = delegation && contains_id(&seen, &acc);
            if delegation && !known {
                if to_account {
                    found.push(acc);
                    proof {
                        assert forall|x: int, y: int| 0 <= x < y < found@.len() implies found@[x] != found@[y] by {
                            if y == old_found.len() {
                                assert(old_found[x] == found@[x]);
                                if old_found[x] == acc {
                                    assert(old_found.contains(acc));
                                    let j = choose|j: int| i <= j < s.len() && last_delegation_at(s, acc, j)
                                        && representative_of(s[j].1.0) == account_id@;
                                    assert(old_seen.contains(acc));
                                }
                            }
                        }
                    }
                }
                seen.push(acc);
            }
            proof {
                assert forall|a: AccountId| seen@.contains(a) <==> exists|j: int|
                    i - 1 <= j < s.len() && (#[trigger] delegation_by(a)(s[j].0, s[j].1)) by {
                    if seen@.contains(a) && !old_seen.contains(a) {
                        let t = choose|t: int| 0 <= t < seen@.len() && seen@[t] == a;
                        if t < old_seen.len() {
                            assert(old_seen[t] == a);
                        }
                    }
                    if old_seen.contains(a) {
                        let t = choose|t: int| 0 <= t < old_seen.len() && old_seen[t] == a;
                        assert(seen@[t] == a);
                    }
                    if delegation && !known && a == acc {
                        assert(seen@[old_seen.len() as int] == acc);
                    }
                }
                assert forall|a: AccountId| found@.contains(a) <==> exists|j: int|
                    i - 1 <= j < s.len() && last_delegation_at(s, a, j) && representative_of(s[j].1.0)
                        == account_id@ by {
                    lemma_last_delegation_step(s, a, i as int, account_id);
                    if found@.contains(a) && !old_found.contains(a) {
                        let t = choose|t: int| 0 <= t < found@.len() && found@[t] == a;
                        if t < old_found.len() {
                            assert(old_found[t] == a);
                        }
                        assert(a == acc);
                    }
                    if old_found.contains(a) {
                        let t = choose|t: int| 0 <= t < old_found.len() && old_found[t] == a;
                        assert(found@[t] == a);
                    }
                    if delegation && !known && to_account && a == acc {
                        assert(found@[old_found.len() as int] == acc);
                    }
                    if a == acc && delegation && known {
                        assert(old_seen.contains(acc));
                    }
                }
            }
            i = i - 1;
        }
        proof {
            assert(self@.delegates_by_account(account_id) =~= found@.to_set()) by {
                assert forall|a: AccountId| self@.delegates_by_account(account_id).contains(a) <==> found@.to_set().contains(
                    a,
                ) by {
                    lemma_latest_delegation(s, a);
                    if found@.contains(a) {
                        let j = choose|j: int| 0 <= j < s.len() && last_delegation_at(s, a, j)
                            && representative_of(s[j].1.0) == account_id@;
                        lemma_last_match_is_max(s, delegation_by(a), j);
                        lemma_entries_lookup(s, j);
                    }
                }
            }
        }
        Ok(found)
    }

    fn add_block(&mut self, block: SignedBlock, facts: &BlockFacts) -> (r: Result<(), DatabaseError>)
        ensures
            (final(self)@, plain_result(r)) == add_block_effect(
                old(self)@,
                block@,
                facts.block_id,
                facts.account_id,
                facts.transaction_ids@,
            ),
    {
        let ghost db0 = self@;
        let (height, txs) = match &block.data {
            Some(d) => (d.height, copy_transactions(&d.transactions)),
            None => return Err(DatabaseError::DataNotFound),
        };
        let ghost data = block@.data.unwrap();
        let ghost txs_v = data.transactions;
        assert(crate::api::transactions_view(txs@) == txs_v);
        let account_id = match facts.account_id {
            Some(a) => a,
            None => return Err(DatabaseError::Specific("account ID could not be generated".to_string())),
        };
        let block_hash = match facts.block_id {
            Some(b) => b,
            None => return Err(DatabaseError::GetIDFailed),
        };
        if height == 0 {
            if self.account_index(&account_id).is_some() {
                return Err(
                    DatabaseError::Specific("account already exists but block height == 0".to_string()),
                );
            }
            self.insert_account(account_id);
        }
        let ghost db1 = self@;
        let ai = match self.account_index(&account_id) {
            Some(i) => i,
            None => return Err(DatabaseError::Specific("account could not be fetched".to_string())),
        };
        if self.contains_block(&block_hash) {
            return Err(DatabaseError::DBInsertFailed(DUPLICATE_BLOCK_AT));
        }
        self.insert_block(block_hash, block, account_id);
        self.push_account_block(ai, block_hash);
        let ghost db2 = self@;
        assert(db2 == (MockDBView {
            blocks: db1.blocks.insert(block_hash, (block@, account_id)),
            accounts: db1.accounts.insert(account_id, (db1.accounts[account_id].0, db1.accounts[account_id].1.push(block_hash), db1.accounts[account_id].2)),
            ..db1
        }));
        let ghost n_txs = txs_v.len();
        assert(add_block_effect(db0, block@, facts.block_id, facts.account_id, facts.transaction_ids@)
            == add_transactions(db2, account_id, txs_v, facts.transaction_ids@, n_txs));
        let mut i: usize = 0;
        while i < txs.len()
            invariant
                0 <= i <= txs@.len(),
                txs_v == crate::api::transactions_view(txs@),
                n_txs == txs_v.len(),
                ai < self.accounts@.len(),
                self.accounts@[ai as int].id == account_id,
                (self@, Ok::<(), DatabaseErrorView>(())) == add_transactions(db2, account_id, txs_v, facts.transaction_ids@, i as nat),
                add_block_effect(db0, block@, facts.block_id, facts.account_id, facts.transaction_ids@)
                    == add_transactions(db2, account_id, txs_v, facts.transaction_ids@, n_txs),
                db0 == old(self)@,
            decreases txs@.len() - i,
        {
            let tid = if i < facts.transaction_ids.len() {
                facts.transaction_ids[i]
            } else {
                None
            };
            assert(tid == tx_id_at(facts.transaction_ids@, i as int));
            let tid = match tid {
                Some(t) => t,
                None => {
                    proof {
                        assert(add_transactions(db2, account_id, txs_v, facts.transaction_ids@, (i + 1) as nat)
                            == (self@, Err::<(), DatabaseErrorView>(DatabaseErrorView::GetIDFailed)));
                        lemma_add_transactions_stops(db2, account_id, txs_v, facts.transaction_ids@, (i + 1) as nat, n_txs);
                    }
                    return Err(DatabaseError::GetIDFailed);
                },
            };
            if self.contains_transaction(&tid) {
                proof {
                    assert(add_transactions(db2, account_id, txs_v, facts.transaction_ids@, (i + 1) as nat)
                        == (self@, Err::<(), DatabaseErrorView>(DatabaseErrorView::DBInsertFailed(DUPLICATE_TRANSACTION_AT))));
                    lemma_add_transactions_stops(db2, account_id, txs_v, facts.transaction_ids@, (i + 1) as nat, n_txs);
                }
                return Err(DatabaseError::DBInsertFailed(DUPLICATE_TRANSACTION_AT));
            }
            let tx = txs[i].clone();
            assert(tx@ == txs_v[i as int]);
            self.push_account_transaction(ai, tid);
            self.insert_transaction(tid, tx, account_id);
            i = i + 1;
        }
        Ok(())
    }

    fn get_send_recipient(&self, send_transaction_id: TransactionId) -> (r: Result<
        Option<TransactionId>,
        DatabaseError,
    >) {
        match self.last_claim_of(&send_transaction_id) {
            Some(i) => Ok(Some(self.transactions[i].id)),
            None => Ok(None),
        }
    }
}

/// Adding transactions keeps the blocks, keeps the account's block list,
/// and, when it succeeds, stores each transaction under its id.
proof fn lemma_add_transactions_ok(
    db: MockDBView,
    account_id: AccountId,
    txs: Seq<TransactionView>,
    ids: Seq<Option<TransactionId>>,
    n: nat,
)
    requires
        db.accounts.contains_key(account_id),
    ensures
        ({
            let (d, r) = add_transactions(db, account_id, txs, ids, n);
            &&& d.blocks == db.blocks
            &&& d.accounts.contains_key(account_id)
            &&& d.accounts[account_id].1 == db.accounts[account_id].1
            &&& db.transactions.submap_of(d.transactions)
            &&& r is Ok ==> forall|i: int| 0 <= i < n ==> {
                &&& #[trigger] tx_id_at(ids, i) is Some
                &&& d.transactions.contains_key(tx_id_at(ids, i).unwrap())
                &&& d.transactions[tx_id_at(ids, i).unwrap()] == (txs[i], account_id)
            }
        }),
    decreases n,
{
    if n > 0 {
        lemma_add_transactions_ok(db, account_id, txs, ids, (n - 1) as nat);
        let (d, r) = add_transactions(db, account_id, txs, ids, (n - 1) as nat);
        let (d2, r2) = add_transactions(db, account_id, txs, ids, n);
        if r is Ok {
            match tx_id_at(ids, n - 1) {
                Some(tid) => {
                    if !d.transactions.contains_key(tid) {
                        assert(d2.transactions == d.transactions.insert(tid, (txs[n - 1], account_id)));
                        assert(d.transactions.submap_of(d2.transactions));
                        assert(db.transactions.submap_of(d2.transactions)) by {
                            assert forall|k: TransactionId| #[trigger] db.transactions.contains_key(k) implies d2.transactions.contains_key(k)
                                && d2.transactions[k] == db.transactions[k] by {
                                assert(d.transactions.contains_key(k));
                            }
                        }
                        assert forall|i: int| 0 <= i < n implies {
                            &&& #[trigger] tx_id_at(ids, i) is Some
                            &&& d2.transactions.contains_key(tx_id_at(ids, i).unwrap())
                            &&& d2.transactions[tx_id_at(ids, i).unwrap()] == (txs[i], account_id)
                        } by {
                            if i < n - 1 {
                                assert(d.transactions.contains_key(tx_id_at(ids, i).unwrap()));
                            }
                        }
                    } else {
                        assert(d2 == d);
                    }
                },
                None => {
                    assert(d2 == d);
                },
            }
        } else {
            assert(d2 == d);
        }
    }
}

/// What a store gives back after a block was added: the block under its id,
/// the block as the latest block of its account, and each of its
/// transactions under its id.
pub proof fn law_read_after_add_block(
    db: MockDBView,
    block: SignedBlockView,
    block_id: BlockId,
    account_id: AccountId,
    tx_ids: Seq<Option<TransactionId>>,
)
    requires
        add_block_effect(db, block, Some(block_id), Some(account_id), tx_ids).1 is Ok,
    ensures
        ({
            let after = add_block_effect(db, block, Some(block_id), Some(account_id), tx_ids).0;
            let txs = block.data.unwrap().transactions;
            &&& after.block_by_id(block_id) == Ok::<SignedBlockView, DatabaseErrorView>(block)
            &&& after.latest_block_by_account(account_id) == Ok::<SignedBlockView, DatabaseErrorView>(block)
            &&& forall|i: int| 0 <= i < txs.len() ==> {
                &&& #[trigger] tx_id_at(tx_ids, i) is Some
                &&& after.transaction_by_id(tx_id_at(tx_ids, i).unwrap()) == Ok::<TransactionView, DatabaseErrorView>(txs[i])
            }
        }),
{
    let data = block.data.unwrap();
    let db1 = if data.height == 0 {
        MockDBView {
            accounts: db.accounts.insert(account_id, (new_account_view(account_id), Seq::empty(), Seq::empty())),
            ..db
        }
    } else {
        db
    };
    let a = db1.accounts[account_id];
    let db2 = MockDBView {
        blocks: db1.blocks.insert(block_id, (block, account_id)),
        accounts: db1.accounts.insert(account_id, (a.0, a.1.push(block_id), a.2)),
        ..db1
    };
    lemma_add_transactions_ok(db2, account_id, data.transactions, tx_ids, data.transactions.len());
    let after = add_block_effect(db, block, Some(block_id), Some(account_id), tx_ids).0;
    assert(after.accounts[account_id].1.last() == block_id);
}

/// Adding a block, whatever comes of it, never drops or changes a stored
/// block or transaction.
pub proof fn law_add_block_keeps_stored(
    db: MockDBView,
    block: SignedBlockView,
    block_id: Option<BlockId>,
    account_id: Option<AccountId>,
    tx_ids: Seq<Option<TransactionId>>,
)
    ensures
        ({
            let after = add_block_effect(db, block, block_id, account_id, tx_ids).0;
            &&& db.blocks.submap_of(after.blocks)
            &&& db.transactions.submap_of(after.transactions)
        }),
{
    match (block.data, account_id, block_id) {
        (Some(data), Some(acc), Some(bid)) => {
            if !(data.height == 0 && db.accounts.contains_key(acc)) {
                let db1 = if data.height == 0 {
                    MockDBView {
                        accounts: db.accounts.insert(acc, (new_account_view(acc), Seq::empty(), Seq::empty())),
                        ..db
                    }
                } else {
                    db
                };
                if db1.accounts.contains_key(acc) && !db1.blocks.contains_key(bid) {
                    let a = db1.accounts[acc];
                    let db2 = MockDBView {
                        blocks: db1.blocks.insert(bid, (block, acc)),
                        accounts: db1.accounts.insert(acc, (a.0, a.1.push(bid), a.2)),
                        ..db1
                    };
                    lemma_add_transactions_ok(db2, acc, data.transactions, tx_ids, data.transactions.len());
                }
            }
        },
        _ => {},
    }
}

} // verus!
