//! The block store on sled: four trees (accounts, blocks, transactions,
//! claims) and the keys of `keys`.
//!
//! accounts:     account_id + "_last_blk" -> latest block id
//!               "rep_" + account_id      -> representative account id
//! blocks:       "by_id_" + block_id      -> block proto
//!               "by_acc_" + account_id + "_" + block_height -> block id
//! transactions: "by_id_" + transaction_id -> transaction proto
//!               "blk_by_id_" + transaction_id -> block id
//!               "by_blk_id_" + block_id + block_index -> transaction proto
//! claims:       send_transaction_id      -> claiming transaction id
//!
//! The store is seen as what its four trees hold. A lookup that succeeds
//! finds what its tree holds under its key; storing a block applies the
//! writes of its plan to the trees; `laws` says what reading them back
//! gives.
use crate::api::{
    contains_id, id_equal, id_from_bytes, id_matches_bytes, id_of_bytes, id_to_vec, AccountId, BlockId, Data, DataView, SignedBlock, SignedBlockView,
    Transaction, TransactionId, TransactionView, transactions_view,
};
use crate::storage::database::{DatabaseConfig, DatabaseError, DatabaseErrorView, Databases};
use crate::storage::sled::keys::{
    block_by_account_key, block_by_account_key_spec, block_key, block_key_spec, block_transaction_key,
    block_transaction_key_spec, delegate_write_key, delegate_write_key_spec, last_block_key,
    last_block_key_spec, transaction_block_key, transaction_block_key_spec, transaction_key,
    transaction_key_spec,
};
use crate::storage::sled::staged::{
    batch_insert, new_batch, staged_writes, tx_apply_batch, tx_insert, StagedTree, StagedWrites,
};
use ::sled::Transactional;
use vstd::prelude::*;

verus! {

broadcast use vstd::string::group_string_axioms;

/// A sled database.
#[verifier::external_type_specification]
#[verifier::external_body]
pub struct ExSledDb(::sled::Db);

/// A tree (a named key-value map) of a sled database.
#[verifier::external_type_specification]
#[verifier::external_body]
pub struct ExSledTree(::sled::Tree);

/// An error of sled.
#[verifier::external_type_specification]
#[verifier::external_body]
pub struct ExSledError(::sled::Error);

/// A tree as seen from inside a sled transaction.
#[verifier::external_type_specification]
#[verifier::external_body]
pub struct ExTransactionalTree(::sled::transaction::TransactionalTree);

/// A set of writes that sled applies at once.
#[verifier::external_type_specification]
#[verifier::external_body]
pub struct ExSledBatch(::sled::Batch);

/// Why a write inside a sled transaction failed.
#[verifier::external_type_specification]
#[verifier::external_body]
#[verifier::reject_recursive_types(E)]
pub struct ExConflictableTransactionError<E>(::sled::transaction::ConflictableTransactionError<E>);

/// What a sled tree holds: its keys and their values. sled locks a
/// database's files for one handle, and the store writes only through
/// `commit_block`, which takes the store mutably; so between two writes the
/// trees of a store hold the same.
pub uninterp spec fn tree_contents(tree: ::sled::Tree) -> Map<Seq<u8>, Seq<u8>>;

/// What a sled database holds: its trees by name; a tree that is not listed
/// holds nothing.
pub uninterp spec fn db_contents(db: ::sled::Db) -> Map<Seq<char>, Map<Seq<u8>, Seq<u8>>>;

/// A database with no trees.
pub open spec fn no_trees() -> Map<Seq<char>, Map<Seq<u8>, Seq<u8>>> {
    Map::empty()
}

/// What the tree `name` of a database holding `trees` holds.
pub open spec fn tree_in(trees: Map<Seq<char>, Map<Seq<u8>, Seq<u8>>>, name: Seq<char>) -> Map<Seq<u8>, Seq<u8>> {
    if trees.contains_key(name) {
        trees[name]
    } else {
        Map::empty()
    }
}

/// The value `m` holds under `key`, if any.
pub open spec fn stored_at(m: Map<Seq<u8>, Seq<u8>>, key: Seq<u8>) -> Option<Seq<u8>> {
    if m.contains_key(key) {
        Some(m[key])
    } else {
        None
    }
}

/// A lookup result that agrees with what `m` holds: the read failed, or it
/// found what `m` holds under `key`.
pub open spec fn read_of(raw: Result<Option<Seq<u8>>, Seq<char>>, m: Map<Seq<u8>, Seq<u8>>, key: Seq<u8>) -> bool {
    raw matches Ok(found) ==> found == stored_at(m, key)
}

/// `m` with the writes of `ws` applied in order: a later write of a key
/// replaces an earlier one.
pub open spec fn apply_writes(m: Map<Seq<u8>, Seq<u8>>, ws: Seq<(Seq<u8>, Seq<u8>)>) -> Map<Seq<u8>, Seq<u8>>
    decreases ws.len(),
{
    if ws.len() == 0 {
        m
    } else {
        apply_writes(m, ws.drop_last()).insert(ws.last().0, ws.last().1)
    }
}

/// What the four trees of the store hold.
pub struct SledView {
    pub accounts: Map<Seq<u8>, Seq<u8>>,
    pub blocks: Map<Seq<u8>, Seq<u8>>,
    pub transactions: Map<Seq<u8>, Seq<u8>>,
    pub claims: Map<Seq<u8>, Seq<u8>>,
}

/// The bytes of an optional byte vector.
pub open spec fn opt_bytes(v: Option<Vec<u8>>) -> Option<Seq<u8>> {
    match v {
        Some(b) => Some(b@),
        None => None,
    }
}

/// The store after the writes of `plan`.
pub open spec fn apply_plan(v: SledView, plan: WritePlanView) -> SledView {
    SledView {
        accounts: apply_writes(v.accounts, plan.accounts),
        blocks: apply_writes(v.blocks, plan.blocks),
        transactions: apply_writes(v.transactions, plan.transactions),
        claims: apply_writes(v.claims, plan.claims),
    }
}

/// A store whose trees hold nothing.
pub open spec fn empty_store() -> SledView {
    SledView { accounts: Map::empty(), blocks: Map::empty(), transactions: Map::empty(), claims: Map::empty() }
}

/// Opens a database that is removed when it is dropped, through
/// `sled::Config::temporary(true)` and `sled::Config::open`: with no path
/// set, sled places it in a new directory named after the process id and
/// the time, so it opens holding nothing. Whether it opens depends on the
/// machine.
#[verifier::external_body]
fn open_temporary() -> (r: Result<::sled::Db, ::sled::Error>)
    ensures
        r is Ok ==> db_contents(r->Ok_0) == no_trees(),
{
    ::sled::Config::default().temporary(true).open()
}

/// Opens (or creates) the database at `path`, through `sled::Config::path`
/// and `sled::Config::open`. Whether it opens depends on the machine;
/// nothing is stated of the result.
#[verifier::external_body]
fn open_at(path: &str) -> (r: Result<::sled::Db, ::sled::Error>) {
    ::sled::Config::default().path(path).open()
}

/// Opens (or creates) the tree `name` of `db`, through `sled::Db::open_tree`:
/// the tree holds what the database holds under that name, and nothing if
/// it has no such tree yet. Whether it opens depends on the machine.
#[verifier::external_body]
pub(crate) fn open_tree(db: &::sled::Db, name: &str) -> (r: Result<::sled::Tree, ::sled::Error>)
    ensures
        r is Ok ==> tree_contents(r->Ok_0) == tree_in(db_contents(*db), name@),
{
    db.open_tree(name)
}

/// The message of a sled error, through its `Display` impl. Nothing is
/// stated of the text.
#[verifier::external_body]
pub(crate) fn error_text(e: &::sled::Error) -> (r: String) {
    e.to_string()
}

/// The value stored under `key` in `tree`, through `sled::Tree::get`, as a
/// byte vector: when the read succeeds, what the tree holds under `key`.
/// Whether the read succeeds depends on the machine.
#[verifier::external_body]
fn tree_get(tree: &::sled::Tree, key: &Vec<u8>) -> (r: Result<Option<Vec<u8>>, ::sled::Error>)
    ensures
        r is Ok ==> opt_bytes(r->Ok_0) == stored_at(tree_contents(*tree), key@),
{
    match tree.get(key.as_slice()) {
        Ok(found) => Ok(found.map(|v| v.to_vec())),
        Err(e) => Err(e),
    }
}

/// Runs `write_block` with `plan` on the four trees of `db` as one sled
/// transaction, through `sled::Transactional::transaction` on the tuple of
/// trees, which retries the closure on a conflict and, once it returns
/// `Ok`, applies the writes made in that run to the trees. `true` when it
/// committed: then each tree holds what it held with the writes that
/// `write_block` made through it applied in order, which its contract says
/// are the plan's. Whether it commits depends on the machine; what the trees
/// hold after a failure is not stated, as sled may fail in the middle of
/// applying the writes.
#[verifier::external_body]
fn commit_block(db: &mut SledDB, plan: &WritePlan) -> (r: bool)
    ensures
        r ==> final(db)@ == apply_plan(old(db)@, plan@),
{
    let res: ::sled::transaction::TransactionResult<StagedWrites> = (&db.accounts, &db.blocks, &db.transactions, &db.claims)
        .transaction(|(a, b, t, c)| write_block(a, b, t, c, plan));
    res.is_ok()
}

/// The key-value writes that storing a block makes, tree by tree, in order.
pub struct WritePlan {
    pub accounts: Vec<(Vec<u8>, Vec<u8>)>,
    pub blocks: Vec<(Vec<u8>, Vec<u8>)>,
    pub transactions: Vec<(Vec<u8>, Vec<u8>)>,
    pub claims: Vec<(Vec<u8>, Vec<u8>)>,
}

/// A list of key-value writes, as byte strings.
pub type Writes = Seq<(Seq<u8>, Seq<u8>)>;

/// The byte strings of a list of writes.
pub open spec fn writes_view(s: Seq<(Vec<u8>, Vec<u8>)>) -> Writes {
    s.map_values(|p: (Vec<u8>, Vec<u8>)| (p.0@, p.1@))
}

/// A write plan, as byte strings.
pub struct WritePlanView {
    pub accounts: Writes,
    pub blocks: Writes,
    pub transactions: Writes,
    pub claims: Writes,
}

impl View for WritePlan {
    type V = WritePlanView;

    open spec fn view(&self) -> WritePlanView {
        WritePlanView {
            accounts: writes_view(self.accounts@),
            blocks: writes_view(self.blocks@),
            transactions: writes_view(self.transactions@),
            claims: writes_view(self.claims@),
        }
    }
}

/// The accounts-tree writes of one transaction: a delegation records the
/// representative.
pub open spec fn tx_account_writes(account: AccountId, tx: TransactionView) -> Writes {
    match tx.data {
        Some(DataView::TxDelegate { representative }) => seq![(delegate_write_key_spec(account), representative)],
        _ => Seq::empty(),
    }
}

/// The claims-tree writes of one transaction: a claim records which
/// transaction claimed the send transaction.
pub open spec fn tx_claim_writes(tx: TransactionView, tx_id: TransactionId) -> Writes {
    match tx.data {
        Some(DataView::TxCollect { transaction_id }) => seq![(transaction_id, tx_id@)],
        _ => Seq::empty(),
    }
}

/// The transactions-tree writes of the transaction at position `index`.
pub open spec fn tx_store_writes(block: BlockId, index: u64, tx_id: TransactionId, encoded: Seq<u8>) -> Writes {
    seq![
        (transaction_key_spec(tx_id), encoded),
        (transaction_block_key_spec(tx_id), block@),
        (block_transaction_key_spec(block, index), encoded),
    ]
}

/// The accounts-tree writes of the first `n` transactions.
pub open spec fn account_writes(account: AccountId, txs: Seq<TransactionView>, n: nat) -> Writes
    decreases n,
{
    if n == 0 {
        Seq::empty()
    } else {
        account_writes(account, txs, (n - 1) as nat) + tx_account_writes(account, txs[n - 1])
    }
}

/// The claims-tree writes of the first `n` transactions.
pub open spec fn claim_writes(txs: Seq<TransactionView>, ids: Seq<TransactionId>, n: nat) -> Writes
    decreases n,
{
    if n == 0 {
        Seq::empty()
    } else {
        claim_writes(txs, ids, (n - 1) as nat) + tx_claim_writes(txs[n - 1], ids[n - 1])
    }
}

/// The transactions-tree writes of the first `n` transactions.
pub open spec fn store_writes(block: BlockId, ids: Seq<TransactionId>, encoded: Seq<Seq<u8>>, n: nat) -> Writes
    decreases n,
{
    if n == 0 {
        Seq::empty()
    } else {
        store_writes(block, ids, encoded, (n - 1) as nat) + tx_store_writes(
            block,
            (n - 1) as u64,
            ids[n - 1],
            encoded[n - 1],
        )
    }
}

/// Every transaction got an id; `ids` are those ids.
pub open spec fn all_ids(found: Seq<Option<TransactionId>>, ids: Seq<TransactionId>) -> bool {
    &&& found.len() == ids.len()
    &&& forall|i: int| 0 <= i < found.len() ==> #[trigger] found[i] == Some(ids[i])
}

/// Some transaction got no id.
pub open spec fn some_id_missing(found: Seq<Option<TransactionId>>) -> bool {
    exists|i: int| 0 <= i < found.len() && #[trigger] found[i] is None
}

/// The writes that store a block with id `block`, signed by `account`, at
/// `height`, encoded as `encoded_block`, whose transactions `txs` have ids
/// `ids` and encodings `encoded_txs`.
pub open spec fn block_plan(
    block: BlockId,
    account: AccountId,
    height: u64,
    encoded_block: Seq<u8>,
    txs: Seq<TransactionView>,
    ids: Seq<TransactionId>,
    encoded_txs: Seq<Seq<u8>>,
) -> WritePlanView {
    WritePlanView {
        accounts: seq![(last_block_key_spec(account), block@)] + account_writes(account, txs, txs.len()),
        blocks: seq![(block_key_spec(block), encoded_block), (block_by_account_key_spec(account, height), block@)],
        transactions: store_writes(block, ids, encoded_txs, txs.len()),
        claims: claim_writes(txs, ids, txs.len()),
    }
}

/// The encodings of a list of byte vectors.
pub open spec fn encodings_view(s: Seq<Vec<u8>>) -> Seq<Seq<u8>> {
    s.map_values(|v: Vec<u8>| v@)
}

/// A copy of a byte vector.
fn copy_vec(v: &Vec<u8>) -> (r: Vec<u8>)
    ensures
        r@ == v@,
{
    let mut r: Vec<u8> = Vec::new();
    let mut i: usize = 0;
    while i < v.len()
        invariant
            i <= v@.len(),
            r@ == v@.subrange(0, i as int),
        decreases v@.len() - i,
    {
        r.push(v[i]);
        i = i + 1;
        assert(r@ =~= v@.subrange(0, i as int));
    }
    assert(v@.subrange(0, v@.len() as int) =~= v@);
    r
}

/// The writes that store a block with id `block_id`, signed by `account_id`,
/// given the encoding of the block and of each transaction and what
/// computing each transaction's id gave. `None` when some transaction has
/// no id: then nothing may be written.
pub fn block_writes(
    block_id: &BlockId,
    account_id: &AccountId,
    height: u64,
    encoded_block: &Vec<u8>,
    transactions: &Vec<Transaction>,
    transaction_ids: &Vec<Option<TransactionId>>,
    encoded_transactions: &Vec<Vec<u8>>,
) -> (r: Option<WritePlan>)
    requires
        transaction_ids@.len() == transactions@.len(),
        encoded_transactions@.len() == transactions@.len(),
        transactions@.len() < u64::MAX,
    ensures
        match r {
            Some(plan) => exists|ids: Seq<TransactionId>|
                all_ids(transaction_ids@, ids) && plan@ == #[trigger] block_plan(
                    *block_id,
                    *account_id,
                    height,
                    encoded_block@,
                    transactions_view(transactions@),
                    ids,
                    encodings_view(encoded_transactions@),
                ),
            None => some_id_missing(transaction_ids@),
        },
{
    let ghost txs = transactions_view(transactions@);
    let ghost encs = encodings_view(encoded_transactions@);
    let mut accounts: Vec<(Vec<u8>, Vec<u8>)> = Vec::new();
    accounts.push((last_block_key(account_id), id_to_vec(block_id)));
    let mut blocks: Vec<(Vec<u8>, Vec<u8>)> = Vec::new();
    blocks.push((block_key(block_id), copy_vec(encoded_block)));
    blocks.push((block_by_account_key(account_id, height), id_to_vec(block_id)));
    let mut stored: Vec<(Vec<u8>, Vec<u8>)> = Vec::new();
    let mut claims: Vec<(Vec<u8>, Vec<u8>)> = Vec::new();
    let ghost mut ids: Seq<TransactionId> = Seq::empty();
    let mut i: usize = 0;
    while i < transactions.len()
        invariant
            i <= transactions@.len(),
            transaction_ids@.len() == transactions@.len(),
            encoded_transactions@.len() == transactions@.len(),
            transactions@.len() < u64::MAX,
            txs == transactions_view(transactions@),
            encs == encodings_view(encoded_transactions@),
            ids.len() == i,
            forall|j: int| 0 <= j < i ==> #[trigger] transaction_ids@[j] == Some(ids[j]),
            writes_view(accounts@) == seq![(last_block_key_spec(*account_id), block_id@)] + account_writes(
                *account_id,
                txs,
                i as nat,
            ),
            writes_view(blocks@) == seq![
                (block_key_spec(*block_id), encoded_block@),
                (block_by_account_key_spec(*account_id, height), block_id@),
            ],
            writes_view(stored@) == store_writes(*block_id, ids, encs, i as nat),
            writes_view(claims@) == claim_writes(txs, ids, i as nat),
        decreases transactions@.len() - i,
    {
        let tx_id = match transaction_ids[i] {
            Some(id) => id,
            None => {
                assert(transaction_ids@[i as int] is None);
                return None;
            },
        };
        let ghost old_ids = ids;
        proof {
            ids = ids.push(tx_id);
            assert forall|j: int| 0 <= j < i + 1 implies #[trigger] transaction_ids@[j] == Some(ids[j]) by {
                if j < i {
                    assert(ids[j] == old_ids[j]);
                }
            }
            assert(store_writes(*block_id, old_ids, encs, i as nat) == store_writes(*block_id, ids, encs, i as nat))
                by {
                lemma_store_writes_prefix(*block_id, old_ids, ids, encs, i as nat);
            }
            assert(claim_writes(txs, old_ids, i as nat) == claim_writes(txs, ids, i as nat)) by {
                lemma_claim_writes_prefix(txs, old_ids, ids, i as nat);
            }
        }
        let ghost acc_before = writes_view(accounts@);
        let ghost claims_before = writes_view(claims@);
        let ghost stored_before = writes_view(stored@);
        let tx = &transactions[i];
        assert(txs[i as int] == transactions@[i as int]@);
        match &tx.data {
            Some(Data::TxDelegate(d)) => {
                accounts.push((delegate_write_key(account_id), copy_vec(&d.representative)));
            },
            Some(Data::TxCollect(c)) => {
                claims.push((copy_vec(&c.transaction_id), id_to_vec(&tx_id)));
            },
            _ => {},
        }
        let enc = &encoded_transactions[i];
        assert(encs[i as int] == enc@);
        stored.push((transaction_key(&tx_id), copy_vec(enc)));
        stored.push((transaction_block_key(&tx_id), id_to_vec(block_id)));
        stored.push((block_transaction_key(block_id, i as u64), copy_vec(enc)));
        proof {
            assert(writes_view(accounts@) =~= acc_before + tx_account_writes(*account_id, txs[i as int]));
            assert(writes_view(claims@) =~= claims_before + tx_claim_writes(txs[i as int], tx_id));
            assert(writes_view(stored@) =~= stored_before + tx_store_writes(
                *block_id,
                i as u64,
                tx_id,
                encs[i as int],
            ));
            assert(ids[i as int] == tx_id);
            assert((i + 1) as nat - 1 == i as nat);
        }
        i = i + 1;
    }
    proof {
        assert(all_ids(transaction_ids@, ids));
    }
    let plan = WritePlan { accounts, blocks, transactions: stored, claims };
    assert(plan@ == block_plan(*block_id, *account_id, height, encoded_block@, txs, ids, encs));
    Some(plan)
}

/// Store writes of the first `n` transactions depend only on the first `n`
/// ids.
proof fn lemma_store_writes_prefix(
    block: BlockId,
    a: Seq<TransactionId>,
    b: Seq<TransactionId>,
    encoded: Seq<Seq<u8>>,
    n: nat,
)
    requires
        n <= a.len(),
        n <= b.len(),
        forall|j: int| 0 <= j < n ==> a[j] == b[j],
    ensures
        store_writes(block, a, encoded, n) == store_writes(block, b, encoded, n),
    decreases n,
{
    if n > 0 {
        lemma_store_writes_prefix(block, a, b, encoded, (n - 1) as nat);
        assert(a[n - 1] == b[n - 1]);
    }
}

/// Claim writes of the first `n` transactions depend only on the first `n`
/// ids.
proof fn lemma_claim_writes_prefix(txs: Seq<TransactionView>, a: Seq<TransactionId>, b: Seq<TransactionId>, n: nat)
    requires
        n <= a.len(),
        n <= b.len(),
        forall|j: int| 0 <= j < n ==> a[j] == b[j],
    ensures
        claim_writes(txs, a, n) == claim_writes(txs, b, n),
    decreases n,
{
    if n > 0 {
        lemma_claim_writes_prefix(txs, a, b, (n - 1) as nat);
        assert(a[n - 1] == b[n - 1]);
    }
}

/// Storing a block writes three entries per transaction, in block order:
/// the transaction under its id, its block's id under the transaction's id,
/// and the transaction under the block id and its position.
pub proof fn law_store_writes_layout(block: BlockId, ids: Seq<TransactionId>, encoded: Seq<Seq<u8>>, n: nat, i: int)
    requires
        0 <= i < n,
        n < u64::MAX,
    ensures
        store_writes(block, ids, encoded, n).len() == 3 * n,
        store_writes(block, ids, encoded, n)[3 * i] == (transaction_key_spec(ids[i]), encoded[i]),
        store_writes(block, ids, encoded, n)[3 * i + 1] == (transaction_block_key_spec(ids[i]), block@),
        store_writes(block, ids, encoded, n)[3 * i + 2] == (block_transaction_key_spec(block, i as u64), encoded[i]),
    decreases n,
{
    lemma_store_writes_len(block, ids, encoded, n);
    if i < n - 1 {
        law_store_writes_layout(block, ids, encoded, (n - 1) as nat, i);
        lemma_store_writes_len(block, ids, encoded, (n - 1) as nat);
    } else {
        lemma_store_writes_len(block, ids, encoded, (n - 1) as nat);
    }
}

/// Storing the first `n` transactions makes three writes each.
proof fn lemma_store_writes_len(block: BlockId, ids: Seq<TransactionId>, encoded: Seq<Seq<u8>>, n: nat)
    ensures
        store_writes(block, ids, encoded, n).len() == 3 * n,
    decreases n,
{
    if n > 0 {
        lemma_store_writes_len(block, ids, encoded, (n - 1) as nat);
    }
}

/// Makes each write of `writes`, in order, through `tree`; stops at the
/// first that fails.
fn insert_all(tree: &mut StagedTree, writes: &Vec<(Vec<u8>, Vec<u8>)>) -> (r: Result<
    (),
    ::sled::transaction::ConflictableTransactionError<()>,
>)
    ensures
        r is Ok ==> final(tree).writes() == old(tree).writes() + writes_view(writes@),
{
    let ghost start = tree.writes();
    let mut i: usize = 0;
    while i < writes.len()
        invariant
            i <= writes@.len(),
            tree.writes() == start + writes_view(writes@.subrange(0, i as int)),
        decreases writes@.len() - i,
    {
        let r = tx_insert(tree, &writes[i].0, &writes[i].1);
        if r.is_err() {
            return r;
        }
        proof {
            assert(writes_view(writes@.subrange(0, i as int + 1)) =~= writes_view(
                writes@.subrange(0, i as int),
            ).push((writes@[i as int].0@, writes@[i as int].1@)));
        }
        i = i + 1;
    }
    assert(writes@.subrange(0, writes@.len() as int) =~= writes@);
    Ok(())
}

/// Makes the writes of `plan` inside a transaction: the accounts, blocks and
/// claims writes one by one, the transactions writes as one batch. When it
/// succeeds, the writes made through each tree are exactly the plan's
/// writes for that tree, in order.
pub fn write_block(
    accounts: &::sled::transaction::TransactionalTree,
    blocks: &::sled::transaction::TransactionalTree,
    transactions: &::sled::transaction::TransactionalTree,
    claims: &::sled::transaction::TransactionalTree,
    plan: &WritePlan,
) -> (r: Result<StagedWrites, ::sled::transaction::ConflictableTransactionError<()>>)
    ensures
        r matches Ok(w) ==> {
            &&& w.accounts() == plan@.accounts
            &&& w.blocks() == plan@.blocks
            &&& w.transactions() == plan@.transactions
            &&& w.claims() == plan@.claims
        },
{
    let mut a = StagedTree::new(accounts);
    let mut b = StagedTree::new(blocks);
    let mut t = StagedTree::new(transactions);
    let mut c = StagedTree::new(claims);
    let r = insert_all(&mut a, &plan.accounts);
    if let Err(e) = r {
        return Err(e);
    }
    let r = insert_all(&mut b, &plan.blocks);
    if let Err(e) = r {
        return Err(e);
    }
    let r = insert_all(&mut c, &plan.claims);
    if let Err(e) = r {
        return Err(e);
    }
    let mut batch = new_batch();
    let mut i: usize = 0;
    while i < plan.transactions.len()
        invariant
            i <= plan.transactions@.len(),
            batch.writes() == writes_view(plan.transactions@.subrange(0, i as int)),
        decreases plan.transactions@.len() - i,
    {
        batch_insert(&mut batch, &plan.transactions[i].0, &plan.transactions[i].1);
        proof {
            assert(writes_view(plan.transactions@.subrange(0, i as int + 1)) =~= writes_view(
                plan.transactions@.subrange(0, i as int),
            ).push((plan.transactions@[i as int].0@, plan.transactions@[i as int].1@)));
        }
        i = i + 1;
    }
    assert(plan.transactions@.subrange(0, plan.transactions@.len() as int) =~= plan.transactions@);
    let r = tx_apply_batch(&mut t, &batch);
    if let Err(e) = r {
        return Err(e);
    }
    proof {
        assert(a.writes() =~= plan@.accounts);
        assert(b.writes() =~= plan@.blocks);
        assert(t.writes() =~= plan@.transactions);
        assert(c.writes() =~= plan@.claims);
    }
    Ok(staged_writes(&a, &b, &t, &c))
}

/// Reported with `DBInsertFailed` when a block's writes do not commit.
pub const INSERT_FAILED_AT: u32 = 244;

/// The block store on sled.
pub struct SledDB {
    blocks: ::sled::Tree,
    accounts: ::sled::Tree,
    transactions: ::sled::Tree,
    claims: ::sled::Tree,
}

impl View for SledDB {
    type V = SledView;

    closed spec fn view(&self) -> SledView {
        SledView {
            accounts: tree_contents(self.accounts),
            blocks: tree_contents(self.blocks),
            transactions: tree_contents(self.transactions),
            claims: tree_contents(self.claims),
        }
    }
}

/// The configuration names where a sled store can live: it is temporary,
/// or it has a data path.
pub open spec fn sled_config_ok(cfg: DatabaseConfig) -> bool {
    cfg.temporary == Some(true) || cfg.data_path is Some
}

/// A sled error as a block-store error.
fn specific(e: &::sled::Error) -> (r: DatabaseError)
    ensures
        r is Specific,
{
    DatabaseError::Specific(error_text(e))
}

/// What a lookup whose value is an identifier of `N` bytes gives: a failed
/// read is reported with its message, a missing value is `None`, and a value
/// of another length is refused with `invalid`.
pub open spec fn id_lookup<const N: usize>(raw: Result<Option<Seq<u8>>, Seq<char>>, invalid: Seq<char>) -> Result<
    Option<[u8; N]>,
    crate::storage::database::DatabaseErrorView,
> {
    match raw {
        Err(m) => Err(crate::storage::database::DatabaseErrorView::Specific(m)),
        Ok(None) => Ok(None),
        Ok(Some(bytes)) => if bytes.len() == N {
            Ok(Some(id_of_bytes::<N>(bytes)))
        } else {
            Err(crate::storage::database::DatabaseErrorView::Specific(invalid))
        },
    }
}

/// A raw lookup result, as values.
pub open spec fn raw_view(raw: Result<Option<Vec<u8>>, String>) -> Result<Option<Seq<u8>>, Seq<char>> {
    match raw {
        Ok(Some(v)) => Ok(Some(v@)),
        Ok(None) => Ok(None),
        Err(m) => Err(m@),
    }
}

/// Reads an identifier of `N` bytes out of what a lookup gave back.
pub fn id_from_lookup<const N: usize>(raw: Result<Option<Vec<u8>>, String>, invalid: &str) -> (r: Result<
    Option<[u8; N]>,
    DatabaseError,
>)
    ensures
        crate::storage::database::option_plain_result(r) == id_lookup::<N>(raw_view(raw), invalid@),
{
    match raw {
        Err(m) => Err(DatabaseError::Specific(m)),
        Ok(None) => Ok(None),
        Ok(Some(bytes)) => match id_from_bytes::<N>(&bytes) {
            Some(id) => Ok(Some(id)),
            None => Err(DatabaseError::Specific(invalid.to_string())),
        },
    }
}

/// A lookup in `tree`, with a failed read turned into its message.
fn lookup(tree: &::sled::Tree, key: &Vec<u8>) -> (r: Result<Option<Vec<u8>>, String>)
    ensures
        read_of(raw_view(r), tree_contents(*tree), key@),
{
    match tree_get(tree, key) {
        Ok(found) => Ok(found),
        Err(e) => Err(error_text(&e)),
    }
}

/// What looking up a stored value gives when its absence is an error: a
/// failed read is reported with its message, and a missing value as
/// `BlockNotFound`.
pub open spec fn required_lookup(raw: Result<Option<Seq<u8>>, Seq<char>>) -> Result<
    Seq<u8>,
    crate::storage::database::DatabaseErrorView,
> {
    match raw {
        Err(m) => Err(crate::storage::database::DatabaseErrorView::Specific(m)),
        Ok(None) => Err(crate::storage::database::DatabaseErrorView::BlockNotFound),
        Ok(Some(bytes)) => Ok(bytes),
    }
}

/// The stored value out of what a lookup gave back, where its absence is an
/// error.
pub fn required_from_lookup(raw: Result<Option<Vec<u8>>, String>) -> (r: Result<Vec<u8>, DatabaseError>)
    ensures
        crate::storage::database::block_result(r) == required_lookup(raw_view(raw)),
{
    match raw {
        Err(m) => Err(DatabaseError::Specific(m)),
        Ok(None) => Err(DatabaseError::BlockNotFound),
        Ok(Some(bytes)) => Ok(bytes),
    }
}

/// What looking up an account's latest-block pointer gives: a failed read
/// is reported with its message; a missing pointer, or one that is not a
/// block id, is `BlockNotFound`.
pub open spec fn latest_id_lookup(raw: Result<Option<Seq<u8>>, Seq<char>>) -> Result<
    BlockId,
    crate::storage::database::DatabaseErrorView,
> {
    match raw {
        Err(m) => Err(crate::storage::database::DatabaseErrorView::Specific(m)),
        Ok(None) => Err(crate::storage::database::DatabaseErrorView::BlockNotFound),
        Ok(Some(bytes)) => if bytes.len() == 32 {
            Ok(id_of_bytes::<32>(bytes))
        } else {
            Err(crate::storage::database::DatabaseErrorView::BlockNotFound)
        },
    }
}

/// The latest block id out of what looking up the pointer gave back.
pub fn latest_id_from_lookup(raw: Result<Option<Vec<u8>>, String>) -> (r: Result<BlockId, DatabaseError>)
    ensures
        crate::storage::database::plain_result(r) == latest_id_lookup(raw_view(raw)),
{
    match required_from_lookup(raw) {
        Err(e) => Err(e),
        Ok(bytes) => match id_from_bytes::<32>(&bytes) {
            Some(id) => Ok(id),
            None => Err(DatabaseError::BlockNotFound),
        },
    }
}

/// The key under which a block is stored, given its id as the by-height
/// lookup gave it back: `"by_id_"` and those bytes.
pub fn stored_block_key(block_id: &Vec<u8>) -> (r: Vec<u8>)
    ensures
        r@ == crate::storage::sled::keys::by_id_prefix() + block_id@,
{
    let mut key = crate::storage::sled::keys::by_id_key_prefix();
    let mut id = copy_vec(block_id);
    key.append(&mut id);
    key
}

/// A lookup result that may find nothing, as values.
pub open spec fn found_view(r: Result<Option<Vec<u8>>, DatabaseError>) -> Result<
    Option<Seq<u8>>,
    crate::storage::database::DatabaseErrorView,
> {
    match r {
        Ok(Some(v)) => Ok(Some(v@)),
        Ok(None) => Ok(None),
        Err(e) => Err(e@),
    }
}

/// What finding a block by height gives, from the lookup of its id and the
/// lookup of the block under that id: a failed read is reported with its
/// message, and either lookup finding nothing gives `None`.
pub open spec fn by_height_lookup(
    id_raw: Result<Option<Seq<u8>>, Seq<char>>,
    block_raw: Result<Option<Seq<u8>>, Seq<char>>,
) -> Result<Option<Seq<u8>>, crate::storage::database::DatabaseErrorView> {
    match id_raw {
        Err(m) => Err(crate::storage::database::DatabaseErrorView::Specific(m)),
        Ok(None) => Ok(None),
        Ok(Some(_)) => match block_raw {
            Err(m) => Err(crate::storage::database::DatabaseErrorView::Specific(m)),
            Ok(found) => Ok(found),
        },
    }
}

/// The tree names of the store, in the order they are opened.
pub open spec fn store_tree_names() -> Seq<Seq<char>> {
    seq!["accounts"@, "claims"@, "blocks"@, "transactions"@]
}

/// The trees of the store, in the order they are opened: accounts, claims,
/// blocks, transactions.
pub fn tree_names() -> (r: Vec<&'static str>)
    ensures
        r@.len() == 4,
        forall|i: int| 0 <= i < 4 ==> (#[trigger] r@[i])@ == store_tree_names()[i],
{
    let mut v: Vec<&'static str> = Vec::new();
    v.push("accounts");
    v.push("claims");
    v.push("blocks");
    v.push("transactions");
    v
}

/// Where the store lives: `None` for a temporary store (the configuration
/// says `temporary = true`), else the text of the configured data path.
pub open spec fn open_target_spec(cfg: DatabaseConfig) -> Option<Seq<char>> {
    if cfg.temporary == Some(true) {
        None
    } else {
        Some(cfg.data_path->0@)
    }
}

/// Where the store described by `cfg` lives.
pub fn open_target(cfg: &DatabaseConfig) -> (r: Option<String>)
    requires
        sled_config_ok(*cfg),
    ensures
        opt_text_of(r) == open_target_spec(*cfg),
{
    let temporary = match cfg.temporary {
        Some(t) => t,
        None => false,
    };
    if temporary {
        None
    } else {
        match &cfg.data_path {
            Some(p) => Some(p.clone()),
            None => {
                assert(false);
                None
            },
        }
    }
}

/// The text of an optional string.
pub open spec fn opt_text_of(s: Option<String>) -> Option<Seq<char>> {
    match s {
        Some(t) => Some(t@),
        None => None,
    }
}

impl SledDB {
    /// Opens the store described by `cfg`: a temporary database, or the one
    /// at its data path (as [`open_target`] gives it), with the trees of
    /// [`tree_names`]. A configuration that is not temporary must name a
    /// data path. Whether the store opens depends on the machine.
    pub fn new(cfg: &DatabaseConfig) -> (r: Result<Self, DatabaseError>)
        requires
            sled_config_ok(*cfg),
        ensures
            r matches Err(e) ==> e is Specific,
            cfg.temporary == Some(true) ==> (r matches Ok(db) ==> db@ == empty_store()),
    {
        let opened = match open_target(cfg) {
            None => open_temporary(),
            Some(p) => open_at(p.as_str()),
        };
        let db = match opened {
            Ok(db) => db,
            Err(e) => return Err(specific(&e)),
        };
        let names = tree_names();
        let accounts = match open_tree(&db, names[0]) {
            Ok(t) => t,
            Err(e) => return Err(specific(&e)),
        };
        let claims = match open_tree(&db, names[1]) {
            Ok(t) => t,
            Err(e) => return Err(specific(&e)),
        };
        let blocks = match open_tree(&db, names[2]) {
            Ok(t) => t,
            Err(e) => return Err(specific(&e)),
        };
        let transactions = match open_tree(&db, names[3]) {
            Ok(t) => t,
            Err(e) => return Err(specific(&e)),
        };
        Ok(SledDB { blocks, accounts, transactions, claims })
    }

    /// The transaction that claimed the send transaction `tx`, if any: read
    /// from the claims tree under the send transaction's id, by
    /// [`id_from_lookup`] with "invalid transaction id". What the tree holds
    /// is on disk; the answer is that reading of what the lookup gave back.
    pub fn get_send_recipient(&self, tx: TransactionId) -> (r: Result<Option<TransactionId>, DatabaseError>)
        ensures
            exists|raw: Result<Option<Seq<u8>>, Seq<char>>|
                read_of(raw, self@.claims, tx@) && crate::storage::database::option_plain_result(r)
                    == #[trigger] id_lookup::<32>(raw, "invalid transaction id"@),
    {
        let key = id_to_vec(&tx);
        let raw = lookup(&self.claims, &key);
        let ghost rv = raw_view(raw);
        let invalid = "invalid transaction id";
        let r = id_from_lookup::<32>(raw, invalid);
        assert(crate::storage::database::option_plain_result(r) == id_lookup::<32>(rv, "invalid transaction id"@));
        r
    }

    /// The representative `account_id` delegates to, if any: read from the
    /// accounts tree under `"rep_" + account_id`, where storing a block that
    /// delegates writes it, by [`id_from_lookup`] with "invalid account id".
    pub fn get_account_delegate(&self, account_id: AccountId) -> (r: Result<Option<AccountId>, DatabaseError>)
        ensures
            exists|raw: Result<Option<Seq<u8>>, Seq<char>>|
                read_of(raw, self@.accounts, delegate_write_key_spec(account_id))
                    && crate::storage::database::option_plain_result(r) == #[trigger] id_lookup::<24>(
                    raw,
                    "invalid account id"@,
                ),
    {
        let key = delegate_write_key(&account_id);
        let raw = lookup(&self.accounts, &key);
        let ghost rv = raw_view(raw);
        let invalid = "invalid account id";
        let r = id_from_lookup::<24>(raw, invalid);
        assert(crate::storage::database::option_plain_result(r) == id_lookup::<24>(rv, "invalid account id"@));
        r
    }

    /// The id of the latest block of `account_id`: read from the accounts
    /// tree under `account_id + "_last_blk"`, by [`latest_id_from_lookup`].
    pub fn get_latest_block_id(&self, account_id: AccountId) -> (r: Result<BlockId, DatabaseError>)
        ensures
            exists|raw: Result<Option<Seq<u8>>, Seq<char>>|
                read_of(raw, self@.accounts, last_block_key_spec(account_id))
                    && crate::storage::database::plain_result(r) == #[trigger] latest_id_lookup(raw),
    {
        let key = last_block_key(&account_id);
        let raw = lookup(&self.accounts, &key);
        let ghost rv = raw_view(raw);
        let r = latest_id_from_lookup(raw);
        assert(crate::storage::database::plain_result(r) == latest_id_lookup(rv));
        r
    }

    /// The encoded block stored under `block_id`: read from the blocks tree
    /// under `"by_id_" + block_id`, by [`required_from_lookup`]; a missing
    /// block is `BlockNotFound`.
    pub fn get_block_bytes_by_id(&self, block_id: BlockId) -> (r: Result<Vec<u8>, DatabaseError>)
        ensures
            exists|raw: Result<Option<Seq<u8>>, Seq<char>>|
                read_of(raw, self@.blocks, block_key_spec(block_id))
                    && crate::storage::database::block_result(r) == #[trigger] required_lookup(raw),
    {
        let key = block_key(&block_id);
        let raw = lookup(&self.blocks, &key);
        let ghost rv = raw_view(raw);
        let r = required_from_lookup(raw);
        assert(crate::storage::database::block_result(r) == required_lookup(rv));
        r
    }

    /// The encoded transaction stored under `transaction_id`: read from the
    /// transactions tree under `"by_id_" + transaction_id`, by
    /// [`required_from_lookup`]; a missing one is `BlockNotFound`.
    pub fn get_transaction_bytes_by_id(&self, transaction_id: TransactionId) -> (r: Result<Vec<u8>, DatabaseError>)
        ensures
            exists|raw: Result<Option<Seq<u8>>, Seq<char>>|
                read_of(raw, self@.transactions, transaction_key_spec(transaction_id))
                    && crate::storage::database::block_result(r) == #[trigger] required_lookup(raw),
    {
        let key = transaction_key(&transaction_id);
        let raw = lookup(&self.transactions, &key);
        let ghost rv = raw_view(raw);
        let r = required_from_lookup(raw);
        assert(crate::storage::database::block_result(r) == required_lookup(rv));
        r
    }

    /// The encoded block of `account_id` at `block_height`, if any: the block
    /// id read under `"by_acc_" + account_id + "_" + height`, then the block
    /// under [`stored_block_key`] of that id; either missing gives `None`.
    pub fn get_block_bytes_by_height(&self, account_id: AccountId, block_height: &u64) -> (r: Result<
        Option<Vec<u8>>,
        DatabaseError,
    >)
        ensures
            exists|id_raw: Result<Option<Seq<u8>>, Seq<char>>, block_raw: Result<Option<Seq<u8>>, Seq<char>>|
                read_of(id_raw, self@.blocks, block_by_account_key_spec(account_id, *block_height)) && (id_raw matches Ok(
                    Some(id),
                ) ==> read_of(block_raw, self@.blocks, crate::storage::sled::keys::by_id_prefix() + id))
                    && found_view(r) == #[trigger] by_height_lookup(id_raw, block_raw),
    {
        let key = block_by_account_key(&account_id, *block_height);
        let id_raw = lookup(&self.blocks, &key);
        let block_id = match id_raw {
            Err(m) => {
                let r = Err(DatabaseError::Specific(m));
                assert(found_view(r) == by_height_lookup(raw_view(id_raw), Ok(None)));
                return r;
            },
            Ok(None) => {
                let r = Ok(None);
                assert(found_view(r) == by_height_lookup(raw_view(id_raw), Ok(None)));
                return r;
            },
            Ok(Some(ref id)) => id,
        };
        let block_key = stored_block_key(block_id);
        let block_raw = lookup(&self.blocks, &block_key);
        let r = match block_raw {
            Err(m) => Err(DatabaseError::Specific(m)),
            Ok(found) => Ok(found),
        };
        assert(found_view(r) == by_height_lookup(raw_view(id_raw), raw_view(block_raw)));
        r
    }

    /// Stores `block` with its transactions in one transaction, given what
    /// computing its id, its account's address and each transaction's id
    /// gave and its encodings. A block id that could not be computed is
    /// reported with its message; an account address that could not be
    /// computed, as "account ID could not be generated"; a transaction
    /// without id, or a transaction that did not commit, as
    /// `DBInsertFailed`. Once stored, the trees hold the writes of
    /// [`block_writes`] applied to what they held; refused before writing,
    /// the store is left as it was. After a commit that failed, what the
    /// trees hold is not stated.
    pub fn add_block(&mut self, block: &SignedBlock, input: &SledBlockInput) -> (r: Result<(), DatabaseError>)
        requires
            block@.data is Some,
            input.transaction_ids@.len() == block@.data->0.transactions.len(),
            input.encoded_transactions@.len() == block@.data->0.transactions.len(),
            block@.data->0.transactions.len() < u64::MAX,
        ensures
            match input.block_id {
                Err(m) => r matches Err(DatabaseError::Specific(e)) && e@ == m@,
                Ok(_) => match input.account_id {
                    None => r matches Err(DatabaseError::Specific(e)) && e@ == "account ID could not be generated"@,
                    Some(_) => {
                        &&& some_id_missing(input.transaction_ids@) ==> r == Err::<(), DatabaseError>(
                            DatabaseError::DBInsertFailed(INSERT_FAILED_AT),
                        )
                        &&& (r is Ok || r == Err::<(), DatabaseError>(
                            DatabaseError::DBInsertFailed(INSERT_FAILED_AT),
                        ))
                    },
                },
            },
            r is Ok ==> exists|ids: Seq<TransactionId>|
                all_ids(input.transaction_ids@, ids) && final(self)@ == apply_plan(
                    old(self)@,
                    #[trigger] block_plan(
                        input.block_id->Ok_0,
                        input.account_id->0,
                        block@.data->0.height,
                        input.encoded_block@,
                        block@.data->0.transactions,
                        ids,
                        encodings_view(input.encoded_transactions@),
                    ),
                ),
            input.block_id is Err || input.account_id is None || some_id_missing(input.transaction_ids@)
                ==> final(self)@ == old(self)@,
    {
        let data = match &block.data {
            Some(d) => d,
            None => {
                assert(false);
                return Err(DatabaseError::DataNotFound);
            },
        };
        let block_id = match &input.block_id {
            Ok(id) => *id,
            Err(m) => return Err(DatabaseError::Specific(m.clone())),
        };
        let account_id = match input.account_id {
            Some(a) => a,
            None => {
                let m = "account ID could not be generated";
                proof {
                    reveal_strlit("account ID could not be generated");
                }
                return Err(DatabaseError::Specific(m.to_string()));
            },
        };
        let plan = block_writes(
            &block_id,
            &account_id,
            data.height,
            &input.encoded_block,
            &data.transactions,
            &input.transaction_ids,
            &input.encoded_transactions,
        );
        match plan {
            None => Err(DatabaseError::DBInsertFailed(INSERT_FAILED_AT)),
            Some(plan) => {
                assert(block@.data->0.transactions == transactions_view(data.transactions@));
                assert(block@.data->0.height == data.height);
                if commit_block(self, &plan) {
                    Ok(())
                } else {
                    Err(DatabaseError::DBInsertFailed(INSERT_FAILED_AT))
                }
            },
        }
    }
}

/// What the block codec and the account-address scheme give for a block
/// before it is stored: its id (or why it has none), the address of the
/// account that signed it, each transaction's id, and the encodings of the
/// block and of each transaction.
pub struct SledBlockInput {
    pub block_id: Result<BlockId, String>,
    pub account_id: Option<AccountId>,
    pub transaction_ids: Vec<Option<TransactionId>>,
    pub encoded_block: Vec<u8>,
    pub encoded_transactions: Vec<Vec<u8>>,
}

/// Opens the block store that `cfg` describes. Sled is the one backend built
/// in; another kind is `InvalidKind`.
pub fn open_database(cfg: &DatabaseConfig) -> (r: Result<SledDB, DatabaseError>)
    requires
        cfg.kind == Databases::Sled ==> sled_config_ok(*cfg),
    ensures
        cfg.kind != Databases::Sled ==> r matches Err(DatabaseError::InvalidKind),
        cfg.kind == Databases::Sled ==> (r matches Err(e) ==> e is Specific),
{
    match cfg.kind {
        Databases::Sled => SledDB::new(cfg),
        _ => Err(DatabaseError::InvalidKind),
    }
}

/// A scanned block, with the address of the account that signed it (`None`
/// when it could not be computed), as values.
pub open spec fn scanned_view(s: Seq<(Option<AccountId>, SignedBlock)>) -> Seq<(Option<AccountId>, SignedBlockView)> {
    s.map_values(|p: (Option<AccountId>, SignedBlock)| (p.0, p.1@))
}

/// A scanned block that ends the search for the latest block of
/// `account_id` before `unix_from`: a block of that account older than
/// `unix_limit` or older than `unix_from`.
pub open spec fn ends_search(
    item: (Option<AccountId>, SignedBlockView),
    account_id: AccountId,
    unix_from: u64,
    unix_limit: u64,
) -> bool {
    item.0 == Some(account_id) && (item.1.timestamp < unix_limit || item.1.timestamp < unix_from)
}

/// Among the first `n` scanned blocks, the position of the first of those
/// with the greatest timestamp among the blocks that end the search.
pub open spec fn latest_ending(
    scanned: Seq<(Option<AccountId>, SignedBlockView)>,
    account_id: AccountId,
    unix_from: u64,
    unix_limit: u64,
    n: nat,
) -> Option<int>
    decreases n,
{
    if n == 0 {
        None
    } else {
        let prev = latest_ending(scanned, account_id, unix_from, unix_limit, (n - 1) as nat);
        if ends_search(scanned[n - 1], account_id, unix_from, unix_limit) {
            match prev {
                None => Some(n - 1),
                Some(b) => if scanned[n - 1].1.timestamp > scanned[b].1.timestamp {
                    Some(n - 1)
                } else {
                    Some(b)
                },
            }
        } else {
            prev
        }
    }
}

/// The latest block of the account before `unix_from`, among the scanned
/// blocks: of the blocks that end the search, the one with the greatest
/// timestamp (the first such, on a tie) gives nothing when it is older than
/// `unix_limit` and is found otherwise; when no block ends the search, the
/// answer is `Unknown`.
pub open spec fn latest_before_spec(
    scanned: Seq<(Option<AccountId>, SignedBlockView)>,
    account_id: AccountId,
    unix_from: u64,
    unix_limit: u64,
) -> Result<Option<SignedBlockView>, DatabaseErrorView> {
    match latest_ending(scanned, account_id, unix_from, unix_limit, scanned.len()) {
        None => Err(DatabaseErrorView::Unknown),
        Some(b) => if scanned[b].1.timestamp < unix_limit {
            Ok(None)
        } else {
            Ok(Some(scanned[b].1))
        },
    }
}

/// The position `latest_ending` gives is that of a block that ends the
/// search and is at least as recent as every other such block; when it
/// gives none, no block ends the search.
pub proof fn lemma_latest_ending(
    scanned: Seq<(Option<AccountId>, SignedBlockView)>,
    account_id: AccountId,
    unix_from: u64,
    unix_limit: u64,
    n: nat,
)
    requires
        n <= scanned.len(),
    ensures
        match latest_ending(scanned, account_id, unix_from, unix_limit, n) {
            Some(b) => {
                &&& 0 <= b < n
                &&& ends_search(scanned[b], account_id, unix_from, unix_limit)
                &&& forall|j: int|
                    0 <= j < n && ends_search(#[trigger] scanned[j], account_id, unix_from, unix_limit)
                        ==> scanned[j].1.timestamp <= scanned[b].1.timestamp
            },
            None => forall|j: int|
                0 <= j < n ==> !ends_search(#[trigger] scanned[j], account_id, unix_from, unix_limit),
        },
    decreases n,
{
    if n > 0 {
        lemma_latest_ending(scanned, account_id, unix_from, unix_limit, (n - 1) as nat);
    }
}

/// The latest block of `account_id` before `unix_from`, searched among the
/// blocks of the store, each with the address of the account that signed it;
/// blocks whose value could not be decoded are left out of `scanned`. Of the
/// account's blocks older than `unix_from` (or than `unix_limit`), the most
/// recent is found, unless it is older than `unix_limit`: then nothing is.
pub fn latest_block_before_in(
    scanned: &Vec<(Option<AccountId>, SignedBlock)>,
    account_id: AccountId,
    unix_from: u64,
    unix_limit: u64,
) -> (r: Result<Option<SignedBlock>, DatabaseError>)
    ensures
        crate::storage::database::option_result(r) == latest_before_spec(
            scanned_view(scanned@),
            account_id,
            unix_from,
            unix_limit,
        ),
        r matches Ok(Some(b)) ==> forall|j: int|
            0 <= j < scanned@.len() && ends_search(
                #[trigger] scanned_view(scanned@)[j],
                account_id,
                unix_from,
                unix_limit,
            ) ==> scanned_view(scanned@)[j].1.timestamp <= b@.timestamp,
{
    let ghost all = scanned_view(scanned@);
    let mut best: Option<usize> = None;
    let mut i: usize = 0;
    while i < scanned.len()
        invariant
            i <= scanned@.len(),
            all == scanned_view(scanned@),
            match best {
                None => latest_ending(all, account_id, unix_from, unix_limit, i as nat) is None,
                Some(b) => latest_ending(all, account_id, unix_from, unix_limit, i as nat) == Some(b as int)
                    && b < i,
            },
        decreases scanned@.len() - i,
    {
        let item = &scanned[i];
        assert(all[i as int] == (item.0, item.1@));
        let signed_by_account = match item.0 {
            Some(a) => id_equal(&a, &account_id),
            None => false,
        };
        if signed_by_account && (item.1.timestamp < unix_limit || item.1.timestamp < unix_from) {
            match best {
                None => {
                    best = Some(i);
                },
                Some(b) => {
                    assert(all[b as int] == (scanned@[b as int].0, scanned@[b as int].1@));
                    if item.1.timestamp > scanned[b].1.timestamp {
                        best = Some(i);
                    }
                },
            }
        }
        i = i + 1;
    }
    proof {
        lemma_latest_ending(all, account_id, unix_from, unix_limit, all.len());
    }
    match best {
        None => Err(DatabaseError::Unknown),
        Some(b) => {
            assert(all[b as int] == (scanned@[b as int].0, scanned@[b as int].1@));
            if scanned[b].1.timestamp < unix_limit {
                Ok(None)
            } else {
                Ok(Some(scanned[b].1.clone()))
            }
        },
    }
}

/// A stored transaction with the address of the account whose block holds
/// it (or the error met reading that block or computing the address), as
/// values.
pub open spec fn signed_txs_view(s: Seq<(Result<AccountId, DatabaseError>, Transaction)>) -> Seq<
    (Result<AccountId, DatabaseErrorView>, TransactionView),
> {
    s.map_values(
        |p: (Result<AccountId, DatabaseError>, Transaction)|
            (
                match p.0 {
                    Ok(a) => Ok(a),
                    Err(e) => Err(e@),
                },
                p.1@,
            ),
    )
}

/// `tx` delegates to `account_id`.
pub open spec fn delegates_to(tx: TransactionView, account_id: AccountId) -> bool {
    tx.data matches Some(DataView::TxDelegate { representative }) && representative == account_id@
}

/// The accounts whose latest delegation, among the first `n` transactions
/// (newest first), names `account_id`, in the order they come, and the
/// accounts whose latest delegation has been seen; the first error met
/// stops the search.
pub open spec fn delegates_spec(
    txs: Seq<(Result<AccountId, DatabaseErrorView>, TransactionView)>,
    account_id: AccountId,
    n: nat,
) -> Result<(Seq<AccountId>, Seq<AccountId>), DatabaseErrorView>
    decreases n,
{
    if n == 0 {
        Ok((Seq::empty(), Seq::empty()))
    } else {
        match delegates_spec(txs, account_id, (n - 1) as nat) {
            Err(e) => Err(e),
            Ok((found, seen)) => match txs[n - 1].0 {
                Err(e) => Err(e),
                Ok(a) => if is_delegation(txs[n - 1].1) && !seen.contains(a) {
                    if delegates_to(txs[n - 1].1, account_id) {
                        Ok((found.push(a), seen.push(a)))
                    } else {
                        Ok((found, seen.push(a)))
                    }
                } else {
                    Ok((found, seen))
                },
            },
        }
    }
}

/// `tx` is a delegation.
pub open spec fn is_delegation(tx: TransactionView) -> bool {
    tx.data matches Some(DataView::TxDelegate { .. })
}

/// The accounts that delegate to `account_id`, searched among the stored
/// transactions newest first, each with the address of the account whose
/// block holds it or the error met reading that block or computing the
/// address; transactions that could not be decoded are left out of `txs`.
/// Only an account's latest delegation counts; each account is listed once.
pub fn delegates_in(txs: &Vec<(Result<AccountId, DatabaseError>, Transaction)>, account_id: AccountId) -> (r: Result<
    Vec<AccountId>,
    DatabaseError,
>)
    ensures
        match delegates_spec(signed_txs_view(txs@), account_id, txs@.len()) {
            Ok((found, _)) => r matches Ok(v) && v@ == found,
            Err(e) => r matches Err(x) && x@ == e,
        },
        r matches Ok(v) ==> v@.no_duplicates(),
{
    let ghost all = signed_txs_view(txs@);
    let mut found: Vec<AccountId> = Vec::new();
    let mut seen: Vec<AccountId> = Vec::new();
    let mut i: usize = 0;
    while i < txs.len()
        invariant
            i <= txs@.len(),
            all == signed_txs_view(txs@),
            delegates_spec(all, account_id, i as nat) == Ok::<(Seq<AccountId>, Seq<AccountId>), DatabaseErrorView>(
                (found@, seen@),
            ),
            found@.no_duplicates(),
            forall|x: AccountId| found@.contains(x) ==> seen@.contains(x),
        decreases txs@.len() - i,
    {
        let item = &txs[i];
        assert(all[i as int] == (match item.0 {
            Ok(a) => Ok(a),
            Err(e) => Err(e@),
        }, item.1@));
        let a = match &item.0 {
            Ok(a) => *a,
            Err(e) => {
                proof {
                    lemma_delegates_stop(all, account_id, (i + 1) as nat, txs@.len());
                }
                return Err(e.duplicate());
            },
        };
        let (delegation, to_account) = match &item.1.data {
            Some(Data::TxDelegate(d)) => (true, id_matches_bytes(&account_id, &d.representative)),
            _ => (false, false),
        };
        if delegation && !contains_id(&seen, &a) {
            let ghost before_found = found@;
            let ghost before_seen = seen@;
            if to_account {
                found.push(a);
                proof {
                    assert forall|x: int, y: int| 0 <= x < y < found@.len() implies found@[x] != found@[y] by {
                        if y == before_found.len() {
                            assert(before_found.contains(before_found[x]));
                        }
                    }
                }
            }
            seen.push(a);
            proof {
                assert forall|x: AccountId| found@.contains(x) implies seen@.contains(x) by {
                    if x == a {
                        assert(seen@[before_seen.len() as int] == a);
                    } else {
                        let k = choose|k: int| 0 <= k < found@.len() && found@[k] == x;
                        assert(k < before_found.len());
                        assert(before_found[k] == x);
                        assert(before_seen.contains(x));
                        let m = choose|m: int| 0 <= m < before_seen.len() && before_seen[m] == x;
                        assert(seen@[m] == x);
                    }
                }
            }
        }
        i = i + 1;
    }
    Ok(found)
}

/// Once an error has stopped the search, more transactions give the same
/// error.
proof fn lemma_delegates_stop(
    txs: Seq<(Result<AccountId, DatabaseErrorView>, TransactionView)>,
    account_id: AccountId,
    n: nat,
    m: nat,
)
    requires
        n <= m,
        delegates_spec(txs, account_id, n) is Err,
    ensures
        delegates_spec(txs, account_id, m) == delegates_spec(txs, account_id, n),
    decreases m - n,
{
    if n < m {
        lemma_delegates_stop(txs, account_id, n, (m - 1) as nat);
    }
}

} // verus!
