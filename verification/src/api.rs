//! The data model shared by the node: identifiers, blocks, transactions and
//! accounts, each with a mathematical view.
use vstd::prelude::*;

verus! {

broadcast use vstd::array::group_array_axioms;

/// Identifier of a block (the hash of its encoding).
pub type BlockId = [u8; 32];

/// Identifier (address) of an account.
pub type AccountId = [u8; 24];

/// Identifier of a transaction.
pub type TransactionId = [u8; 32];

/// Lexicographic order on byte strings, the order in which the node's ordered
/// maps keep their identifiers.
pub open spec fn bytes_lt(a: Seq<u8>, b: Seq<u8>) -> bool
    decreases a.len(),
{
    if a.len() == 0 {
        b.len() > 0
    } else if b.len() == 0 {
        false
    } else if a[0] < b[0] {
        true
    } else if a[0] == b[0] {
        bytes_lt(a.drop_first(), b.drop_first())
    } else {
        false
    }
}

/// `a` comes strictly before `b` in identifier order.
pub open spec fn id_lt<const N: usize>(a: [u8; N], b: [u8; N]) -> bool {
    bytes_lt(a@, b@)
}

/// No byte string comes before itself.
pub proof fn lemma_bytes_lt_irreflexive(a: Seq<u8>)
    ensures
        !bytes_lt(a, a),
    decreases a.len(),
{
    if a.len() > 0 {
        lemma_bytes_lt_irreflexive(a.drop_first());
    }
}

/// The order is transitive.
pub proof fn lemma_bytes_lt_transitive(a: Seq<u8>, b: Seq<u8>, c: Seq<u8>)
    requires
        bytes_lt(a, b),
        bytes_lt(b, c),
    ensures
        bytes_lt(a, c),
    decreases a.len(),
{
    if a.len() > 0 && b.len() > 0 && c.len() > 0 && a[0] == b[0] && b[0] == c[0] {
        lemma_bytes_lt_transitive(a.drop_first(), b.drop_first(), c.drop_first());
    }
}

/// Two byte strings are equal or one comes before the other.
pub proof fn lemma_bytes_lt_total(a: Seq<u8>, b: Seq<u8>)
    ensures
        bytes_lt(a, b) || bytes_lt(b, a) || a == b,
    decreases a.len(),
{
    if a.len() > 0 && b.len() > 0 && a[0] == b[0] {
        lemma_bytes_lt_total(a.drop_first(), b.drop_first());
        if a.drop_first() == b.drop_first() {
            assert(a =~= seq![a[0]] + a.drop_first());
            assert(b =~= seq![b[0]] + b.drop_first());
        }
    } else if a.len() == 0 && b.len() == 0 {
        assert(a =~= b);
    }
}

/// Identifier order is a strict total order.
pub proof fn lemma_id_order<const N: usize>(a: [u8; N], b: [u8; N], c: [u8; N])
    ensures
        !id_lt(a, a),
        id_lt(a, b) && id_lt(b, c) ==> id_lt(a, c),
        id_lt(a, b) || id_lt(b, a) || a == b,
        !(id_lt(a, b) && id_lt(b, a)),
{
    lemma_bytes_lt_irreflexive(a@);
    if id_lt(a, b) && id_lt(b, c) {
        lemma_bytes_lt_transitive(a@, b@, c@);
    }
    if id_lt(a, b) && id_lt(b, a) {
        lemma_bytes_lt_transitive(a@, b@, a@);
    }
    lemma_bytes_lt_total(a@, b@);
    if a@ == b@ {
        assert(a =~= b);
    }
}

/// Whether `a` comes strictly before `b` in identifier order.
pub fn id_less<const N: usize>(a: &[u8; N], b: &[u8; N]) -> (r: bool)
    ensures
        r == id_lt(*a, *b),
{
    let mut i: usize = 0;
    assert(a@.skip(0) =~= a@);
    assert(b@.skip(0) =~= b@);
    while i < N
        invariant
            0 <= i <= N,
            a@.len() == N,
            b@.len() == N,
            bytes_lt(a@, b@) == bytes_lt(a@.skip(i as int), b@.skip(i as int)),
        decreases N - i,
    {
        let x = a[i];
        let y = b[i];
        assert(a@.skip(i as int)[0] == x);
        assert(b@.skip(i as int)[0] == y);
        if x < y {
            return true;
        }
        if x > y {
            return false;
        }
        assert(a@.skip(i as int).drop_first() =~= a@.skip(i + 1));
        assert(b@.skip(i as int).drop_first() =~= b@.skip(i + 1));
        i = i + 1;
    }
    assert(a@.skip(N as int) =~= Seq::<u8>::empty());
    assert(b@.skip(N as int) =~= Seq::<u8>::empty());
    false
}

/// Whether two identifiers are equal.
pub fn id_equal<const N: usize>(a: &[u8; N], b: &[u8; N]) -> (r: bool)
    ensures
        r == (*a == *b),
{
    let mut i: usize = 0;
    while i < N
        invariant
            0 <= i <= N,
            forall|j: int| 0 <= j < i ==> a[j] == b[j],
        decreases N - i,
    {
        if a[i] != b[i] {
            return false;
        }
        i = i + 1;
    }
    assert(*a =~= *b);
    true
}

/// Whether `id` is among `ids`.
pub fn contains_id<const N: usize>(ids: &Vec<[u8; N]>, id: &[u8; N]) -> (r: bool)
    ensures
        r == ids@.contains(*id),
{
    let mut k: usize = 0;
    while k < ids.len()
        invariant
            k <= ids@.len(),
            forall|t: int| 0 <= t < k ==> ids@[t] != *id,
        decreases ids@.len() - k,
    {
        if id_equal(&ids[k], id) {
            return true;
        }
        k = k + 1;
    }
    false
}

/// Whether an identifier has the same bytes as a byte string.
pub fn id_matches_bytes<const N: usize>(id: &[u8; N], bytes: &Vec<u8>) -> (r: bool)
    ensures
        r == (id@ == bytes@),
{
    if bytes.len() != N {
        return false;
    }
    let mut i: usize = 0;
    while i < N
        invariant
            0 <= i <= N,
            bytes@.len() == N,
            forall|j: int| 0 <= j < i ==> id@[j] == bytes@[j],
        decreases N - i,
    {
        if id[i] != bytes[i] {
            return false;
        }
        i = i + 1;
    }
    assert(id@ =~= bytes@);
    true
}

/// Converts a byte string into an identifier: `None` unless it is exactly
/// `N` bytes long.
pub fn id_from_bytes<const N: usize>(bytes: &Vec<u8>) -> (r: Option<[u8; N]>)
    ensures
        r is Some <==> bytes@.len() == N,
        r matches Some(id) ==> id@ == bytes@ && id == id_of_bytes::<N>(bytes@),
{
    if bytes.len() != N {
        return None;
    }
    let mut id: [u8; N] = vstd::array::array_fill_for_copy_types::<u8, N>(0u8);
    let mut i: usize = 0;
    while i < N
        invariant
            0 <= i <= N,
            bytes@.len() == N,
            forall|j: int| 0 <= j < i ==> id@[j] == bytes@[j],
        decreases N - i,
    {
        id[i] = bytes[i];
        i = i + 1;
    }
    assert(id@ =~= bytes@);
    proof { lemma_id_of_bytes(id); }
    Some(id)
}

/// The identifier whose bytes are `bytes`.
pub open spec fn id_of_bytes<const N: usize>(bytes: Seq<u8>) -> [u8; N] {
    choose|id: [u8; N]| id@ == bytes
}

/// Equal bytes make equal identifiers.
pub proof fn lemma_id_of_bytes<const N: usize>(id: [u8; N])
    ensures
        id_of_bytes::<N>(id@) == id,
{
    let w = id_of_bytes::<N>(id@);
    assert(w@ == id@);
    assert(w =~= id);
}

/// The bytes of an identifier as a byte string.
pub fn id_to_vec<const N: usize>(id: &[u8; N]) -> (r: Vec<u8>)
    ensures
        r@ == id@,
{
    let mut v: Vec<u8> = Vec::new();
    let mut i: usize = 0;
    while i < N
        invariant
            0 <= i <= N,
            v@ == id@.subrange(0, i as int),
        decreases N - i,
    {
        v.push(id[i]);
        i = i + 1;
        assert(v@ =~= id@.subrange(0, i as int));
    }
    assert(id@.subrange(0, N as int) =~= id@);
    v
}

/// Sends `amount` to `receiver`.
#[derive(Debug, PartialEq)]
pub struct TxSend {
    pub receiver: Vec<u8>,
    pub amount: u64,
    pub data: Vec<u8>,
}

/// Collects (claims) the send transaction with id `transaction_id`.
#[derive(Debug, PartialEq)]
pub struct TxClaim {
    pub transaction_id: Vec<u8>,
}

/// Delegates the account's voting power to `representative`.
#[derive(Debug, PartialEq)]
pub struct TxDelegate {
    pub representative: Vec<u8>,
}

/// Opens an account.
#[derive(Debug, PartialEq)]
pub struct TxOpen {}

/// The payload of a transaction.
#[derive(Debug, PartialEq)]
pub enum Data {
    TxSend(TxSend),
    TxCollect(TxClaim),
    TxDelegate(TxDelegate),
    TxOpen(TxOpen),
}

/// A transaction inside a block.
#[derive(Debug, PartialEq)]
pub struct Transaction {
    pub data: Option<Data>,
}

/// The signed content of a block.
#[derive(Debug, PartialEq)]
pub struct BlockData {
    pub version: i32,
    pub signature_type: i32,
    pub balance: u64,
    pub height: u64,
    pub previous: Vec<u8>,
    pub transactions: Vec<Transaction>,
}

/// A block with its signature.
#[derive(Debug, PartialEq)]
pub struct SignedBlock {
    pub signature: Vec<u8>,
    pub public_key: Vec<u8>,
    pub timestamp: u64,
    pub data: Option<BlockData>,
}

/// An account as the block store keeps it.
#[derive(Debug, PartialEq)]
pub struct Account {
    pub account_type: i32,
    pub address: Vec<u8>,
    pub voting_power: u64,
    pub public_key: Vec<u8>,
    pub private_key: Vec<u8>,
}

/// The payload of a transaction, as a value.
pub enum DataView {
    TxSend { receiver: Seq<u8>, amount: u64, data: Seq<u8> },
    TxCollect { transaction_id: Seq<u8> },
    TxDelegate { representative: Seq<u8> },
    TxOpen,
}

/// A transaction, as a value.
pub struct TransactionView {
    pub data: Option<DataView>,
}

/// Block content, as a value.
pub struct BlockDataView {
    pub version: i32,
    pub signature_type: i32,
    pub balance: u64,
    pub height: u64,
    pub previous: Seq<u8>,
    pub transactions: Seq<TransactionView>,
}

/// A signed block, as a value.
pub struct SignedBlockView {
    pub signature: Seq<u8>,
    pub public_key: Seq<u8>,
    pub timestamp: u64,
    pub data: Option<BlockDataView>,
}

/// An account, as a value.
pub struct AccountView {
    pub account_type: i32,
    pub address: Seq<u8>,
    pub voting_power: u64,
    pub public_key: Seq<u8>,
    pub private_key: Seq<u8>,
}

impl View for Data {
    type V = DataView;

    open spec fn view(&self) -> DataView {
        match self {
            Data::TxSend(t) => DataView::TxSend {
                receiver: t.receiver@,
                amount: t.amount,
                data: t.data@,
            },
            Data::TxCollect(t) => DataView::TxCollect { transaction_id: t.transaction_id@ },
            Data::TxDelegate(t) => DataView::TxDelegate { representative: t.representative@ },
            Data::TxOpen(_) => DataView::TxOpen,
        }
    }
}

impl View for Transaction {
    type V = TransactionView;

    open spec fn view(&self) -> TransactionView {
        TransactionView {
            data: match self.data {
                Some(d) => Some(d@),
                None => None,
            },
        }
    }
}

/// The values of a list of transactions.
pub open spec fn transactions_view(txs: Seq<Transaction>) -> Seq<TransactionView> {
    txs.map_values(|t: Transaction| t@)
}

impl View for BlockData {
    type V = BlockDataView;

    open spec fn view(&self) -> BlockDataView {
        BlockDataView {
            version: self.version,
            signature_type: self.signature_type,
            balance: self.balance,
            height: self.height,
            previous: self.previous@,
            transactions: transactions_view(self.transactions@),
        }
    }
}

impl View for SignedBlock {
    type V = SignedBlockView;

    open spec fn view(&self) -> SignedBlockView {
        SignedBlockView {
            signature: self.signature@,
            public_key: self.public_key@,
            timestamp: self.timestamp,
            data: match self.data {
                Some(d) => Some(d@),
                None => None,
            },
        }
    }
}

impl View for Account {
    type V = AccountView;

    open spec fn view(&self) -> AccountView {
        AccountView {
            account_type: self.account_type,
            address: self.address@,
            voting_power: self.voting_power,
            public_key: self.public_key@,
            private_key: self.private_key@,
        }
    }
}

/// A copy of a byte string.
pub fn copy_bytes(v: &Vec<u8>) -> (r: Vec<u8>)
    ensures
        r@ == v@,
{
    let r = v.clone();
    assert(r@ =~= v@);
    r
}

impl Clone for Data {
    fn clone(&self) -> (r: Self)
        ensures
            r@ == self@,
    {
        match self {
            Data::TxSend(t) => Data::TxSend(
                TxSend { receiver: copy_bytes(&t.receiver), amount: t.amount, data: copy_bytes(&t.data) },
            ),
            Data::TxCollect(t) => Data::TxCollect(TxClaim { transaction_id: copy_bytes(&t.transaction_id) }),
            Data::TxDelegate(t) => Data::TxDelegate(TxDelegate { representative: copy_bytes(&t.representative) }),
            Data::TxOpen(_) => Data::TxOpen(TxOpen {}),
        }
    }
}

impl Clone for Transaction {
    fn clone(&self) -> (r: Self)
        ensures
            r@ == self@,
    {
        match &self.data {
            Some(d) => Transaction { data: Some(d.clone()) },
            None => Transaction { data: None },
        }
    }
}

/// A copy of a list of transactions.
pub fn copy_transactions(txs: &Vec<Transaction>) -> (r: Vec<Transaction>)
    ensures
        transactions_view(r@) == transactions_view(txs@),
{
    let mut r: Vec<Transaction> = Vec::new();
    let mut i: usize = 0;
    while i < txs.len()
        invariant
            0 <= i <= txs@.len(),
            r@.len() == i,
            forall|k: int| 0 <= k < i ==> (#[trigger] r@[k])@ == txs@[k]@,
        decreases txs@.len() - i,
    {
        let t = txs[i].clone();
        r.push(t);
        i = i + 1;
    }
    proof { lemma_transactions_view_equal(r@, txs@); }
    r
}

/// Lists of transactions with equal elements have equal values.
pub proof fn lemma_transactions_view_equal(a: Seq<Transaction>, b: Seq<Transaction>)
    requires
        a.len() == b.len(),
        forall|k: int| 0 <= k < a.len() ==> (#[trigger] a[k])@ == b[k]@,
    ensures
        transactions_view(a) == transactions_view(b),
{
    assert forall|k: int| 0 <= k < a.len() implies #[trigger] transactions_view(a)[k]
        == transactions_view(b)[k] by {
        assert(a[k]@ == b[k]@);
    }
    assert(transactions_view(a) =~= transactions_view(b));
}

impl Clone for BlockData {
    fn clone(&self) -> (r: Self)
        ensures
            r@ == self@,
    {
        BlockData {
            version: self.version,
            signature_type: self.signature_type,
            balance: self.balance,
            height: self.height,
            previous: copy_bytes(&self.previous),
            transactions: copy_transactions(&self.transactions),
        }
    }
}

impl Clone for SignedBlock {
    fn clone(&self) -> (r: Self)
        ensures
            r@ == self@,
    {
        SignedBlock {
            signature: copy_bytes(&self.signature),
            public_key: copy_bytes(&self.public_key),
            timestamp: self.timestamp,
            data: match &self.data {
                Some(d) => Some(d.clone()),
                None => None,
            },
        }
    }
}

impl Clone for Account {
    fn clone(&self) -> (r: Self)
        ensures
            r@ == self@,
    {
        Account {
            account_type: self.account_type,
            address: copy_bytes(&self.address),
            voting_power: self.voting_power,
            public_key: copy_bytes(&self.public_key),
            private_key: copy_bytes(&self.private_key),
        }
    }
}

/// The results of the calls that the node's rules make on a block into the
/// block codec and the account-address scheme: the block's id, the address
/// of the account that signed it, whether its signature verifies, the id of
/// each of its transactions and, for each, whether its receiver is a valid
/// account address.
#[derive(Debug, PartialEq)]
pub struct BlockFacts {
    /// `SignedBlock::get_id`; `None` when the id could not be computed.
    pub block_id: Option<BlockId>,
    /// `generate_account_address(public_key)`; `None` when it failed.
    pub account_id: Option<AccountId>,
    /// `verify_signature(encoded data, public_key, signature)` succeeded.
    pub signature_valid: bool,
    /// `Transaction::get_id(block_id)` for each transaction, in block order.
    pub transaction_ids: Vec<Option<TransactionId>>,
    /// `validate_account_address(receiver)` succeeded, for each transaction
    /// (only consulted for send transactions).
    pub receivers_valid: Vec<bool>,
}

/// The facts that are given for a block cover each of its transactions.
pub open spec fn facts_cover(block: SignedBlockView, facts: &BlockFacts) -> bool {
    match block.data {
        Some(d) => {
            &&& facts.transaction_ids@.len() == d.transactions.len()
            &&& facts.receivers_valid@.len() == d.transactions.len()
        },
        None => true,
    }
}

} // verus!
