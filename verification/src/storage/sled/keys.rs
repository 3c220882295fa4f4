//! The keys under which the sled store keeps blocks, transactions and
//! account pointers, and why keys of different kinds never collide.
use crate::api::{id_to_vec, AccountId, BlockId, TransactionId};
use vstd::prelude::*;

verus! {

/// `"by_id_"`: blocks by id (blocks tree), transactions by id (transactions tree).
pub open spec fn by_id_prefix() -> Seq<u8> {
    seq![98u8, 121, 95, 105, 100, 95]
}

/// `"by_acc_"`: block ids by account and height.
pub open spec fn by_acc_prefix() -> Seq<u8> {
    seq![98u8, 121, 95, 97, 99, 99, 95]
}

/// `"_"`.
pub open spec fn separator() -> Seq<u8> {
    seq![95u8]
}

/// `"_last_blk"`: the latest block of an account.
pub open spec fn last_blk_suffix() -> Seq<u8> {
    seq![95u8, 108, 97, 115, 116, 95, 98, 108, 107]
}

/// `"rep_"`: the representative an account delegated to.
pub open spec fn rep_prefix() -> Seq<u8> {
    seq![114u8, 101, 112, 95]
}

/// `"blk_by_id_"`: the block of a transaction.
pub open spec fn blk_by_id_prefix() -> Seq<u8> {
    seq![98u8, 108, 107, 95, 98, 121, 95, 105, 100, 95]
}

/// `"by_blk_id_"`: the transactions of a block, by position.
pub open spec fn by_blk_id_prefix() -> Seq<u8> {
    seq![98u8, 121, 95, 98, 108, 107, 95, 105, 100, 95]
}

/// The eight bytes of `x`, most significant first.
pub open spec fn be8(x: u64) -> Seq<u8> {
    seq![
        (x >> 56u64) as u8,
        (x >> 48u64) as u8,
        (x >> 40u64) as u8,
        (x >> 32u64) as u8,
        (x >> 24u64) as u8,
        (x >> 16u64) as u8,
        (x >> 8u64) as u8,
        x as u8,
    ]
}

/// Key of a block under its id.
pub open spec fn block_key_spec(id: BlockId) -> Seq<u8> {
    by_id_prefix() + id@
}

/// Key of the id of an account's block at a height.
pub open spec fn block_by_account_key_spec(account: AccountId, height: u64) -> Seq<u8> {
    by_acc_prefix() + account@ + separator() + be8(height)
}

/// Key of an account's latest block id.
pub open spec fn last_block_key_spec(account: AccountId) -> Seq<u8> {
    account@ + last_blk_suffix()
}

/// Key of the representative `account` delegated to.
pub open spec fn delegate_write_key_spec(account: AccountId) -> Seq<u8> {
    rep_prefix() + account@
}

/// Key of a transaction under its id.
pub open spec fn transaction_key_spec(id: TransactionId) -> Seq<u8> {
    by_id_prefix() + id@
}

/// Key of the block id of a transaction.
pub open spec fn transaction_block_key_spec(id: TransactionId) -> Seq<u8> {
    blk_by_id_prefix() + id@
}

/// Key of the transaction at position `index` in a block.
pub open spec fn block_transaction_key_spec(block: BlockId, index: u64) -> Seq<u8> {
    by_blk_id_prefix() + block@ + be8(index)
}

/// The bytes of `bytes`, as a vector.
fn bytes_of(bytes: &[u8]) -> (r: Vec<u8>)
    ensures
        r@ == bytes@,
{
    let mut v: Vec<u8> = Vec::new();
    let mut i: usize = 0;
    while i < bytes.len()
        invariant
            i <= bytes@.len(),
            v@ == bytes@.subrange(0, i as int),
        decreases bytes@.len() - i,
    {
        v.push(bytes[i]);
        i = i + 1;
        assert(v@ =~= bytes@.subrange(0, i as int));
    }
    assert(bytes@.subrange(0, bytes@.len() as int) =~= bytes@);
    v
}

/// The eight bytes of `x`, most significant first.
pub fn be_bytes(x: u64) -> (r: Vec<u8>)
    ensures
        r@ == be8(x),
{
    let mut v: Vec<u8> = Vec::new();
    v.push((x >> 56u64) as u8);
    v.push((x >> 48u64) as u8);
    v.push((x >> 40u64) as u8);
    v.push((x >> 32u64) as u8);
    v.push((x >> 24u64) as u8);
    v.push((x >> 16u64) as u8);
    v.push((x >> 8u64) as u8);
    v.push(x as u8);
    assert(v@ =~= be8(x));
    v
}

/// `"by_id_"`, to which an id is appended.
pub fn by_id_key_prefix() -> (r: Vec<u8>)
    ensures
        r@ == by_id_prefix(),
{
    bytes_of(&[98u8, 121, 95, 105, 100, 95])
}

/// Key of a block under its id.
pub fn block_key(id: &BlockId) -> (r: Vec<u8>)
    ensures
        r@ == block_key_spec(*id),
{
    let mut k = bytes_of(&[98u8, 121, 95, 105, 100, 95]);
    let mut idv = id_to_vec(id);
    k.append(&mut idv);
    k
}

/// Key of the id of an account's block at a height.
pub fn block_by_account_key(account: &AccountId, height: u64) -> (r: Vec<u8>)
    ensures
        r@ == block_by_account_key_spec(*account, height),
{
    let mut k = bytes_of(&[98u8, 121, 95, 97, 99, 99, 95]);
    let mut acc = id_to_vec(account);
    k.append(&mut acc);
    k.push(95u8);
    let mut h = be_bytes(height);
    k.append(&mut h);
    assert(k@ =~= block_by_account_key_spec(*account, height));
    k
}

/// Key of an account's latest block id.
pub fn last_block_key(account: &AccountId) -> (r: Vec<u8>)
    ensures
        r@ == last_block_key_spec(*account),
{
    let mut k = id_to_vec(account);
    let mut s = bytes_of(&[95u8, 108, 97, 115, 116, 95, 98, 108, 107]);
    k.append(&mut s);
    k
}

/// Key of the representative `account` delegated to.
pub fn delegate_write_key(account: &AccountId) -> (r: Vec<u8>)
    ensures
        r@ == delegate_write_key_spec(*account),
{
    let mut k = bytes_of(&[114u8, 101, 112, 95]);
    let mut acc = id_to_vec(account);
    k.append(&mut acc);
    k
}

/// Key of a transaction under its id.
pub fn transaction_key(id: &TransactionId) -> (r: Vec<u8>)
    ensures
        r@ == transaction_key_spec(*id),
{
    let mut k = bytes_of(&[98u8, 121, 95, 105, 100, 95]);
    let mut idv = id_to_vec(id);
    k.append(&mut idv);
    k
}

/// Key of the block id of a transaction.
pub fn transaction_block_key(id: &TransactionId) -> (r: Vec<u8>)
    ensures
        r@ == transaction_block_key_spec(*id),
{
    let mut k = bytes_of(&[98u8, 108, 107, 95, 98, 121, 95, 105, 100, 95]);
    let mut idv = id_to_vec(id);
    k.append(&mut idv);
    k
}

/// Key of the transaction at position `index` in a block.
pub fn block_transaction_key(block: &BlockId, index: u64) -> (r: Vec<u8>)
    ensures
        r@ == block_transaction_key_spec(*block, index),
{
    let mut k = bytes_of(&[98u8, 121, 95, 98, 108, 107, 95, 105, 100, 95]);
    let mut b = id_to_vec(block);
    k.append(&mut b);
    let mut i = be_bytes(index);
    k.append(&mut i);
    assert(k@ =~= block_transaction_key_spec(*block, index));
    k
}

/// Equal big-endian encodings come from equal numbers.
pub proof fn lemma_be8_injective(x: u64, y: u64)
    requires
        be8(x) == be8(y),
    ensures
        x == y,
{
    assert(be8(x)[0] == be8(y)[0]);
    assert(be8(x)[1] == be8(y)[1]);
    assert(be8(x)[2] == be8(y)[2]);
    assert(be8(x)[3] == be8(y)[3]);
    assert(be8(x)[4] == be8(y)[4]);
    assert(be8(x)[5] == be8(y)[5]);
    assert(be8(x)[6] == be8(y)[6]);
    assert(be8(x)[7] == be8(y)[7]);
    assert(x == y) by (bit_vector)
        requires
            (x >> 56u64) as u8 == (y >> 56u64) as u8,
            (x >> 48u64) as u8 == (y >> 48u64) as u8,
            (x >> 40u64) as u8 == (y >> 40u64) as u8,
            (x >> 32u64) as u8 == (y >> 32u64) as u8,
            (x >> 24u64) as u8 == (y >> 24u64) as u8,
            (x >> 16u64) as u8 == (y >> 16u64) as u8,
            (x >> 8u64) as u8 == (y >> 8u64) as u8,
            x as u8 == y as u8,
    ;
}

/// The blocks tree never confuses its two kinds of keys: block keys of
/// different blocks differ, keys by account and height differ for different
/// accounts or heights, and no key of one kind is a key of the other.
pub proof fn law_block_keys_distinct(a: BlockId, b: BlockId, acc1: AccountId, h1: u64, acc2: AccountId, h2: u64)
    ensures
        a != b ==> block_key_spec(a) != block_key_spec(b),
        (acc1 != acc2 || h1 != h2) ==> block_by_account_key_spec(acc1, h1) != block_by_account_key_spec(acc2, h2),
        block_key_spec(a) != block_by_account_key_spec(acc1, h1),
{
    if block_key_spec(a) == block_key_spec(b) {
        assert(a@ =~= block_key_spec(a).subrange(6, 38));
        assert(b@ =~= block_key_spec(b).subrange(6, 38));
        assert(a == b);
    }
    if block_by_account_key_spec(acc1, h1) == block_by_account_key_spec(acc2, h2) {
        let k1 = block_by_account_key_spec(acc1, h1);
        let k2 = block_by_account_key_spec(acc2, h2);
        assert(acc1@ =~= k1.subrange(7, 31));
        assert(acc2@ =~= k2.subrange(7, 31));
        assert(be8(h1) =~= k1.subrange(32, 40));
        assert(be8(h2) =~= k2.subrange(32, 40));
        lemma_be8_injective(h1, h2);
        assert(acc1 == acc2);
    }
    assert(block_key_spec(a).len() != block_by_account_key_spec(acc1, h1).len());
}

/// The transactions tree never confuses its three kinds of keys, and keys
/// of one kind differ for different transactions (or blocks and positions).
pub proof fn law_transaction_keys_distinct(t: TransactionId, u: TransactionId, b1: BlockId, i1: u64, b2: BlockId, i2: u64)
    ensures
        t != u ==> transaction_key_spec(t) != transaction_key_spec(u),
        t != u ==> transaction_block_key_spec(t) != transaction_block_key_spec(u),
        (b1 != b2 || i1 != i2) ==> block_transaction_key_spec(b1, i1) != block_transaction_key_spec(b2, i2),
        transaction_key_spec(t) != transaction_block_key_spec(u),
        transaction_key_spec(t) != block_transaction_key_spec(b1, i1),
        transaction_block_key_spec(t) != block_transaction_key_spec(b1, i1),
{
    if transaction_key_spec(t) == transaction_key_spec(u) {
        assert(t@ =~= transaction_key_spec(t).subrange(6, 38));
        assert(u@ =~= transaction_key_spec(u).subrange(6, 38));
        assert(t == u);
    }
    if transaction_block_key_spec(t) == transaction_block_key_spec(u) {
        assert(t@ =~= transaction_block_key_spec(t).subrange(10, 42));
        assert(u@ =~= transaction_block_key_spec(u).subrange(10, 42));
        assert(t == u);
    }
    if block_transaction_key_spec(b1, i1) == block_transaction_key_spec(b2, i2) {
        let k1 = block_transaction_key_spec(b1, i1);
        let k2 = block_transaction_key_spec(b2, i2);
        assert(b1@ =~= k1.subrange(10, 42));
        assert(b2@ =~= k2.subrange(10, 42));
        assert(be8(i1) =~= k1.subrange(42, 50));
        assert(be8(i2) =~= k2.subrange(42, 50));
        lemma_be8_injective(i1, i2);
        assert(b1 == b2);
    }
    assert(transaction_key_spec(t).len() == 38);
    assert(transaction_block_key_spec(u).len() == 42);
    assert(block_transaction_key_spec(b1, i1).len() == 50);
}

/// In the accounts tree, the pointer to an account's latest block is never
/// the key of a delegation, and pointers of different accounts differ.
pub proof fn law_account_keys_distinct(a: AccountId, b: AccountId)
    ensures
        a != b ==> last_block_key_spec(a) != last_block_key_spec(b),
        last_block_key_spec(a) != delegate_write_key_spec(b),
        a != b ==> delegate_write_key_spec(a) != delegate_write_key_spec(b),
{
    if last_block_key_spec(a) == last_block_key_spec(b) {
        assert(a@ =~= last_block_key_spec(a).subrange(0, 24));
        assert(b@ =~= last_block_key_spec(b).subrange(0, 24));
        assert(a == b);
    }
    assert(last_block_key_spec(a).len() == 33);
    assert(delegate_write_key_spec(b).len() == 28);
    if delegate_write_key_spec(a) == delegate_write_key_spec(b) {
        assert(a@ =~= delegate_write_key_spec(a).subrange(4, 28));
        assert(b@ =~= delegate_write_key_spec(b).subrange(4, 28));
        assert(a == b);
    }
}

} // verus!
