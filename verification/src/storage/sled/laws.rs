//! What reading the sled store gives back after a block is stored.
use crate::api::{lemma_id_of_bytes, AccountId, BlockId, DataView, TransactionId, TransactionView};
use crate::storage::database::DatabaseErrorView;
use crate::storage::sled::keys::{
    block_by_account_key_spec, block_key_spec, block_transaction_key_spec, by_id_prefix, delegate_write_key_spec,
    last_block_key_spec, law_account_keys_distinct, law_block_keys_distinct, law_transaction_keys_distinct,
    transaction_block_key_spec, transaction_key_spec,
};
use crate::storage::sled::main::{
    account_writes, apply_plan, apply_writes, block_plan, by_height_lookup, claim_writes, empty_store,
    latest_id_lookup, required_lookup, store_writes, stored_at, tx_account_writes, tx_claim_writes,
    tx_store_writes, SledView, Writes,
};
use vstd::prelude::*;

verus! {

/// Applying two lists of writes one after the other is applying them joined.
pub proof fn lemma_apply_concat(m: Map<Seq<u8>, Seq<u8>>, a: Writes, b: Writes)
    ensures
        apply_writes(m, a + b) == apply_writes(apply_writes(m, a), b),
    decreases b.len(),
{
    if b.len() == 0 {
        assert(a + b =~= a);
    } else {
        lemma_apply_concat(m, a, b.drop_last());
        assert((a + b).drop_last() =~= a + b.drop_last());
        assert((a + b).last() == b.last());
    }
}

/// A key that no write names keeps its value.
pub proof fn lemma_apply_untouched(m: Map<Seq<u8>, Seq<u8>>, ws: Writes, k: Seq<u8>)
    requires
        forall|i: int| 0 <= i < ws.len() ==> (#[trigger] ws[i]).0 != k,
    ensures
        stored_at(apply_writes(m, ws), k) == stored_at(m, k),
    decreases ws.len(),
{
    if ws.len() > 0 {
        assert(ws[ws.len() - 1].0 != k);
        assert forall|i: int| 0 <= i < ws.drop_last().len() implies (#[trigger] ws.drop_last()[i]).0 != k by {
            assert(ws.drop_last()[i] == ws[i]);
        }
        lemma_apply_untouched(m, ws.drop_last(), k);
    }
}

/// A key holds the value of the last write that names it.
pub proof fn lemma_apply_last(m: Map<Seq<u8>, Seq<u8>>, ws: Writes, i: int)
    requires
        0 <= i < ws.len(),
        forall|j: int| i < j < ws.len() ==> (#[trigger] ws[j]).0 != ws[i].0,
    ensures
        stored_at(apply_writes(m, ws), ws[i].0) == Some(ws[i].1),
    decreases ws.len(),
{
    if i < ws.len() - 1 {
        assert(ws[ws.len() - 1].0 != ws[i].0);
        assert forall|j: int| i < j < ws.drop_last().len() implies (#[trigger] ws.drop_last()[j]).0
            != ws.drop_last()[i].0 by {
            assert(ws.drop_last()[j] == ws[j]);
        }
        lemma_apply_last(m, ws.drop_last(), i);
    }
}

/// The representative of the last delegation among the first `n`
/// transactions.
pub open spec fn last_delegation(txs: Seq<TransactionView>, n: nat) -> Option<Seq<u8>>
    decreases n,
{
    if n == 0 {
        None
    } else {
        match txs[n - 1].data {
            Some(DataView::TxDelegate { representative }) => Some(representative),
            _ => last_delegation(txs, (n - 1) as nat),
        }
    }
}

/// The accounts-tree writes of transactions all name the delegation key, and
/// leave it at the last delegation's representative.
proof fn lemma_account_writes(m: Map<Seq<u8>, Seq<u8>>, account: AccountId, txs: Seq<TransactionView>, n: nat)
    requires
        n <= txs.len(),
    ensures
        forall|i: int|
            0 <= i < account_writes(account, txs, n).len() ==> (#[trigger] account_writes(account, txs, n)[i]).0
                == delegate_write_key_spec(account),
        stored_at(apply_writes(m, account_writes(account, txs, n)), delegate_write_key_spec(account))
            == match last_delegation(txs, n) {
            Some(r) => Some(r),
            None => stored_at(m, delegate_write_key_spec(account)),
        },
    decreases n,
{
    if n > 0 {
        lemma_account_writes(m, account, txs, (n - 1) as nat);
        let before = account_writes(account, txs, (n - 1) as nat);
        let last = tx_account_writes(account, txs[n - 1]);
        lemma_apply_concat(m, before, last);
        assert forall|i: int| 0 <= i < (before + last).len() implies (#[trigger] (before + last)[i]).0
            == delegate_write_key_spec(account) by {
            if i >= before.len() {
                assert((before + last)[i] == last[i - before.len()]);
            } else {
                assert((before + last)[i] == before[i]);
            }
        }
        if last.len() == 1 {
            assert(last.drop_last() =~= Seq::<(Seq<u8>, Seq<u8>)>::empty());
        } else {
            assert(last =~= Seq::<(Seq<u8>, Seq<u8>)>::empty());
        }
    }
}

/// Storing the first `n` transactions, with distinct ids, leaves each under
/// its id, its block's id under the transaction's id, and each under the
/// block and its position.
proof fn lemma_store_read_back(
    m: Map<Seq<u8>, Seq<u8>>,
    block: BlockId,
    ids: Seq<TransactionId>,
    encoded: Seq<Seq<u8>>,
    n: nat,
    i: int,
)
    requires
        0 <= i < n,
        n <= ids.len(),
        n <= encoded.len(),
        n < u64::MAX,
        forall|j: int, k: int| 0 <= j < k < n ==> ids[j] != ids[k],
    ensures
        stored_at(apply_writes(m, store_writes(block, ids, encoded, n)), transaction_key_spec(ids[i])) == Some(
            encoded[i],
        ),
        stored_at(apply_writes(m, store_writes(block, ids, encoded, n)), transaction_block_key_spec(ids[i]))
            == Some(block@),
        stored_at(apply_writes(m, store_writes(block, ids, encoded, n)), block_transaction_key_spec(block, i as u64))
            == Some(encoded[i]),
    decreases n,
{
    let before = store_writes(block, ids, encoded, (n - 1) as nat);
    let three = tx_store_writes(block, (n - 1) as u64, ids[n - 1], encoded[n - 1]);
    lemma_apply_concat(m, before, three);
    let prev = apply_writes(m, before);
    let t = ids[n - 1];
    if i < n - 1 {
        lemma_store_read_back(m, block, ids, encoded, (n - 1) as nat, i);
        let u = ids[i];
        law_transaction_keys_distinct(u, t, block, i as u64, block, (n - 1) as u64);
        law_transaction_keys_distinct(t, u, block, (n - 1) as u64, block, i as u64);
        law_transaction_keys_distinct(u, t, block, (n - 1) as u64, block, i as u64);
        assert(u != t);
        assert(three[0].0 == transaction_key_spec(t));
        assert(three[1].0 == transaction_block_key_spec(t));
        assert(three[2].0 == block_transaction_key_spec(block, (n - 1) as u64));
        assert(transaction_key_spec(u) != transaction_key_spec(t));
        assert(transaction_block_key_spec(u) != transaction_block_key_spec(t));
        lemma_apply_untouched(prev, three, transaction_key_spec(u));
        lemma_apply_untouched(prev, three, transaction_block_key_spec(u));
        lemma_apply_untouched(prev, three, block_transaction_key_spec(block, i as u64));
    } else {
        law_transaction_keys_distinct(t, t, block, i as u64, block, i as u64);
        lemma_apply_last(prev, three, 0);
        lemma_apply_last(prev, three, 1);
        lemma_apply_last(prev, three, 2);
    }
}

/// `tx` claims the send transaction `send`.
pub open spec fn claims_send(tx: TransactionView, send: Seq<u8>) -> bool {
    tx.data matches Some(DataView::TxCollect { transaction_id }) && transaction_id == send
}

/// Storing the first `n` transactions leaves, under a claimed send
/// transaction, the id of the last of them that claims it.
proof fn lemma_claims_read_back(
    m: Map<Seq<u8>, Seq<u8>>,
    txs: Seq<TransactionView>,
    ids: Seq<TransactionId>,
    n: nat,
    i: int,
    send: Seq<u8>,
)
    requires
        0 <= i < n,
        n <= txs.len(),
        n <= ids.len(),
        claims_send(txs[i], send),
        forall|j: int| i < j < n ==> !claims_send(#[trigger] txs[j], send),
    ensures
        stored_at(apply_writes(m, claim_writes(txs, ids, n)), send) == Some(ids[i]@),
    decreases n,
{
    let before = claim_writes(txs, ids, (n - 1) as nat);
    let last = tx_claim_writes(txs[n - 1], ids[n - 1]);
    lemma_apply_concat(m, before, last);
    if i < n - 1 {
        lemma_claims_read_back(m, txs, ids, (n - 1) as nat, i, send);
        assert(!claims_send(txs[n - 1], send));
        lemma_apply_untouched(apply_writes(m, before), last, send);
    } else {
        lemma_apply_last(apply_writes(m, before), last, 0);
    }
}

/// The store `v` once the block `block` of `account` at `height`, encoded as
/// `encoded_block`, with transactions `txs` of ids `ids` encoded as
/// `encoded_txs`, is stored.
pub open spec fn after_storing(
    v: SledView,
    block: BlockId,
    account: AccountId,
    height: u64,
    encoded_block: Seq<u8>,
    txs: Seq<TransactionView>,
    ids: Seq<TransactionId>,
    encoded_txs: Seq<Seq<u8>>,
) -> SledView {
    apply_plan(v, block_plan(block, account, height, encoded_block, txs, ids, encoded_txs))
}

/// Reading back a stored block gives what was written, whatever the store
/// held before: the block by its id and by its account and height, the
/// account's latest block, and the representative of the block's last
/// delegation (an account that does not delegate in the block keeps its
/// representative).
pub proof fn law_read_after_add_block(
    v: SledView,
    block: BlockId,
    account: AccountId,
    height: u64,
    encoded_block: Seq<u8>,
    txs: Seq<TransactionView>,
    ids: Seq<TransactionId>,
    encoded_txs: Seq<Seq<u8>>,
)
    ensures
        required_lookup(
            Ok(stored_at(after_storing(v, block, account, height, encoded_block, txs, ids, encoded_txs).blocks, block_key_spec(block))),
        ) == Ok::<Seq<u8>, DatabaseErrorView>(encoded_block),
        by_height_lookup(
            Ok(
                stored_at(
                    after_storing(v, block, account, height, encoded_block, txs, ids, encoded_txs).blocks,
                    block_by_account_key_spec(account, height),
                ),
            ),
            Ok(stored_at(after_storing(v, block, account, height, encoded_block, txs, ids, encoded_txs).blocks, by_id_prefix() + block@)),
        ) == Ok::<Option<Seq<u8>>, DatabaseErrorView>(Some(encoded_block)),
        latest_id_lookup(
            Ok(
                stored_at(
                    after_storing(v, block, account, height, encoded_block, txs, ids, encoded_txs).accounts,
                    last_block_key_spec(account),
                ),
            ),
        ) == Ok::<BlockId, DatabaseErrorView>(block),
        stored_at(
            after_storing(v, block, account, height, encoded_block, txs, ids, encoded_txs).accounts,
            delegate_write_key_spec(account),
        ) == match last_delegation(txs, txs.len()) {
            Some(r) => Some(r),
            None => stored_at(v.accounts, delegate_write_key_spec(account)),
        },
{
    let plan = block_plan(block, account, height, encoded_block, txs, ids, encoded_txs);
    let bk = block_key_spec(block);
    let hk = block_by_account_key_spec(account, height);
    law_block_keys_distinct(block, block, account, height, account, height);
    lemma_apply_last(v.blocks, plan.blocks, 0);
    lemma_apply_last(v.blocks, plan.blocks, 1);
    assert(by_id_prefix() + block@ == bk);
    let lk = last_block_key_spec(account);
    let dk = delegate_write_key_spec(account);
    let first = seq![(lk, block@)];
    let aw = account_writes(account, txs, txs.len());
    assert(plan.accounts == first + aw);
    lemma_apply_concat(v.accounts, first, aw);
    assert(first.drop_last() =~= Seq::<(Seq<u8>, Seq<u8>)>::empty());
    let after_first = apply_writes(v.accounts, first);
    assert(after_first == apply_writes(v.accounts, first.drop_last()).insert(lk, block@));
    assert(apply_writes(v.accounts, first.drop_last()) == v.accounts);
    lemma_account_writes(after_first, account, txs, txs.len());
    law_account_keys_distinct(account, account);
    lemma_apply_untouched(after_first, aw, lk);
    assert(stored_at(after_first, lk) == Some(block@));
    assert(lk != dk);
    assert(stored_at(after_first, dk) == stored_at(v.accounts, dk));
    lemma_id_of_bytes::<32>(block);
}

/// Reading back the transactions of a stored block, whose ids are distinct,
/// gives what was written: each transaction under its id and under its
/// block and position, and its block's id under its id.
pub proof fn law_transactions_read_after_add_block(
    v: SledView,
    block: BlockId,
    account: AccountId,
    height: u64,
    encoded_block: Seq<u8>,
    txs: Seq<TransactionView>,
    ids: Seq<TransactionId>,
    encoded_txs: Seq<Seq<u8>>,
    i: int,
)
    requires
        ids.len() == txs.len(),
        encoded_txs.len() == txs.len(),
        txs.len() < u64::MAX,
        0 <= i < txs.len(),
        forall|j: int, k: int| 0 <= j < k < ids.len() ==> ids[j] != ids[k],
    ensures
        required_lookup(
            Ok(
                stored_at(
                    after_storing(v, block, account, height, encoded_block, txs, ids, encoded_txs).transactions,
                    transaction_key_spec(ids[i]),
                ),
            ),
        ) == Ok::<Seq<u8>, DatabaseErrorView>(encoded_txs[i]),
        stored_at(
            after_storing(v, block, account, height, encoded_block, txs, ids, encoded_txs).transactions,
            transaction_block_key_spec(ids[i]),
        ) == Some(block@),
        stored_at(
            after_storing(v, block, account, height, encoded_block, txs, ids, encoded_txs).transactions,
            block_transaction_key_spec(block, i as u64),
        ) == Some(encoded_txs[i]),
{
    lemma_store_read_back(v.transactions, block, ids, encoded_txs, txs.len(), i);
}

/// Reading back a claim of a stored block gives the claiming transaction:
/// under a send transaction that the block claims, the id of the block's
/// last transaction that claims it.
pub proof fn law_claim_read_after_add_block(
    v: SledView,
    block: BlockId,
    account: AccountId,
    height: u64,
    encoded_block: Seq<u8>,
    txs: Seq<TransactionView>,
    ids: Seq<TransactionId>,
    encoded_txs: Seq<Seq<u8>>,
    i: int,
    send: Seq<u8>,
)
    requires
        ids.len() == txs.len(),
        0 <= i < txs.len(),
        claims_send(txs[i], send),
        forall|j: int| i < j < txs.len() ==> !claims_send(#[trigger] txs[j], send),
    ensures
        stored_at(after_storing(v, block, account, height, encoded_block, txs, ids, encoded_txs).claims, send)
            == Some(ids[i]@),
{
    lemma_claims_read_back(v.claims, txs, ids, txs.len(), i, send);
}

/// A store that holds nothing finds nothing: no block by id (`BlockNotFound`),
/// no latest block of an account (`BlockNotFound`), and no block at a height
/// (`None`).
pub proof fn law_empty_store_finds_nothing(block_key: Seq<u8>, pointer_key: Seq<u8>, height_key: Seq<u8>)
    ensures
        required_lookup(Ok(stored_at(empty_store().blocks, block_key))) == Err::<Seq<u8>, DatabaseErrorView>(
            DatabaseErrorView::BlockNotFound,
        ),
        latest_id_lookup(Ok(stored_at(empty_store().accounts, pointer_key))) == Err::<BlockId, DatabaseErrorView>(
            DatabaseErrorView::BlockNotFound,
        ),
        by_height_lookup(Ok(stored_at(empty_store().blocks, height_key)), Ok(None)) == Ok::<
            Option<Seq<u8>>,
            DatabaseErrorView,
        >(None),
{
}

} // verus!
