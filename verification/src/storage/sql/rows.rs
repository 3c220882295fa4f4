//! The rows the SQL block store writes for a new block: the block row, an
//! account row for an account seen for the first time, one row per
//! transaction with its kind, one claim row per claim, the account's new
//! latest block, and its new delegate if the block delegates.
//!
//! Running the inserts inside a database transaction happens outside; what
//! is here decides what is written, or why nothing is.
use crate::api::{id_to_vec, AccountId, BlockId, Data, DataView, SignedBlock, TransactionId, TransactionView, transactions_view};
use crate::storage::sql::entities::block::BlockVersion;
use crate::storage::sql::entities::transaction::{tx_type_of, TxType};
use vstd::prelude::*;

verus! {

/// A row of the `blocks` table.
#[derive(Debug, PartialEq)]
pub struct BlockRow {
    pub block_id: Vec<u8>,
    pub height: u64,
    pub account_id_v1: Vec<u8>,
    pub public_key: Vec<u8>,
    pub signature: Vec<u8>,
    pub version: BlockVersion,
    pub timestamp: u64,
    pub balance: u64,
    pub data: Vec<u8>,
}

/// A row of the `accounts` table.
#[derive(Debug, PartialEq)]
pub struct AccountRow {
    pub public_key: Vec<u8>,
    pub account_id_v1: Vec<u8>,
    pub latest_block: Vec<u8>,
    pub delegate: Option<Vec<u8>>,
}

/// A row of the transactions table.
#[derive(Debug, PartialEq)]
pub struct TransactionRow {
    pub transaction_id: Vec<u8>,
    pub block_id: Vec<u8>,
    pub tx_type: TxType,
    pub data: Vec<u8>,
}

/// A row of the `tx_claim` table: the send transaction a claim collects,
/// and the claiming transaction.
#[derive(Debug, PartialEq)]
pub struct ClaimRow {
    pub send_tx_id: Vec<u8>,
    pub claim_tx_id: Vec<u8>,
}

/// Everything written for a block.
#[derive(Debug, PartialEq)]
pub struct BlockRows {
    pub block: BlockRow,
    /// the row of the signing account, when it is not stored yet
    pub new_account: Option<AccountRow>,
    pub transactions: Vec<TransactionRow>,
    /// one row per claim of the block, in the order of its transactions
    pub claims: Vec<ClaimRow>,
    /// what the account's latest block becomes, whether it is new or stored:
    /// this block
    pub latest_block: Vec<u8>,
    /// the representative of the block's last delegation, if it delegates
    pub new_delegate: Option<Vec<u8>>,
}

/// Why nothing is written.
#[derive(Debug, Clone, Copy, PartialEq, Eq)]
pub enum SqlRowError {
    /// "account ID could not be generated"
    AccountIdFailed,
    /// a transaction has no data, or its id could not be computed
    InvalidTransactionData,
}

/// A transaction row, as values: id, block id, kind, encoding.
pub type TransactionRowView = (Seq<u8>, Seq<u8>, TxType, Seq<u8>);

/// The values of transaction rows.
pub open spec fn tx_rows_view(s: Seq<TransactionRow>) -> Seq<TransactionRowView> {
    s.map_values(|r: TransactionRow| (r.transaction_id@, r.block_id@, r.tx_type, r.data@))
}

/// A claim row, as values: the claimed send and the claiming transaction.
pub type ClaimRowView = (Seq<u8>, Seq<u8>);

/// The values of claim rows.
pub open spec fn claim_rows_view(s: Seq<ClaimRow>) -> Seq<ClaimRowView> {
    s.map_values(|r: ClaimRow| (r.send_tx_id@, r.claim_tx_id@))
}

/// The send transaction a transaction claims, if it is a claim.
pub open spec fn claimed_send(tx: TransactionView) -> Option<Seq<u8>> {
    match tx.data {
        Some(DataView::TxCollect { transaction_id }) => Some(transaction_id),
        _ => None,
    }
}

/// The representative a transaction delegates to, if it is a delegation.
pub open spec fn delegation_of(tx: TransactionView) -> Option<Seq<u8>> {
    match tx.data {
        Some(DataView::TxDelegate { representative }) => Some(representative),
        _ => None,
    }
}

/// The transaction rows of the first `n` transactions, the representative
/// of the last delegation among them, and their claim rows; `Err` when one
/// of them has no data or no id.
pub open spec fn tx_rows_spec(
    block: BlockId,
    txs: Seq<TransactionView>,
    ids: Seq<Option<TransactionId>>,
    encoded: Seq<Seq<u8>>,
    n: nat,
) -> Result<(Seq<TransactionRowView>, Option<Seq<u8>>, Seq<ClaimRowView>), SqlRowError>
    decreases n,
{
    if n == 0 {
        Ok((Seq::empty(), None, Seq::empty()))
    } else {
        match tx_rows_spec(block, txs, ids, encoded, (n - 1) as nat) {
            Err(e) => Err(e),
            Ok((rows, delegate, claims)) => {
                let tx = txs[n - 1];
                match (tx.data, ids[n - 1]) {
                    (Some(d), Some(id)) => Ok(
                        (
                            rows.push((id@, block@, tx_type_of(d), encoded[n - 1])),
                            match delegation_of(tx) {
                                Some(rep) => Some(rep),
                                None => delegate,
                            },
                            match claimed_send(tx) {
                                Some(send) => claims.push((send, id@)),
                                None => claims,
                            },
                        ),
                    ),
                    _ => Err(SqlRowError::InvalidTransactionData),
                }
            },
        }
    }
}

/// Copies a byte vector.
fn copy(v: &Vec<u8>) -> (r: Vec<u8>)
    ensures
        r@ == v@,
{
    let mut r: Vec<u8> = Vec::new();
    let mut i: usize = 0;
    while i < v.len()
        invariant
            i <= v@.len(),
            r@ == v@.subrange(0, i as int),
        decreases v@.len() - i,
    {
        r.push(v[i]);
        i = i + 1;
        assert(r@ =~= v@.subrange(0, i as int));
    }
    assert(v@.subrange(0, v@.len() as int) =~= v@);
    r
}

/// The encodings of a list of byte vectors.
pub open spec fn encoded_view(s: Seq<Vec<u8>>) -> Seq<Seq<u8>> {
    s.map_values(|v: Vec<u8>| v@)
}

/// The rows that store `block` with id `block_id`, given the address of the
/// account that signed it (`None` when it could not be computed), the raw
/// encoding of its data, each transaction's id and encoding, and whether the
/// account is stored already. The account, new or stored, points at this
/// block as its latest; a stored one keeps its delegate unless the block
/// delegates.
#[verifier::loop_isolation(false)]
pub fn block_rows(
    block: &SignedBlock,
    block_id: &BlockId,
    account_id: Option<AccountId>,
    data_raw: &Vec<u8>,
    transaction_ids: &Vec<Option<TransactionId>>,
    encoded_transactions: &Vec<Vec<u8>>,
    account_exists: bool,
) -> (r: Result<BlockRows, SqlRowError>)
    requires
        block@.data is Some,
        transaction_ids@.len() == block@.data->0.transactions.len(),
        encoded_transactions@.len() == block@.data->0.transactions.len(),
    ensures
        account_id is None ==> r == Err::<BlockRows, SqlRowError>(SqlRowError::AccountIdFailed),
        account_id matches Some(acc) ==> {
            let d = block@.data->0;
            match tx_rows_spec(*block_id, d.transactions, transaction_ids@, encoded_view(encoded_transactions@), d.transactions.len()) {
                Err(e) => r == Err::<BlockRows, SqlRowError>(e),
                Ok((rows, delegate, claims)) => r matches Ok(out) && {
                    &&& out.block.block_id@ == block_id@
                    &&& out.block.height == d.height
                    &&& out.block.account_id_v1@ == acc@
                    &&& out.block.public_key@ == block@.public_key
                    &&& out.block.signature@ == block@.signature
                    &&& out.block.version == BlockVersion::V1
                    &&& out.block.timestamp == block@.timestamp
                    &&& out.block.balance == d.balance
                    &&& out.block.data@ == data_raw@
                    &&& (account_exists <==> out.new_account is None)
                    &&& (out.new_account matches Some(a) ==> a.public_key@ == block@.public_key
                        && a.account_id_v1@ == acc@ && a.latest_block@ == block_id@ && a.delegate is None)
                    &&& tx_rows_view(out.transactions@) == rows
                    &&& claim_rows_view(out.claims@) == claims
                    &&& out.latest_block@ == block_id@
                    &&& match out.new_delegate {
                        Some(v) => delegate == Some(v@),
                        None => delegate is None,
                    }
                },
            }
        },
{
    let acc = match account_id {
        Some(a) => a,
        None => return Err(SqlRowError::AccountIdFailed),
    };
    let data = match &block.data {
        Some(d) => d,
        None => {
            assert(false);
            return Err(SqlRowError::InvalidTransactionData);
        },
    };
    let ghost txs = transactions_view(data.transactions@);
    let ghost encs = encoded_view(encoded_transactions@);
    let mut rows: Vec<TransactionRow> = Vec::new();
    let mut delegate: Option<Vec<u8>> = None;
    let mut claims: Vec<ClaimRow> = Vec::new();
    let mut i: usize = 0;
    while i < data.transactions.len()
        invariant
            i <= data.transactions@.len(),
            txs == transactions_view(data.transactions@),
            encs == encoded_view(encoded_transactions@),
            transaction_ids@.len() == data.transactions@.len(),
            encoded_transactions@.len() == data.transactions@.len(),
            tx_rows_spec(*block_id, txs, transaction_ids@, encs, i as nat) matches Ok((rs, dl, cl)) && tx_rows_view(rows@)
                == rs && claim_rows_view(claims@) == cl && match delegate {
                Some(v) => dl == Some(v@),
                None => dl is None,
            },
        decreases data.transactions@.len() - i,
    {
        let tx = &data.transactions[i];
        assert(txs[i as int] == tx@);
        let ghost prev = tx_rows_spec(*block_id, txs, transaction_ids@, encs, i as nat);
        let tx_data = match &tx.data {
            Some(d) => d,
            None => {
                assert(tx_rows_spec(*block_id, txs, transaction_ids@, encs, (i + 1) as nat) is Err);
                proof {
                    lemma_tx_rows_stop(*block_id, txs, transaction_ids@, encs, (i + 1) as nat, txs.len());
                }
                return Err(SqlRowError::InvalidTransactionData);
            },
        };
        let tx_id = match transaction_ids[i] {
            Some(id) => id,
            None => {
                assert(tx_rows_spec(*block_id, txs, transaction_ids@, encs, (i + 1) as nat) is Err);
                proof {
                    lemma_tx_rows_stop(*block_id, txs, transaction_ids@, encs, (i + 1) as nat, txs.len());
                }
                return Err(SqlRowError::InvalidTransactionData);
            },
        };
        let tx_type = TxType::of_data(tx_data);
        let ghost old_claims = claims@;
        match tx_data {
            Data::TxDelegate(d) => {
                delegate = Some(copy(&d.representative));
            },
            Data::TxCollect(c) => {
                claims.push(ClaimRow { send_tx_id: copy(&c.transaction_id), claim_tx_id: id_to_vec(&tx_id) });
            },
            _ => {},
        }
        proof {
            assert(claim_rows_view(claims@) =~= match claimed_send(tx@) {
                Some(send) => claim_rows_view(old_claims).push((send, tx_id@)),
                None => claim_rows_view(old_claims),
            });
        }
        let enc = &encoded_transactions[i];
        assert(encs[i as int] == enc@);
        let ghost old_rows = rows@;
        rows.push(TransactionRow { transaction_id: id_to_vec(&tx_id), block_id: id_to_vec(block_id), tx_type, data: copy(enc) });
        proof {
            assert(tx_rows_view(rows@) =~= tx_rows_view(old_rows).push((tx_id@, block_id@, tx_type, enc@)));
        }
        i = i + 1;
    }
    let block_row = BlockRow {
        block_id: id_to_vec(block_id),
        height: data.height,
        account_id_v1: id_to_vec(&acc),
        public_key: copy(&block.public_key),
        signature: copy(&block.signature),
        version: BlockVersion::V1,
        timestamp: block.timestamp,
        balance: data.balance,
        data: copy(data_raw),
    };
    let new_account = if account_exists {
        None
    } else {
        Some(AccountRow {
            public_key: copy(&block.public_key),
            account_id_v1: id_to_vec(&acc),
            latest_block: id_to_vec(block_id),
            delegate: None,
        })
    };
    Ok(BlockRows {
        block: block_row,
        new_account,
        transactions: rows,
        claims,
        latest_block: id_to_vec(block_id),
        new_delegate: delegate,
    })
}

/// Once a transaction has failed, more transactions give the same failure.
proof fn lemma_tx_rows_stop(
    block: BlockId,
    txs: Seq<TransactionView>,
    ids: Seq<Option<TransactionId>>,
    encoded: Seq<Seq<u8>>,
    n: nat,
    m: nat,
)
    requires
        n <= m,
        tx_rows_spec(block, txs, ids, encoded, n) is Err,
    ensures
        tx_rows_spec(block, txs, ids, encoded, m) == tx_rows_spec(block, txs, ids, encoded, n),
    decreases m - n,
{
    if n < m {
        lemma_tx_rows_stop(block, txs, ids, encoded, n, (m - 1) as nat);
    }
}

} // verus!
