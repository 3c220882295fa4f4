//! The rules a block has to pass before it is accepted: it has content, it
//! is new, its signature verifies, it extends the account's latest block,
//! its transactions are distinct and valid, and the balance it states is the
//! previous balance changed by its transactions.
use crate::api::{
    contains_id, id_equal, id_from_bytes, id_matches_bytes, id_of_bytes, AccountId, BlockFacts, BlockId, Data, DataView,
    SignedBlock, SignedBlockView, TransactionId, TransactionView, TxClaim, TxSend, facts_cover,
};
use crate::storage::database::{Database, DatabaseError, DatabaseErrorView};
use vstd::prelude::*;

verus! {

broadcast use vstd::string::group_string_axioms;

/// Why a block is not valid.
#[derive(Debug)]
pub enum Validation {
    TxValidationError(String),
    BlockHeightError,
    PreviousBlockError,
    TransactionDataNotFound,
    SendTxNotFound,
    MissmatchedTx,
    DuplicatedTx,
    TooManyTransactions,
    ReceiverAccountError,
    BlockDuplicate,
}

/// What kept the node from deciding whether a block is valid.
#[derive(Debug)]
pub enum Node {
    BlockDataNotFound,
    BlockNotFound,
    TxNotFound,
    CryptoError,
    AccountError,
    DBError(DatabaseError),
    AsyncError,
    BlockIdError,
}

/// The outcome of a failed validation: the block is invalid, or the node
/// could not tell.
#[derive(Debug)]
pub enum BlockValidationError {
    Invalid(Validation),
    Error(Node),
}

/// `Validation`, as a value.
pub enum ValidationView {
    TxValidationError(Seq<char>),
    BlockHeightError,
    PreviousBlockError,
    TransactionDataNotFound,
    SendTxNotFound,
    MissmatchedTx,
    DuplicatedTx,
    TooManyTransactions,
    ReceiverAccountError,
    BlockDuplicate,
}

/// `Node`, as a value.
pub enum NodeView {
    BlockDataNotFound,
    BlockNotFound,
    TxNotFound,
    CryptoError,
    AccountError,
    DBError(DatabaseErrorView),
    AsyncError,
    BlockIdError,
}

/// `BlockValidationError`, as a value.
pub enum ErrorView {
    Invalid(ValidationView),
    Error(NodeView),
}

impl View for Validation {
    type V = ValidationView;

    open spec fn view(&self) -> ValidationView {
        match self {
            Validation::TxValidationError(s) => ValidationView::TxValidationError(s@),
            Validation::BlockHeightError => ValidationView::BlockHeightError,
            Validation::PreviousBlockError => ValidationView::PreviousBlockError,
            Validation::TransactionDataNotFound => ValidationView::TransactionDataNotFound,
            Validation::SendTxNotFound => ValidationView::SendTxNotFound,
            Validation::MissmatchedTx => ValidationView::MissmatchedTx,
            Validation::DuplicatedTx => ValidationView::DuplicatedTx,
            Validation::TooManyTransactions => ValidationView::TooManyTransactions,
            Validation::ReceiverAccountError => ValidationView::ReceiverAccountError,
            Validation::BlockDuplicate => ValidationView::BlockDuplicate,
        }
    }
}

impl View for Node {
    type V = NodeView;

    open spec fn view(&self) -> NodeView {
        match self {
            Node::BlockDataNotFound => NodeView::BlockDataNotFound,
            Node::BlockNotFound => NodeView::BlockNotFound,
            Node::TxNotFound => NodeView::TxNotFound,
            Node::CryptoError => NodeView::CryptoError,
            Node::AccountError => NodeView::AccountError,
            Node::DBError(e) => NodeView::DBError(e@),
            Node::AsyncError => NodeView::AsyncError,
            Node::BlockIdError => NodeView::BlockIdError,
        }
    }
}

impl View for BlockValidationError {
    type V = ErrorView;

    open spec fn view(&self) -> ErrorView {
        match self {
            BlockValidationError::Invalid(v) => ErrorView::Invalid(v@),
            BlockValidationError::Error(n) => ErrorView::Error(n@),
        }
    }
}

/// A validation result, with its error as a value.
pub open spec fn outcome<T>(r: Result<T, BlockValidationError>) -> Result<T, ErrorView> {
    match r {
        Ok(v) => Ok(v),
        Err(e) => Err(e@),
    }
}

/// The block is invalid for this reason.
pub open spec fn invalid<T>(v: ValidationView) -> Result<T, ErrorView> {
    Err(ErrorView::Invalid(v))
}

/// The node could not decide, for this reason.
pub open spec fn node_error<T>(n: NodeView) -> Result<T, ErrorView> {
    Err(ErrorView::Error(n))
}

fn invalid_block(v: Validation) -> (r: BlockValidationError)
    ensures
        r@ == ErrorView::Invalid(v@),
{
    BlockValidationError::Invalid(v)
}

fn node_failure(n: Node) -> (r: BlockValidationError)
    ensures
        r@ == ErrorView::Error(n@),
{
    BlockValidationError::Error(n)
}

/// The most transactions a block may hold.
pub const MAX_TRANSACTIONS: usize = 255;

// ----- the rules, as functions of their inputs -----

/// Checks a block that would be the first of its account.
pub open spec fn spec_verify_account_genesis_block(block: SignedBlockView) -> Result<(), ErrorView> {
    match block.data {
        None => node_error(NodeView::BlockDataNotFound),
        Some(d) => if d.height != 0 {
            invalid(ValidationView::BlockHeightError)
        } else {
            Ok(())
        },
    }
}

/// Checks that a block directly follows `prev_block`, whose id is `prev_id`.
pub open spec fn spec_verify_previous_block(
    new_block: SignedBlockView,
    prev_block: SignedBlockView,
    prev_id: Option<BlockId>,
) -> Result<(), ErrorView> {
    match (new_block.data, prev_block.data) {
        (None, _) => node_error(NodeView::BlockDataNotFound),
        (_, None) => node_error(NodeView::BlockDataNotFound),
        (Some(n), Some(p)) => if n.height - 1 != p.height {
            invalid(ValidationView::BlockHeightError)
        } else {
            match prev_id {
                None => node_error(NodeView::BlockNotFound),
                Some(id) => if n.previous != id@ {
                    invalid(ValidationView::PreviousBlockError)
                } else {
                    Ok(())
                },
            }
        },
    }
}

/// The balance change of a send transaction made by `account_id`.
pub open spec fn spec_validate_send(
    amount: u64,
    receiver: Seq<u8>,
    account_id: Option<AccountId>,
    receiver_valid: bool,
) -> Result<i128, ErrorView> {
    match account_id {
        None => node_error(NodeView::AccountError),
        Some(acc) => if receiver == acc@ {
            invalid(ValidationView::ReceiverAccountError)
        } else if !receiver_valid {
            invalid(ValidationView::ReceiverAccountError)
        } else {
            Ok(-(amount as int) as i128)
        },
    }
}

/// The balance change of collecting the send transaction `send_tx_id` into
/// the account `account_id`, as the store `db` decides it.
pub open spec fn spec_validate_collect<D: Database>(
    db: &D,
    send_tx_id: Seq<u8>,
    account_id: Option<AccountId>,
) -> Result<i128, ErrorView> {
    if send_tx_id.len() != 32 {
        node_error(NodeView::TxNotFound)
    } else {
        let send_id = id_of_bytes::<32>(send_tx_id);
        match db.send_recipient(send_id) {
            Err(e) => node_error(NodeView::DBError(e)),
            Ok(Some(_)) => invalid(ValidationView::TxValidationError("validate collect 1"@)),
            Ok(None) => match db.transaction_by_id(send_id) {
                Err(_) => invalid(ValidationView::TxValidationError("validate collect 2"@)),
                Ok(tx) => match tx.data {
                    None => invalid(ValidationView::SendTxNotFound),
                    Some(DataView::TxSend { receiver, amount, .. }) => match account_id {
                        None => node_error(NodeView::AccountError),
                        Some(acc) => if acc@ != receiver {
                            invalid(ValidationView::TxValidationError("validate collect 3"@))
                        } else {
                            Ok(amount as i128)
                        },
                    },
                    Some(_) => invalid(ValidationView::MissmatchedTx),
                },
            },
        }
    }
}

/// The amount the transaction at `i` of `block` adds to the balance; a
/// transaction that is neither a send nor a collect adds `balance`, the
/// balance of the previous block.
pub open spec fn spec_tx_verification<D: Database>(
    db: &D,
    block: SignedBlockView,
    facts: &BlockFacts,
    i: int,
    balance: i128,
) -> Result<i128, ErrorView> {
    let tx = block.data.unwrap().transactions[i];
    match tx.data {
        None => invalid(ValidationView::TransactionDataNotFound),
        Some(DataView::TxSend { receiver, amount, .. }) => spec_validate_send(
            amount,
            receiver,
            facts.account_id,
            facts.receivers_valid@[i],
        ),
        Some(DataView::TxCollect { transaction_id }) => spec_validate_collect(
            db,
            transaction_id,
            facts.account_id,
        ),
        Some(_) => Ok(balance),
    }
}

/// Checks the ids of the first `n` transactions: each can be computed and
/// none occurs twice.
pub open spec fn spec_transaction_ids(
    block_id: Option<BlockId>,
    ids: Seq<Option<TransactionId>>,
    n: nat,
) -> Result<(), ErrorView>
    decreases n,
{
    if n == 0 {
        Ok(())
    } else {
        match spec_transaction_ids(block_id, ids, (n - 1) as nat) {
            Err(e) => Err(e),
            Ok(()) => if block_id is None {
                node_error(NodeView::BlockNotFound)
            } else {
                match ids[n - 1] {
                    None => node_error(NodeView::TxNotFound),
                    Some(t) => if exists|k: int| 0 <= k < n - 1 && ids[k] == Some(t) {
                        invalid(ValidationView::DuplicatedTx)
                    } else {
                        Ok(())
                    },
                }
            },
        }
    }
}

/// `balance` changed by the first `n` transactions of `block`, stopping at
/// the first that fails.
pub open spec fn spec_balance_after<D: Database>(
    db: &D,
    block: SignedBlockView,
    facts: &BlockFacts,
    balance: i128,
    n: nat,
) -> Result<int, ErrorView>
    decreases n,
{
    if n == 0 {
        Ok(balance as int)
    } else {
        match spec_balance_after(db, block, facts, balance, (n - 1) as nat) {
            Err(e) => Err(e),
            Ok(s) => match spec_tx_verification(db, block, facts, n - 1, balance) {
                Err(e) => Err(e),
                Ok(v) => Ok(s + v),
            },
        }
    }
}

/// Checks the transactions of `new_block` against the balance of
/// `prev_block`.
pub open spec fn spec_verify_transactions<D: Database>(
    db: &D,
    new_block: SignedBlockView,
    prev_block: SignedBlockView,
    facts: &BlockFacts,
) -> Result<(), ErrorView> {
    match (new_block.data, prev_block.data) {
        (None, _) => node_error(NodeView::BlockDataNotFound),
        (_, None) => node_error(NodeView::BlockDataNotFound),
        (Some(n), Some(p)) => if n.transactions.len() > MAX_TRANSACTIONS {
            invalid(ValidationView::TooManyTransactions)
        } else {
            match spec_transaction_ids(facts.block_id, facts.transaction_ids@, n.transactions.len()) {
                Err(e) => Err(e),
                Ok(()) => match spec_balance_after(
                    db,
                    new_block,
                    facts,
                    p.balance as i128,
                    n.transactions.len(),
                ) {
                    Err(e) => Err(e),
                    Ok(total) => if total == n.balance && total >= 0 {
                        Ok(())
                    } else {
                        invalid(ValidationView::TxValidationError("verify transactions"@))
                    },
                },
            }
        },
    }
}

// ----- the rules -----

/// Checks a block that would be the first of its account: it must be at
/// height 0.
pub fn verify_account_genesis_block(block: &SignedBlock) -> (r: Result<(), BlockValidationError>)
    ensures
        outcome(r) == spec_verify_account_genesis_block(block@),
{
    let data = match &block.data {
        Some(d) => d,
        None => return Err(node_failure(Node::BlockDataNotFound)),
    };
    if data.height != 0 {
        return Err(invalid_block(Validation::BlockHeightError));
    }
    Ok(())
}

/// Checks that `new_block` directly follows `prev_block`: its height is one
/// more and it names `prev_block`'s id (`prev_id`, `None` when the id could
/// not be computed) as its previous block.
pub fn verify_previous_block(
    new_block: &SignedBlock,
    prev_block: &SignedBlock,
    prev_id: Option<BlockId>,
) -> (r: Result<(), BlockValidationError>)
    requires
        new_block@.data is Some && prev_block@.data is Some ==> new_block@.data.unwrap().height > 0,
    ensures
        outcome(r) == spec_verify_previous_block(new_block@, prev_block@, prev_id),
{
    let new_data = match &new_block.data {
        Some(d) => d,
        None => return Err(node_failure(Node::BlockDataNotFound)),
    };
    let prev_data = match &prev_block.data {
        Some(d) => d,
        None => return Err(node_failure(Node::BlockDataNotFound)),
    };
    if new_data.height - 1 != prev_data.height {
        return Err(invalid_block(Validation::BlockHeightError));
    }
    let id = match prev_id {
        Some(id) => id,
        None => return Err(node_failure(Node::BlockNotFound)),
    };
    if !id_matches_bytes(&id, &new_data.previous) {
        return Err(invalid_block(Validation::PreviousBlockError));
    }
    Ok(())
}

/// The balance change of sending `amount` to `tx.receiver` from the account
/// `account_id` (`None` when the account's address could not be computed);
/// `receiver_valid` tells whether the receiver is a valid account address.
pub fn validate_send(amount: u64, tx: &TxSend, account_id: Option<AccountId>, receiver_valid: bool) -> (r:
    Result<i128, BlockValidationError>)
    ensures
        outcome(r) == spec_validate_send(amount, tx.receiver@, account_id, receiver_valid),
{
    let acc = match account_id {
        Some(a) => a,
        None => return Err(node_failure(Node::AccountError)),
    };
    if id_matches_bytes(&acc, &tx.receiver) {
        return Err(invalid_block(Validation::ReceiverAccountError));
    }
    if !receiver_valid {
        return Err(invalid_block(Validation::ReceiverAccountError));
    }
    Ok(-(amount as i128))
}

/// The balance change of collecting the send transaction `tx` names into
/// the account `account_id`: the amount sent, when the send transaction
/// exists, is not claimed yet and was sent to this account.
pub fn validate_collect<D: Database>(db: &D, tx: &TxClaim, account_id: Option<AccountId>) -> (r: Result<
    i128,
    BlockValidationError,
>)
    ensures
        outcome(r) == spec_validate_collect(db, tx.transaction_id@, account_id),
{
    let send_id = match id_from_bytes(&tx.transaction_id) {
        Some(a) => a,
        None => return Err(node_failure(Node::TxNotFound)),
    };
    match db.get_send_recipient(send_id) {
        Err(e) => return Err(node_failure(Node::DBError(e))),
        Ok(Some(_)) => return Err(
            invalid_block(Validation::TxValidationError("validate collect 1".to_string())),
        ),
        Ok(None) => {},
    }
    let receive_tx = match db.get_transaction_by_id(send_id) {
        Ok(t) => t,
        Err(_) => return Err(
            invalid_block(Validation::TxValidationError("validate collect 2".to_string())),
        ),
    };
    let sendtx = match &receive_tx.data {
        Some(Data::TxSend(t)) => t,
        Some(_) => return Err(invalid_block(Validation::MissmatchedTx)),
        None => return Err(invalid_block(Validation::SendTxNotFound)),
    };
    let acc = match account_id {
        Some(a) => a,
        None => return Err(node_failure(Node::AccountError)),
    };
    if !id_matches_bytes(&acc, &sendtx.receiver) {
        return Err(invalid_block(Validation::TxValidationError("validate collect 3".to_string())));
    }
    Ok(sendtx.amount as i128)
}

/// The balance change of the transaction at `i` of `new_block`.
fn tx_verification<D: Database>(
    db: &D,
    new_block: &SignedBlock,
    facts: &BlockFacts,
    i: usize,
    new_balance: i128,
) -> (r: Result<i128, BlockValidationError>)
    requires
        new_block@.data is Some,
        facts_cover(new_block@, facts),
        i < new_block@.data.unwrap().transactions.len(),
    ensures
        outcome(r) == spec_tx_verification(db, new_block@, facts, i as int, new_balance),
{
    let data = match &new_block.data {
        Some(d) => d,
        None => return Err(node_failure(Node::BlockDataNotFound)),
    };
    let transaction = &data.transactions[i];
    assert(transaction@ == new_block@.data.unwrap().transactions[i as int]);
    match &transaction.data {
        None => Err(invalid_block(Validation::TransactionDataNotFound)),
        Some(Data::TxSend(tx)) => validate_send(tx.amount, tx, facts.account_id, facts.receivers_valid[i]),
        Some(Data::TxCollect(tx)) => validate_collect(db, tx, facts.account_id),
        Some(_) => Ok(new_balance),
    }
}

/// Once a transaction id check has failed, checking more ids gives the same
/// failure.
proof fn lemma_transaction_ids_stop(block_id: Option<BlockId>, ids: Seq<Option<TransactionId>>, n: nat, m: nat)
    requires
        n <= m,
        spec_transaction_ids(block_id, ids, n) is Err,
    ensures
        spec_transaction_ids(block_id, ids, m) == spec_transaction_ids(block_id, ids, n),
    decreases m - n,
{
    if n < m {
        lemma_transaction_ids_stop(block_id, ids, n, (m - 1) as nat);
    }
}

/// Once a transaction has failed, adding up more transactions gives the
/// same failure.
proof fn lemma_balance_after_stop<D: Database>(
    db: &D,
    block: SignedBlockView,
    facts: &BlockFacts,
    balance: i128,
    n: nat,
    m: nat,
)
    requires
        n <= m,
        spec_balance_after(db, block, facts, balance, n) is Err,
    ensures
        spec_balance_after(db, block, facts, balance, m) == spec_balance_after(db, block, facts, balance, n),
    decreases m - n,
{
    if n < m {
        lemma_balance_after_stop(db, block, facts, balance, n, (m - 1) as nat);
    }
}

/// Checks the transactions of `new_block`: there are at most
/// `MAX_TRANSACTIONS`, their ids can be computed and are distinct, each is
/// valid, and the balance of `prev_block` changed by all of them is the
/// balance `new_block` states, and not negative.
#[verifier::loop_isolation(false)]
pub fn verify_transactions<D: Database>(
    db: &D,
    new_block: &SignedBlock,
    prev_block: &SignedBlock,
    facts: &BlockFacts,
) -> (r: Result<(), BlockValidationError>)
    requires
        facts_cover(new_block@, facts),
    ensures
        outcome(r) == spec_verify_transactions(db, new_block@, prev_block@, facts),
{
    let new_data = match &new_block.data {
        Some(d) => d,
        None => return Err(node_failure(Node::BlockDataNotFound)),
    };
    let prev_data = match &prev_block.data {
        Some(d) => d,
        None => return Err(node_failure(Node::BlockDataNotFound)),
    };
    let len = new_data.transactions.len();
    if len > MAX_TRANSACTIONS {
        return Err(invalid_block(Validation::TooManyTransactions));
    }
    let ghost ids = facts.transaction_ids@;
    let ghost n = len as nat;
    assert(n == new_block@.data.unwrap().transactions.len());
    let mut transaction_ids: Vec<TransactionId> = Vec::new();
    let mut i: usize = 0;
    while i < len
        invariant
            i <= len,
            n == len,
            ids == facts.transaction_ids@,
            ids.len() == n,
            spec_transaction_ids(facts.block_id, ids, i as nat) is Ok,
            transaction_ids@.len() == i,
            forall|k: int| 0 <= k < i ==> ids[k] == Some(#[trigger] transaction_ids@[k]),
        decreases len - i,
    {
        if facts.block_id.is_none() {
            proof {
                assert(spec_transaction_ids(facts.block_id, ids, (i + 1) as nat) is Err);
                lemma_transaction_ids_stop(facts.block_id, ids, (i + 1) as nat, n);
            }
            return Err(node_failure(Node::BlockNotFound));
        }
        let txid = match facts.transaction_ids[i] {
            Some(t) => t,
            None => {
                proof {
                    assert(spec_transaction_ids(facts.block_id, ids, (i + 1) as nat) is Err);
                    lemma_transaction_ids_stop(facts.block_id, ids, (i + 1) as nat, n);
                }
                return Err(node_failure(Node::TxNotFound));
            },
        };
        let dup = contains_id(&transaction_ids, &txid);
        proof {
            if dup {
                let t = choose|t: int| 0 <= t < transaction_ids@.len() && transaction_ids@[t] == txid;
                assert(ids[t] == Some(txid));
            } else {
                assert forall|k: int| 0 <= k < i implies ids[k] != Some(txid) by {
                    assert(ids[k] == Some(transaction_ids@[k]));
                }
            }
        }
        if dup {
            proof {
                assert(spec_transaction_ids(facts.block_id, ids, (i + 1) as nat) is Err);
                lemma_transaction_ids_stop(facts.block_id, ids, (i + 1) as nat, n);
            }
            return Err(invalid_block(Validation::DuplicatedTx));
        }
        transaction_ids.push(txid);
        i = i + 1;
    }
    let balance: i128 = prev_data.balance as i128;
    let mut new_balance: i128 = balance;
    let mut i: usize = 0;
    while i < len
        invariant
            i <= len,
            len <= MAX_TRANSACTIONS,
            n == len,
            new_block@.data is Some,
            n == new_block@.data.unwrap().transactions.len(),
            facts_cover(new_block@, facts),
            0 <= balance <= u64::MAX,
            spec_balance_after(db, new_block@, facts, balance, i as nat) == Ok::<int, ErrorView>(
                new_balance as int,
            ),
            -(i as int) * 0x1_0000_0000_0000_0000 <= new_balance <= (i as int + 1) * 0x1_0000_0000_0000_0000,
        decreases len - i,
    {
        let v = match tx_verification(db, new_block, facts, i, balance) {
            Ok(v) => v,
            Err(e) => {
                proof {
                    assert(spec_balance_after(db, new_block@, facts, balance, (i + 1) as nat) is Err);
                    lemma_balance_after_stop(db, new_block@, facts, balance, (i + 1) as nat, n);
                }
                return Err(e);
            },
        };
        assert(-0x1_0000_0000_0000_0000 <= v <= 0x1_0000_0000_0000_0000);
        new_balance = new_balance + v;
        i = i + 1;
    }
    if new_balance == new_data.balance as i128 && new_balance >= 0 {
        return Ok(());
    }
    Err(invalid_block(Validation::TxValidationError("verify transactions".to_string())))
}

/// The checks `validate` runs before it compares heights all pass, and the
/// block, at height 0, would be compared with an existing latest block: the
/// height check then subtracts below zero.
pub open spec fn height_check_underflows<D: Database>(db: &D, block: SignedBlockView, facts: &BlockFacts) -> bool {
    match (block.data, facts.account_id, facts.block_id) {
        (Some(d), Some(acc), Some(id)) => {
            &&& d.height == 0
            &&& facts.signature_valid
            &&& db.block_by_id(id) == Err::<SignedBlockView, DatabaseErrorView>(DatabaseErrorView::BlockNotFound)
            &&& match db.latest_block_by_account(acc) {
                Ok(latest) => latest.data is Some,
                Err(_) => false,
            }
        },
        _ => false,
    }
}

/// Validates `block` against the store `db`: `latest_block_id` is the id of
/// the account's latest block (`None` when it could not be computed).
pub open spec fn spec_validate<D: Database>(
    db: &D,
    block: SignedBlockView,
    facts: &BlockFacts,
    latest_block_id: Option<BlockId>,
) -> Result<(), ErrorView> {
    match block.data {
        None => node_error(NodeView::BlockDataNotFound),
        Some(_) => match facts.account_id {
            None => node_error(NodeView::CryptoError),
            Some(acc) => match db.latest_block_by_account(acc) {
                Err(DatabaseErrorView::NoLastBlock) => spec_verify_account_genesis_block(block),
                Err(_) => node_error(NodeView::BlockNotFound),
                Ok(latest) => match facts.block_id {
                    None => node_error(NodeView::BlockIdError),
                    Some(id) => match db.block_by_id(id) {
                        Ok(_) => invalid(ValidationView::BlockDuplicate),
                        Err(DatabaseErrorView::BlockNotFound) => if !facts.signature_valid {
                            node_error(NodeView::CryptoError)
                        } else {
                            match spec_verify_previous_block(block, latest, latest_block_id) {
                                Err(e) => Err(e),
                                Ok(()) => spec_verify_transactions(db, block, latest, facts),
                            }
                        },
                        Err(e) => node_error(NodeView::DBError(e)),
                    },
                },
            },
        },
    }
}

/// Validates a block against the store: a block of an account without
/// blocks must be at height 0; otherwise the block must be new, its
/// signature must verify (`facts.signature_valid`), it must directly follow
/// the account's latest block (whose id is `latest_block_id`) and its
/// transactions must pass `verify_transactions`.
pub fn validate<D: Database>(
    block: &SignedBlock,
    db: &D,
    facts: &BlockFacts,
    latest_block_id: Option<BlockId>,
) -> (r: Result<(), BlockValidationError>)
    requires
        facts_cover(block@, facts),
        !height_check_underflows(db, block@, facts),
    ensures
        outcome(r) == spec_validate(db, block@, facts, latest_block_id),
{
    if block.data.is_none() {
        return Err(node_failure(Node::BlockDataNotFound));
    }
    let account_id = match facts.account_id {
        Some(a) => a,
        None => return Err(node_failure(Node::CryptoError)),
    };
    let latest_block = match db.get_latest_block_by_account(account_id) {
        Ok(b) => b,
        Err(DatabaseError::NoLastBlock) => return verify_account_genesis_block(block),
        Err(_) => return Err(node_failure(Node::BlockNotFound)),
    };
    let id = match facts.block_id {
        Some(id) => id,
        None => return Err(node_failure(Node::BlockIdError)),
    };
    match db.get_block_by_id(id) {
        Ok(_) => return Err(invalid_block(Validation::BlockDuplicate)),
        Err(DatabaseError::BlockNotFound) => {},
        Err(e) => return Err(node_failure(Node::DBError(e))),
    }
    if !facts.signature_valid {
        return Err(node_failure(Node::CryptoError));
    }
    verify_previous_block(block, &latest_block, latest_block_id)?;
    verify_transactions(db, block, &latest_block, facts)
}

/// When the id checks pass, every transaction has an id and no two share one.
proof fn lemma_transaction_ids_distinct(block_id: Option<BlockId>, ids: Seq<Option<TransactionId>>, n: nat)
    requires
        spec_transaction_ids(block_id, ids, n) is Ok,
    ensures
        forall|i: int| 0 <= i < n ==> #[trigger] ids[i] is Some,
        forall|i: int, j: int| 0 <= i < j < n ==> #[trigger] ids[i] != #[trigger] ids[j],
    decreases n,
{
    if n > 0 {
        lemma_transaction_ids_distinct(block_id, ids, (n - 1) as nat);
    }
}

/// A block accepted for an account that already has blocks directly
/// follows the account's latest block: its height is one more, it names
/// that block's id as its previous block, it holds at most
/// `MAX_TRANSACTIONS` transactions with distinct ids, and the balance it
/// states is the latest block's balance changed by its transactions, and not
/// negative.
pub proof fn law_accepted_block_extends_latest<D: Database>(
    db: &D,
    block: SignedBlockView,
    facts: &BlockFacts,
    latest_block_id: Option<BlockId>,
    account_id: AccountId,
    latest: SignedBlockView,
)
    requires
        spec_validate(db, block, facts, latest_block_id) is Ok,
        facts.account_id == Some(account_id),
        db.latest_block_by_account(account_id) == Ok::<SignedBlockView, DatabaseErrorView>(latest),
    ensures
        block.data is Some,
        latest.data is Some,
        block.data.unwrap().height == latest.data.unwrap().height + 1,
        latest_block_id matches Some(id) && block.data.unwrap().previous == id@,
        block.data.unwrap().transactions.len() <= MAX_TRANSACTIONS,
        forall|i: int, j: int|
            0 <= i < j < block.data.unwrap().transactions.len() ==> #[trigger] facts.transaction_ids@[i]
                != #[trigger] facts.transaction_ids@[j],
        spec_balance_after(db, block, facts, latest.data.unwrap().balance as i128, block.data.unwrap().transactions.len())
            == Ok::<int, ErrorView>(block.data.unwrap().balance as int),
{
    let n = block.data.unwrap().transactions.len();
    lemma_transaction_ids_distinct(facts.block_id, facts.transaction_ids@, n);
}

/// A block accepted for an account without blocks is at height 0.
pub proof fn law_accepted_first_block_is_genesis<D: Database>(
    db: &D,
    block: SignedBlockView,
    facts: &BlockFacts,
    latest_block_id: Option<BlockId>,
    account_id: AccountId,
)
    requires
        spec_validate(db, block, facts, latest_block_id) is Ok,
        facts.account_id == Some(account_id),
        db.latest_block_by_account(account_id) == Err::<SignedBlockView, DatabaseErrorView>(
            DatabaseErrorView::NoLastBlock,
        ),
    ensures
        block.data is Some,
        block.data.unwrap().height == 0,
{
}

/// A block whose id is already stored is never accepted on top of an
/// existing latest block.
pub proof fn law_stored_block_is_rejected<D: Database>(
    db: &D,
    block: SignedBlockView,
    facts: &BlockFacts,
    latest_block_id: Option<BlockId>,
    account_id: AccountId,
    block_id: BlockId,
)
    requires
        facts.account_id == Some(account_id),
        facts.block_id == Some(block_id),
        block.data is Some,
        db.latest_block_by_account(account_id) is Ok,
        db.block_by_id(block_id) is Ok,
    ensures
        spec_validate(db, block, facts, latest_block_id) == invalid::<()>(ValidationView::BlockDuplicate),
{
}

/// Collecting a send succeeds only for a send transaction that the store
/// holds, that nobody has claimed yet and that was sent to the collecting
/// account; what it adds to the balance is the amount sent.
pub proof fn law_collect_needs_unclaimed_send_to_collector<D: Database>(
    db: &D,
    send_tx_id: Seq<u8>,
    account_id: Option<AccountId>,
    credited: i128,
)
    requires
        spec_validate_collect(db, send_tx_id, account_id) == Ok::<i128, ErrorView>(credited),
    ensures
        send_tx_id.len() == 32,
        db.send_recipient(id_of_bytes::<32>(send_tx_id)) == Ok::<Option<TransactionId>, DatabaseErrorView>(None),
        account_id is Some,
        exists|receiver: Seq<u8>, amount: u64, data: Seq<u8>|
            #[trigger] db.transaction_by_id(id_of_bytes::<32>(send_tx_id)) == Ok::<TransactionView, DatabaseErrorView>(
                TransactionView { data: Some(DataView::TxSend { receiver, amount, data }) },
            ) && receiver == account_id->0@ && credited == amount as i128,
{
    let send_id = id_of_bytes::<32>(send_tx_id);
    let tx = db.transaction_by_id(send_id)->Ok_0;
    match tx.data {
        Some(DataView::TxSend { receiver, amount, data }) => {
            assert(tx == TransactionView { data: Some(DataView::TxSend { receiver, amount, data }) });
        },
        _ => {},
    }
}

/// Collecting a send that the store shows as claimed already is refused,
/// whoever collects it: a send is collected once.
pub proof fn law_claimed_send_is_not_collected_again<D: Database>(
    db: &D,
    send_tx_id: Seq<u8>,
    account_id: Option<AccountId>,
    claim: TransactionId,
)
    requires
        send_tx_id.len() == 32,
        db.send_recipient(id_of_bytes::<32>(send_tx_id)) == Ok::<Option<TransactionId>, DatabaseErrorView>(Some(claim)),
    ensures
        spec_validate_collect(db, send_tx_id, account_id) is Err,
{
    if spec_validate_collect(db, send_tx_id, account_id) is Ok {
        law_collect_needs_unclaimed_send_to_collector(
            db,
            send_tx_id,
            account_id,
            spec_validate_collect(db, send_tx_id, account_id)->Ok_0,
        );
    }
}

/// Collecting a send addressed to another account than the collecting one
/// is refused.
pub proof fn law_send_is_collected_by_its_receiver_only<D: Database>(
    db: &D,
    send_tx_id: Seq<u8>,
    collector: AccountId,
    receiver: Seq<u8>,
    amount: u64,
    data: Seq<u8>,
)
    requires
        send_tx_id.len() == 32,
        db.transaction_by_id(id_of_bytes::<32>(send_tx_id)) == Ok::<TransactionView, DatabaseErrorView>(
            TransactionView { data: Some(DataView::TxSend { receiver, amount, data }) },
        ),
        receiver != collector@,
    ensures
        spec_validate_collect(db, send_tx_id, Some(collector)) is Err,
{
    if spec_validate_collect(db, send_tx_id, Some(collector)) is Ok {
        law_collect_needs_unclaimed_send_to_collector(
            db,
            send_tx_id,
            Some(collector),
            spec_validate_collect(db, send_tx_id, Some(collector))->Ok_0,
        );
    }
}

/// A transaction whose check fails stops the balance from being computed.
proof fn lemma_failing_transaction<D: Database>(
    db: &D,
    block: SignedBlockView,
    facts: &BlockFacts,
    balance: i128,
    i: int,
    n: nat,
)
    requires
        0 <= i < n,
        spec_tx_verification(db, block, facts, i, balance) is Err,
    ensures
        spec_balance_after(db, block, facts, balance, n) is Err,
{
    assert(spec_balance_after(db, block, facts, balance, (i + 1) as nat) is Err);
    lemma_balance_after_stop(db, block, facts, balance, (i + 1) as nat, n);
}

/// A block whose transaction `i` collects a send that the store shows as
/// claimed already, or a send addressed to another account, never passes
/// the transaction checks.
pub proof fn law_block_with_refused_collect_is_refused<D: Database>(
    db: &D,
    new_block: SignedBlockView,
    prev_block: SignedBlockView,
    facts: &BlockFacts,
    i: int,
    send_tx_id: Seq<u8>,
)
    requires
        new_block.data is Some,
        0 <= i < new_block.data->0.transactions.len(),
        new_block.data->0.transactions[i].data == Some(DataView::TxCollect { transaction_id: send_tx_id }),
        send_tx_id.len() == 32,
        db.send_recipient(id_of_bytes::<32>(send_tx_id)) is Ok && db.send_recipient(id_of_bytes::<32>(send_tx_id))->Ok_0 is Some
            || (facts.account_id is Some && exists|receiver: Seq<u8>, amount: u64, data: Seq<u8>|
            #[trigger] db.transaction_by_id(id_of_bytes::<32>(send_tx_id)) == Ok::<TransactionView, DatabaseErrorView>(
                TransactionView { data: Some(DataView::TxSend { receiver, amount, data }) },
            ) && receiver != facts.account_id->0@),
    ensures
        spec_verify_transactions(db, new_block, prev_block, facts) is Err,
{
    let send_id = id_of_bytes::<32>(send_tx_id);
    if db.send_recipient(send_id) is Ok && db.send_recipient(send_id)->Ok_0 is Some {
        law_claimed_send_is_not_collected_again(db, send_tx_id, facts.account_id, db.send_recipient(send_id)->Ok_0->0);
    } else {
        let (receiver, amount, data) = choose|receiver: Seq<u8>, amount: u64, data: Seq<u8>|
            #[trigger] db.transaction_by_id(send_id) == Ok::<TransactionView, DatabaseErrorView>(
                TransactionView { data: Some(DataView::TxSend { receiver, amount, data }) },
            ) && receiver != facts.account_id->0@;
        law_send_is_collected_by_its_receiver_only(db, send_tx_id, facts.account_id->0, receiver, amount, data);
    }
    match prev_block.data {
        Some(p) => {
            let n = new_block.data->0.transactions.len();
            assert(spec_tx_verification(db, new_block, facts, i, p.balance as i128) is Err);
            lemma_failing_transaction(db, new_block, facts, p.balance as i128, i, n);
        },
        None => {},
    }
}

/// Such a block is never accepted on top of an account's latest block.
pub proof fn law_validate_refuses_refused_collect<D: Database>(
    db: &D,
    block: SignedBlockView,
    facts: &BlockFacts,
    latest_block_id: Option<BlockId>,
    account_id: AccountId,
    i: int,
    send_tx_id: Seq<u8>,
)
    requires
        block.data is Some,
        facts.account_id == Some(account_id),
        db.latest_block_by_account(account_id) is Ok,
        0 <= i < block.data->0.transactions.len(),
        block.data->0.transactions[i].data == Some(DataView::TxCollect { transaction_id: send_tx_id }),
        send_tx_id.len() == 32,
        db.send_recipient(id_of_bytes::<32>(send_tx_id)) is Ok && db.send_recipient(id_of_bytes::<32>(send_tx_id))->Ok_0 is Some
            || exists|receiver: Seq<u8>, amount: u64, data: Seq<u8>|
            #[trigger] db.transaction_by_id(id_of_bytes::<32>(send_tx_id)) == Ok::<TransactionView, DatabaseErrorView>(
                TransactionView { data: Some(DataView::TxSend { receiver, amount, data }) },
            ) && receiver != account_id@,
    ensures
        spec_validate(db, block, facts, latest_block_id) is Err,
{
    let latest = db.latest_block_by_account(account_id)->Ok_0;
    law_block_with_refused_collect_is_refused(db, block, latest, facts, i, send_tx_id);
}

/// The first block of an account (the store has no block for it) is
/// accepted exactly when it stands at height 0; at another height it is
/// refused with `BlockHeightError`.
pub proof fn law_first_block_accepted_exactly_at_height_zero<D: Database>(
    db: &D,
    block: SignedBlockView,
    facts: &BlockFacts,
    latest_block_id: Option<BlockId>,
    account_id: AccountId,
)
    requires
        block.data is Some,
        facts.account_id == Some(account_id),
        db.latest_block_by_account(account_id) == Err::<SignedBlockView, DatabaseErrorView>(
            DatabaseErrorView::NoLastBlock,
        ),
    ensures
        spec_validate(db, block, facts, latest_block_id) is Ok <==> block.data->0.height == 0,
        block.data->0.height != 0 ==> spec_validate(db, block, facts, latest_block_id) == invalid::<()>(
            ValidationView::BlockHeightError,
        ),
{
}

/// No check of transaction ids refuses a block for holding too many
/// transactions.
proof fn lemma_ids_not_too_many(block_id: Option<BlockId>, ids: Seq<Option<TransactionId>>, n: nat)
    ensures
        spec_transaction_ids(block_id, ids, n) != invalid::<()>(ValidationView::TooManyTransactions),
    decreases n,
{
    if n > 0 {
        lemma_ids_not_too_many(block_id, ids, (n - 1) as nat);
    }
}

/// No transaction is refused for the block holding too many transactions.
proof fn lemma_balance_not_too_many<D: Database>(
    db: &D,
    block: SignedBlockView,
    facts: &BlockFacts,
    balance: i128,
    n: nat,
)
    ensures
        spec_balance_after(db, block, facts, balance, n) != invalid::<int>(ValidationView::TooManyTransactions),
    decreases n,
{
    if n > 0 {
        lemma_balance_not_too_many(db, block, facts, balance, (n - 1) as nat);
    }
}

/// A block is refused for holding too many transactions exactly when it
/// holds more than `MAX_TRANSACTIONS`.
pub proof fn law_too_many_transactions_exactly_above_limit<D: Database>(
    db: &D,
    new_block: SignedBlockView,
    prev_block: SignedBlockView,
    facts: &BlockFacts,
)
    requires
        new_block.data is Some,
        prev_block.data is Some,
    ensures
        spec_verify_transactions(db, new_block, prev_block, facts) == invalid::<()>(ValidationView::TooManyTransactions)
            <==> new_block.data->0.transactions.len() > MAX_TRANSACTIONS,
{
    let n = new_block.data->0.transactions.len();
    lemma_ids_not_too_many(facts.block_id, facts.transaction_ids@, n);
    lemma_balance_not_too_many(db, new_block, facts, prev_block.data->0.balance as i128, n);
}

/// The total amount sent by the first `n` transactions.
pub open spec fn sent_total(txs: Seq<TransactionView>, n: nat) -> int
    decreases n,
{
    if n == 0 {
        0
    } else {
        sent_total(txs, (n - 1) as nat) + match txs[n - 1].data {
            Some(DataView::TxSend { amount, .. }) => amount as int,
            _ => 0,
        }
    }
}

/// Each of the first `n` transactions is a send from `account_id` to a
/// valid other account.
pub open spec fn valid_sends(txs: Seq<TransactionView>, facts: &BlockFacts, account_id: AccountId, n: nat) -> bool {
    forall|i: int|
        0 <= i < n ==> match (#[trigger] txs[i]).data {
            Some(DataView::TxSend { receiver, .. }) => receiver != account_id@ && facts.receivers_valid@[i],
            _ => false,
        }
}

/// Ids that were all computed and are distinct pass the id checks.
proof fn lemma_distinct_ids_pass(block_id: Option<BlockId>, ids: Seq<Option<TransactionId>>, n: nat)
    requires
        block_id is Some,
        n <= ids.len(),
        forall|i: int| 0 <= i < n ==> #[trigger] ids[i] is Some,
        forall|i: int, j: int| 0 <= i < j < n ==> #[trigger] ids[i] != #[trigger] ids[j],
    ensures
        spec_transaction_ids(block_id, ids, n) == Ok::<(), ErrorView>(()),
    decreases n,
{
    if n > 0 {
        lemma_distinct_ids_pass(block_id, ids, (n - 1) as nat);
        assert(ids[n - 1] is Some);
        assert forall|k: int| 0 <= k < n - 1 implies #[trigger] ids[k] != Some(ids[n - 1]->0) by {
            assert(ids[k] != ids[n - 1]);
        }
    }
}

/// Valid sends take their amounts off the balance.
proof fn lemma_sends_balance<D: Database>(
    db: &D,
    block: SignedBlockView,
    facts: &BlockFacts,
    account_id: AccountId,
    balance: i128,
    n: nat,
)
    requires
        block.data is Some,
        n <= block.data->0.transactions.len(),
        facts.account_id == Some(account_id),
        valid_sends(block.data->0.transactions, facts, account_id, n),
    ensures
        spec_balance_after(db, block, facts, balance, n) == Ok::<int, ErrorView>(
            balance - sent_total(block.data->0.transactions, n),
        ),
    decreases n,
{
    if n > 0 {
        let txs = block.data->0.transactions;
        lemma_sends_balance(db, block, facts, account_id, balance, (n - 1) as nat);
        assert(valid_sends(txs, facts, account_id, (n - 1) as nat));
        let tx = txs[n - 1];
        match tx.data {
            Some(DataView::TxSend { receiver, amount, .. }) => {
                assert(receiver != account_id@ && facts.receivers_valid@[n - 1]);
                assert(spec_tx_verification(db, block, facts, n - 1, balance) == Ok::<i128, ErrorView>(
                    -(amount as int) as i128,
                ));
            },
            _ => {
                assert(false);
            },
        }
    }
}

/// A block of at most `MAX_TRANSACTIONS` sends from its account to valid
/// other accounts, whose transaction ids were all computed and are distinct,
/// and whose balance is the previous balance less the amounts sent, passes
/// the transaction checks.
pub proof fn law_sends_that_add_up_are_accepted<D: Database>(
    db: &D,
    new_block: SignedBlockView,
    prev_block: SignedBlockView,
    facts: &BlockFacts,
    account_id: AccountId,
)
    requires
        new_block.data is Some,
        prev_block.data is Some,
        new_block.data->0.transactions.len() <= MAX_TRANSACTIONS,
        facts.account_id == Some(account_id),
        facts.block_id is Some,
        facts.transaction_ids@.len() == new_block.data->0.transactions.len(),
        forall|i: int| 0 <= i < facts.transaction_ids@.len() ==> #[trigger] facts.transaction_ids@[i] is Some,
        forall|i: int, j: int|
            0 <= i < j < facts.transaction_ids@.len() ==> #[trigger] facts.transaction_ids@[i]
                != #[trigger] facts.transaction_ids@[j],
        valid_sends(new_block.data->0.transactions, facts, account_id, new_block.data->0.transactions.len()),
        prev_block.data->0.balance - sent_total(new_block.data->0.transactions, new_block.data->0.transactions.len())
            == new_block.data->0.balance,
    ensures
        spec_verify_transactions(db, new_block, prev_block, facts) == Ok::<(), ErrorView>(()),
{
    let n = new_block.data->0.transactions.len();
    lemma_distinct_ids_pass(facts.block_id, facts.transaction_ids@, n);
    lemma_sends_balance(db, new_block, facts, account_id, prev_block.data->0.balance as i128, n);
}

} // verus!
