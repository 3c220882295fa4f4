use champ_node::api::{BlockData, BlockFacts, Data, SignedBlock, Transaction, TxClaim, TxDelegate, TxSend};
use champ_node::storage::database::{Database, DatabaseError};
use champ_node::storage::mock::MockDB;
use champ_node::validation::block::{
    validate, validate_send, verify_account_genesis_block, verify_previous_block, verify_transactions,
    BlockValidationError, Node, Validation,
};

/// The account address "yy5xyknabqan31b8fkpyrd4nydtwpausi3kxgta", decoded.
const RECEIVER: [u8; 24] = [
    0, 54, 240, 40, 88, 11, 176, 44, 200, 39, 42, 154, 2, 15, 66, 0, 227, 70, 226, 118, 174, 84, 243, 71,
];

fn block(signature: &[u8], key: &[u8], balance: u64, height: u64, previous: &[u8], txs: Vec<Transaction>) -> SignedBlock {
    SignedBlock {
        signature: signature.to_vec(),
        public_key: key.to_vec(),
        timestamp: 1,
        data: Some(BlockData {
            version: 0,
            signature_type: 0,
            balance,
            height,
            previous: previous.to_vec(),
            transactions: txs,
        }),
    }
}

fn send(amount: u64) -> Transaction {
    Transaction { data: Some(Data::TxSend(TxSend { receiver: RECEIVER.to_vec(), amount, data: vec![] })) }
}

fn facts(block_id: [u8; 32], account: [u8; 24], tx_ids: Vec<[u8; 32]>) -> BlockFacts {
    let n = tx_ids.len();
    BlockFacts {
        block_id: Some(block_id),
        account_id: Some(account),
        signature_valid: true,
        transaction_ids: tx_ids.into_iter().map(Some).collect(),
        receivers_valid: vec![true; n],
    }
}

#[test]
fn test_verify_previous_block() {
    let prev_block = block(b"thisIsNewSignature", b"someOtherKey", 100, 4, b"blockBeforeMe", vec![]);
    // the id the codec gives the previous block
    let prev_id = [7u8; 32];
    let new_block = block(b"signedByMe", b"someKey", 100, 5, &prev_id, vec![]);

    assert!(verify_previous_block(&new_block, &prev_block, Some(prev_id)).is_ok());
}

#[test]
fn test_verify_transactions() {
    let prev_id = [7u8; 32];
    let prev_block = block(b"thisIsNewSignature", b"someOtherKey", 100, 4, b"blockBeforeMe", vec![]);
    let new_block = block(b"signedByMe", b"someKey", 40, 5, &prev_id, vec![send(10), send(50)]);

    let check_claim_tx = send(10);
    let data_block_1 = block(b"data_block_one", b"key_one", 40, 0, &prev_id, vec![check_claim_tx]);
    let data_block_1_id = [11u8; 32];
    let check_claim_tx_id = [12u8; 32];

    let check_claim_previous = block(b"data_block_one", b"key_one", 40, 5, b"some_previous", vec![]);
    let check_claim_previous_id = [13u8; 32];
    let check_claim = block(
        b"data_block_one",
        b"test",
        50,
        6,
        &check_claim_previous_id,
        vec![Transaction { data: Some(Data::TxCollect(TxClaim { transaction_id: check_claim_tx_id.to_vec() })) }],
    );

    let mut db = MockDB::new();
    db.add_block(data_block_1, &facts(data_block_1_id, [1u8; 24], vec![check_claim_tx_id]))
        .expect("block should be added");

    let new_block_facts = facts([14u8; 32], [2u8; 24], vec![[15u8; 32], [16u8; 32]]);
    verify_transactions(&db, &new_block, &prev_block, &new_block_facts).expect("should work");

    // the account of the key "test" is the receiver of the claimed send
    let claim_facts = facts([17u8; 32], RECEIVER, vec![[18u8; 32]]);
    assert_eq!(
        verify_transactions(&db, &check_claim, &check_claim_previous, &claim_facts)
            .expect("tx should be verified. Tx Nr: 2"),
        ()
    );
}

#[test]
fn other_transactions_add_the_previous_balance() {
    let prev_id = [7u8; 32];
    let prev_block = block(b"prev", b"key", 100, 4, b"before", vec![]);
    let delegate = || Transaction { data: Some(Data::TxDelegate(TxDelegate { representative: vec![5u8; 24] })) };
    let db = MockDB::new();
    let f = facts([14u8; 32], [2u8; 24], vec![[15u8; 32], [16u8; 32]]);
    // 100 + 100 (the delegation) - 10 (the send)
    let counted = block(b"new", b"key", 190, 5, &prev_id, vec![delegate(), send(10)]);
    assert!(verify_transactions(&db, &counted, &prev_block, &f).is_ok());
    let unchanged = block(b"new", b"key", 90, 5, &prev_id, vec![delegate(), send(10)]);
    assert!(matches!(verify_transactions(&db, &unchanged, &prev_block, &f), Err(BlockValidationError::Invalid(_))));
}

#[test]
fn previous_block_height_must_follow() {
    let prev_block = block(b"a", b"b", 100, 4, b"c", vec![]);
    let new_block = block(b"d", b"e", 100, 7, &[7u8; 32], vec![]);
    let r = verify_previous_block(&new_block, &prev_block, Some([7u8; 32]));
    assert!(matches!(r, Err(BlockValidationError::Invalid(Validation::BlockHeightError))));
}

#[test]
fn previous_block_id_must_match() {
    let prev_block = block(b"a", b"b", 100, 4, b"c", vec![]);
    let new_block = block(b"d", b"e", 100, 5, &[8u8; 32], vec![]);
    let r = verify_previous_block(&new_block, &prev_block, Some([7u8; 32]));
    assert!(matches!(r, Err(BlockValidationError::Invalid(Validation::PreviousBlockError))));
    let r = verify_previous_block(&new_block, &prev_block, None);
    assert!(matches!(r, Err(BlockValidationError::Error(Node::BlockNotFound))));
}

#[test]
fn genesis_block_has_height_zero() {
    assert!(verify_account_genesis_block(&block(b"a", b"b", 0, 0, b"c", vec![])).is_ok());
    let r = verify_account_genesis_block(&block(b"a", b"b", 0, 1, b"c", vec![]));
    assert!(matches!(r, Err(BlockValidationError::Invalid(Validation::BlockHeightError))));
    let no_data = SignedBlock { signature: vec![], public_key: vec![], timestamp: 0, data: None };
    let r = verify_account_genesis_block(&no_data);
    assert!(matches!(r, Err(BlockValidationError::Error(Node::BlockDataNotFound))));
}

#[test]
fn send_to_self_or_invalid_receiver_is_refused() {
    let tx = TxSend { receiver: RECEIVER.to_vec(), amount: 30, data: vec![] };
    assert_eq!(validate_send(30, &tx, Some([1u8; 24]), true).ok(), Some(-30));
    let r = validate_send(30, &tx, Some(RECEIVER), true);
    assert!(matches!(r, Err(BlockValidationError::Invalid(Validation::ReceiverAccountError))));
    let r = validate_send(30, &tx, Some([1u8; 24]), false);
    assert!(matches!(r, Err(BlockValidationError::Invalid(Validation::ReceiverAccountError))));
    let r = validate_send(30, &tx, None, true);
    assert!(matches!(r, Err(BlockValidationError::Error(Node::AccountError))));
}

#[test]
fn wrong_balance_is_refused() {
    let prev_block = block(b"a", b"b", 100, 4, b"c", vec![]);
    let new_block = block(b"d", b"e", 45, 5, &[7u8; 32], vec![send(10), send(50)]);
    let db = MockDB::new();
    let r = verify_transactions(&db, &new_block, &prev_block, &facts([1u8; 32], [2u8; 24], vec![[3u8; 32], [4u8; 32]]));
    assert!(matches!(r, Err(BlockValidationError::Invalid(Validation::TxValidationError(m))) if m == "verify transactions"));
}

#[test]
fn duplicated_transactions_are_refused() {
    let prev_block = block(b"a", b"b", 100, 4, b"c", vec![]);
    let new_block = block(b"d", b"e", 40, 5, &[7u8; 32], vec![send(10), send(50)]);
    let db = MockDB::new();
    let r = verify_transactions(&db, &new_block, &prev_block, &facts([1u8; 32], [2u8; 24], vec![[3u8; 32], [3u8; 32]]));
    assert!(matches!(r, Err(BlockValidationError::Invalid(Validation::DuplicatedTx))));
}

#[test]
fn claiming_twice_or_unknown_send_is_refused() {
    let db = MockDB::new();
    let claim = block(
        b"a",
        b"b",
        50,
        6,
        &[7u8; 32],
        vec![Transaction { data: Some(Data::TxCollect(TxClaim { transaction_id: [9u8; 32].to_vec() })) }],
    );
    let prev = block(b"a", b"b", 40, 5, b"c", vec![]);
    let r = verify_transactions(&db, &claim, &prev, &facts([1u8; 32], RECEIVER, vec![[2u8; 32]]));
    assert!(matches!(r, Err(BlockValidationError::Invalid(Validation::TxValidationError(m))) if m == "validate collect 2"));
}

#[test]
fn block_of_unknown_account_is_not_decided() {
    // the in-memory store knows no account yet: its latest block is an
    // unknown error, which validation reports as a missing block
    let db = MockDB::new();
    let genesis = block(b"a", b"b", 0, 0, b"c", vec![]);
    let f = facts([1u8; 32], [2u8; 24], vec![]);
    let r = validate(&genesis, &db, &f, None);
    assert!(matches!(r, Err(BlockValidationError::Error(Node::BlockNotFound))));
}

#[test]
fn stored_block_is_rejected_as_duplicate() {
    let mut db = MockDB::new();
    let genesis = block(b"a", b"b", 0, 0, b"c", vec![]);
    let f = facts([1u8; 32], [2u8; 24], vec![]);
    db.add_block(block(b"a", b"b", 0, 0, b"c", vec![]), &f).expect("should add");
    let r = validate(&genesis, &db, &f, Some([1u8; 32]));
    assert!(matches!(r, Err(BlockValidationError::Invalid(Validation::BlockDuplicate))));
}

#[test]
fn new_block_on_the_in_memory_store_is_not_decided() {
    // the in-memory store reports a missing block as an unknown error, not
    // as `BlockNotFound`, so validation cannot tell that the block is new
    let mut db = MockDB::new();
    let f0 = facts([1u8; 32], [2u8; 24], vec![]);
    db.add_block(block(b"a", b"b", 0, 0, b"c", vec![]), &f0).expect("should add");
    let next = block(b"a", b"b", 0, 1, &[1u8; 32], vec![]);
    let f1 = facts([3u8; 32], [2u8; 24], vec![]);
    let r = validate(&next, &db, &f1, Some([1u8; 32]));
    assert!(matches!(r, Err(BlockValidationError::Error(Node::DBError(DatabaseError::Unknown)))));
}
