use champ_node::api::{BlockData, BlockFacts, Data, SignedBlock, Transaction, TxClaim, TxDelegate, TxSend};
use champ_node::storage::database::{Database, DatabaseConfig, DatabaseError, Databases};
use champ_node::storage::mock::MockDB;

const GENESIS_ID: &[u8; 32] = b"00000000000000000000000000000000";

fn simple_block(balance: u64, height: u64, timestamp: u64, txs: Vec<Transaction>) -> SignedBlock {
    SignedBlock {
        signature: vec![1, 2, 3],
        public_key: vec![4, 5, 6],
        timestamp,
        data: Some(BlockData {
            version: 0,
            signature_type: 0,
            balance,
            height,
            previous: GENESIS_ID.to_vec(),
            transactions: txs,
        }),
    }
}

fn genesis_claim() -> Transaction {
    Transaction { data: Some(Data::TxCollect(TxClaim { transaction_id: GENESIS_ID.to_vec() })) }
}

fn facts(block_id: [u8; 32], account: [u8; 24], tx_ids: Vec<[u8; 32]>) -> BlockFacts {
    let n = tx_ids.len();
    BlockFacts {
        block_id: Some(block_id),
        account_id: Some(account),
        signature_valid: true,
        transaction_ids: tx_ids.into_iter().map(Some).collect(),
        receivers_valid: vec![true; n],
    }
}

fn mock_db() -> MockDB {
    let mut db = MockDB::new();
    for n in 0..10u8 {
        let block = simple_block(100 + n as u64, 0, 1637000000 + n as u64 * 2000, vec![genesis_claim()]);
        db.add_block(block, &facts([n; 32], [n; 24], vec![[100 + n; 32]])).expect("should add block");
    }
    db
}

#[test]
fn test_mock() {
    let _ = mock_db();
}

#[test]
fn test_add_block() {
    let mut db = MockDB::new();
    let block = simple_block(100, 0, 1637000000, vec![genesis_claim()]);
    let block_id = [9u8; 32];
    db.add_block(block.clone(), &facts(block_id, [3u8; 24], vec![[4u8; 32]])).expect("should add block to database");
    let block_res = db.get_block_by_id(block_id).expect("should return block");
    assert_eq!(block_res, block);
}

#[test]
fn added_block_is_latest_and_found_by_height() {
    let mut db = MockDB::new();
    let account = [3u8; 24];
    db.add_block(simple_block(100, 0, 10, vec![]), &facts([1u8; 32], account, vec![])).expect("add");
    db.add_block(simple_block(90, 1, 20, vec![]), &facts([2u8; 32], account, vec![])).expect("add");
    assert_eq!(db.get_latest_block_by_account(account).expect("latest").data.unwrap().height, 1);
    assert_eq!(db.get_block_by_height(account, &0).expect("by height").unwrap().timestamp, 10);
    let before = db.get_latest_block_by_account_before(account, 15, 0).expect("before");
    assert_eq!(before.unwrap().timestamp, 10);
}

#[test]
fn duplicate_block_is_refused() {
    let mut db = MockDB::new();
    let account = [3u8; 24];
    db.add_block(simple_block(100, 0, 10, vec![]), &facts([1u8; 32], account, vec![])).expect("add");
    let r = db.add_block(simple_block(100, 1, 10, vec![]), &facts([1u8; 32], account, vec![]));
    assert!(matches!(r, Err(DatabaseError::DBInsertFailed(93))));
}

#[test]
fn duplicate_transaction_is_refused() {
    let mut db = MockDB::new();
    let account = [3u8; 24];
    db.add_block(simple_block(100, 0, 10, vec![genesis_claim()]), &facts([1u8; 32], account, vec![[5u8; 32]]))
        .expect("add");
    let r = db.add_block(simple_block(100, 1, 20, vec![genesis_claim()]), &facts([2u8; 32], account, vec![[5u8; 32]]));
    assert!(matches!(r, Err(DatabaseError::DBInsertFailed(103))));
}

#[test]
fn second_genesis_block_is_refused() {
    let mut db = MockDB::new();
    let account = [3u8; 24];
    db.add_block(simple_block(100, 0, 10, vec![]), &facts([1u8; 32], account, vec![])).expect("add");
    let r = db.add_block(simple_block(100, 0, 10, vec![]), &facts([2u8; 32], account, vec![]));
    assert!(matches!(r, Err(DatabaseError::Specific(m)) if m == "account already exists but block height == 0"));
}

#[test]
fn delegation_and_claims_are_found() {
    let mut db = MockDB::new();
    let delegator = [3u8; 24];
    let rep = [4u8; 24];
    let delegate_tx = Transaction { data: Some(Data::TxDelegate(TxDelegate { representative: rep.to_vec() })) };
    let send_tx = Transaction { data: Some(Data::TxSend(TxSend { receiver: rep.to_vec(), amount: 5, data: vec![] })) };
    db.add_block(simple_block(100, 0, 10, vec![delegate_tx, send_tx]), &facts([1u8; 32], delegator, vec![[5u8; 32], [6u8; 32]]))
        .expect("add");
    assert_eq!(db.get_account_delegate(delegator).expect("delegate"), Some(rep));
    assert_eq!(db.get_delegates_by_account(rep).expect("delegates"), vec![delegator]);
    assert_eq!(db.get_send_recipient([6u8; 32]).expect("recipient"), None);

    let claim = Transaction { data: Some(Data::TxCollect(TxClaim { transaction_id: [6u8; 32].to_vec() })) };
    db.add_block(simple_block(5, 0, 20, vec![claim]), &facts([2u8; 32], rep, vec![[7u8; 32]])).expect("add");
    assert_eq!(db.get_send_recipient([6u8; 32]).expect("recipient"), Some([7u8; 32]));
    assert_eq!(db.get_transaction_by_id([7u8; 32]).expect("tx").data, Some(Data::TxCollect(TxClaim { transaction_id: [6u8; 32].to_vec() })));
}

#[test]
fn block_without_data_or_ids_is_refused() {
    let mut db = MockDB::new();
    let no_data = SignedBlock { signature: vec![], public_key: vec![], timestamp: 0, data: None };
    assert!(matches!(db.add_block(no_data, &facts([1u8; 32], [2u8; 24], vec![])), Err(DatabaseError::DataNotFound)));
    let mut f = facts([1u8; 32], [2u8; 24], vec![]);
    f.block_id = None;
    assert!(matches!(db.add_block(simple_block(1, 0, 1, vec![]), &f), Err(DatabaseError::GetIDFailed)));
    let mut f = facts([1u8; 32], [2u8; 24], vec![]);
    f.account_id = None;
    assert!(matches!(db.add_block(simple_block(1, 0, 1, vec![]), &f), Err(DatabaseError::Specific(m)) if m == "account ID could not be generated"));
}

#[test]
fn default_database_config_is_temporary_sled() {
    let cfg = DatabaseConfig::default();
    assert_eq!(cfg.kind, Databases::Sled);
    assert_eq!(cfg.temporary, Some(true));
    assert!(cfg.path.is_none() && cfg.uri.is_none() && cfg.data_path.is_none());
}

#[test]
fn latest_block_before_is_the_most_recent_one() {
    let mut db = MockDB::new();
    let account = [3u8; 24];
    // the block with the greater id is the older one
    db.add_block(simple_block(100, 0, 30, vec![]), &facts([1u8; 32], account, vec![])).expect("add");
    db.add_block(simple_block(90, 1, 10, vec![]), &facts([2u8; 32], account, vec![])).expect("add");
    assert_eq!(db.get_latest_block_by_account_before(account, 40, 0).expect("before").unwrap().timestamp, 30);
    assert_eq!(db.get_latest_block_by_account_before(account, 20, 0).expect("before").unwrap().timestamp, 10);
    assert_eq!(db.get_latest_block_by_account_before(account, 40, 35).expect("before"), None);
    assert!(matches!(db.get_latest_block_by_account_before(account, 5, 0), Err(DatabaseError::Unknown)));
}

#[test]
fn only_the_latest_delegation_counts() {
    let mut db = MockDB::new();
    let delegator = [3u8; 24];
    let rep = [4u8; 24];
    let other = [5u8; 24];
    let to = |r: [u8; 24]| Transaction { data: Some(Data::TxDelegate(TxDelegate { representative: r.to_vec() })) };
    db.add_block(simple_block(100, 0, 10, vec![to(rep)]), &facts([1u8; 32], delegator, vec![[5u8; 32]])).expect("add");
    assert_eq!(db.get_delegates_by_account(rep).expect("delegates"), vec![delegator]);
    db.add_block(simple_block(100, 1, 20, vec![to(other)]), &facts([2u8; 32], delegator, vec![[6u8; 32]])).expect("add");
    assert_eq!(db.get_delegates_by_account(rep).expect("delegates"), Vec::<[u8; 24]>::new());
    assert_eq!(db.get_delegates_by_account(other).expect("delegates"), vec![delegator]);
}
