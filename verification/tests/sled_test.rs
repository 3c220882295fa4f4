use champ_node::api::{BlockData, Data, SignedBlock, Transaction, TxClaim, TxDelegate, TxSend};
use champ_node::storage::database::{DatabaseConfig, DatabaseError, Databases};
use champ_node::storage::sled::keys::{
    be_bytes, block_by_account_key, block_key, block_transaction_key, delegate_write_key,
    last_block_key, transaction_block_key, transaction_key,
};
use champ_node::storage::sled::main::{
    block_writes, delegates_in, latest_block_before_in, open_database, SledBlockInput, SledDB, INSERT_FAILED_AT,
};

fn temporary() -> DatabaseConfig {
    DatabaseConfig { kind: Databases::Sled, uri: None, temporary: Some(true), path: None, data_path: None }
}

#[test]
fn keys_have_their_layout() {
    assert_eq!(be_bytes(0x0102030405060708), vec![1, 2, 3, 4, 5, 6, 7, 8]);
    let mut k = b"by_id_".to_vec();
    k.extend_from_slice(&[7u8; 32]);
    assert_eq!(block_key(&[7u8; 32]), k);
    assert_eq!(transaction_key(&[7u8; 32]), k);
    let mut k = b"by_acc_".to_vec();
    k.extend_from_slice(&[3u8; 24]);
    k.extend_from_slice(b"_");
    k.extend_from_slice(&5u64.to_be_bytes());
    assert_eq!(block_by_account_key(&[3u8; 24], 5), k);
    let mut k = [3u8; 24].to_vec();
    k.extend_from_slice(b"_last_blk");
    assert_eq!(last_block_key(&[3u8; 24]), k);
    let mut k = b"rep_".to_vec();
    k.extend_from_slice(&[3u8; 24]);
    assert_eq!(delegate_write_key(&[3u8; 24]), k);
    let mut k = b"blk_by_id_".to_vec();
    k.extend_from_slice(&[7u8; 32]);
    assert_eq!(transaction_block_key(&[7u8; 32]), k);
    let mut k = b"by_blk_id_".to_vec();
    k.extend_from_slice(&[7u8; 32]);
    k.extend_from_slice(&2u64.to_be_bytes());
    assert_eq!(block_transaction_key(&[7u8; 32], 2), k);
}

fn block(txs: Vec<Transaction>) -> SignedBlock {
    SignedBlock {
        signature: vec![1],
        public_key: vec![2],
        timestamp: 3,
        data: Some(BlockData { version: 0, signature_type: 0, balance: 10, height: 4, previous: vec![], transactions: txs }),
    }
}

#[test]
fn write_plan_of_a_block() {
    let txs = vec![
        Transaction { data: Some(Data::TxDelegate(TxDelegate { representative: vec![8u8; 24] })) },
        Transaction { data: Some(Data::TxCollect(TxClaim { transaction_id: vec![6u8; 32] })) },
    ];
    let plan = block_writes(&[1u8; 32], &[2u8; 24], 4, &vec![42], &txs, &vec![Some([5u8; 32]), Some([9u8; 32])], &vec![vec![50], vec![51]])
        .expect("all transactions have ids");
    assert_eq!(plan.accounts.len(), 2);
    assert_eq!(plan.accounts[0], (last_block_key(&[2u8; 24]), vec![1u8; 32]));
    assert_eq!(plan.accounts[1], (delegate_write_key(&[2u8; 24]), vec![8u8; 24]));
    assert_eq!(plan.blocks, vec![(block_key(&[1u8; 32]), vec![42]), (block_by_account_key(&[2u8; 24], 4), vec![1u8; 32])]);
    assert_eq!(plan.claims, vec![(vec![6u8; 32], vec![9u8; 32])]);
    assert_eq!(plan.transactions.len(), 6);
    assert_eq!(plan.transactions[3], (transaction_key(&[9u8; 32]), vec![51]));
    assert_eq!(plan.transactions[5], (block_transaction_key(&[1u8; 32], 1), vec![51]));

    let missing = block_writes(&[1u8; 32], &[2u8; 24], 4, &vec![42], &txs, &vec![Some([5u8; 32]), None], &vec![vec![50], vec![51]]);
    assert!(missing.is_none());
}

#[test]
fn stored_block_is_read_back() {
    let mut db = SledDB::new(&temporary()).expect("should open");
    let send = Transaction { data: Some(Data::TxSend(TxSend { receiver: vec![4u8; 24], amount: 3, data: vec![] })) };
    let claim = Transaction { data: Some(Data::TxCollect(TxClaim { transaction_id: vec![6u8; 32] })) };
    let b = block(vec![send, claim]);
    let input = SledBlockInput {
        block_id: Ok([1u8; 32]),
        account_id: Some([2u8; 24]),
        transaction_ids: vec![Some([5u8; 32]), Some([9u8; 32])],
        encoded_block: vec![42, 43],
        encoded_transactions: vec![vec![50], vec![51]],
    };
    db.add_block(&b, &input).expect("should add block");
    assert_eq!(db.get_block_bytes_by_id([1u8; 32]).expect("block"), vec![42, 43]);
    assert_eq!(db.get_latest_block_id([2u8; 24]).expect("latest"), [1u8; 32]);
    assert_eq!(db.get_block_bytes_by_height([2u8; 24], &4).expect("by height"), Some(vec![42, 43]));
    assert_eq!(db.get_block_bytes_by_height([2u8; 24], &5).expect("by height"), None);
    assert_eq!(db.get_transaction_bytes_by_id([9u8; 32]).expect("tx"), vec![51]);
    assert_eq!(db.get_send_recipient([6u8; 32]).expect("claim"), Some([9u8; 32]));
    assert_eq!(db.get_send_recipient([7u8; 32]).expect("no claim"), None);
    assert!(matches!(db.get_block_bytes_by_id([8u8; 32]), Err(DatabaseError::BlockNotFound)));
}

#[test]
fn delegation_is_read_back() {
    let mut db = SledDB::new(&temporary()).expect("should open");
    let delegate = Transaction { data: Some(Data::TxDelegate(TxDelegate { representative: vec![8u8; 24] })) };
    let input = SledBlockInput {
        block_id: Ok([1u8; 32]),
        account_id: Some([2u8; 24]),
        transaction_ids: vec![Some([5u8; 32])],
        encoded_block: vec![42],
        encoded_transactions: vec![vec![50]],
    };
    db.add_block(&block(vec![delegate]), &input).expect("should add block");
    assert_eq!(db.get_account_delegate([2u8; 24]).expect("lookup"), Some([8u8; 24]));
    assert_eq!(db.get_account_delegate([3u8; 24]).expect("lookup"), None);
}

#[test]
fn failed_ids_are_reported() {
    let mut db = SledDB::new(&temporary()).expect("should open");
    let tx = Transaction { data: Some(Data::TxCollect(TxClaim { transaction_id: vec![6u8; 32] })) };
    let mut input = SledBlockInput {
        block_id: Err("bad block".to_string()),
        account_id: Some([2u8; 24]),
        transaction_ids: vec![None],
        encoded_block: vec![42],
        encoded_transactions: vec![vec![50]],
    };
    let b = block(vec![tx]);
    assert!(matches!(db.add_block(&b, &input), Err(DatabaseError::Specific(m)) if m == "bad block"));
    input.block_id = Ok([1u8; 32]);
    input.account_id = None;
    assert!(matches!(db.add_block(&b, &input), Err(DatabaseError::Specific(m)) if m == "account ID could not be generated"));
    input.account_id = Some([2u8; 24]);
    assert!(matches!(db.add_block(&b, &input), Err(DatabaseError::DBInsertFailed(n)) if n == INSERT_FAILED_AT));
    assert!(db.get_block_bytes_by_id([1u8; 32]).is_err());
}

#[test]
fn only_sled_is_built_in() {
    let mut cfg = temporary();
    cfg.kind = Databases::SQLite;
    assert!(matches!(open_database(&cfg), Err(DatabaseError::InvalidKind)));
    assert!(open_database(&temporary()).is_ok());
}

fn stamped(timestamp: u64) -> SignedBlock {
    SignedBlock { signature: vec![], public_key: vec![], timestamp, data: None }
}

#[test]
fn latest_block_before_is_searched_newest_first() {
    let me = [1u8; 24];
    let other = [2u8; 24];
    let scanned = vec![
        (Some(me), stamped(500)),
        (Some(other), stamped(100)),
        (None, stamped(50)),
        (Some(me), stamped(300)),
        (Some(me), stamped(200)),
    ];
    // the newest block of the account older than 400
    assert_eq!(latest_block_before_in(&scanned, me, 400, 250).expect("found").map(|b| b.timestamp), Some(300));
    // a block older than the limit comes first: nothing
    assert_eq!(latest_block_before_in(&scanned, me, 400, 350).expect("searched"), None);
    // nothing of the account ends the search
    assert!(matches!(latest_block_before_in(&scanned, me, 100, 100), Err(DatabaseError::Unknown)));
    assert!(matches!(latest_block_before_in(&vec![], me, 100, 100), Err(DatabaseError::Unknown)));
    // the most recent block is found whatever the order of the scan
    let unordered = vec![(Some(me), stamped(200)), (Some(me), stamped(300)), (Some(me), stamped(450))];
    assert_eq!(latest_block_before_in(&unordered, me, 400, 100).expect("found").map(|b| b.timestamp), Some(300));
}

fn delegation(to: [u8; 24]) -> Transaction {
    Transaction { data: Some(Data::TxDelegate(TxDelegate { representative: to.to_vec() })) }
}

#[test]
fn delegates_are_listed_once() {
    let rep = [9u8; 24];
    let txs = vec![
        (Ok([1u8; 24]), delegation(rep)),
        (Ok([2u8; 24]), delegation([8u8; 24])),
        (Ok([1u8; 24]), delegation(rep)),
        (Ok([3u8; 24]), Transaction { data: Some(Data::TxSend(TxSend { receiver: rep.to_vec(), amount: 1, data: vec![] })) }),
        (Ok([4u8; 24]), delegation(rep)),
    ];
    assert_eq!(delegates_in(&txs, rep).expect("delegates"), vec![[1u8; 24], [4u8; 24]]);
    // an account whose latest delegation names someone else does not count
    let moved = vec![(Ok([1u8; 24]), delegation([8u8; 24])), (Ok([1u8; 24]), delegation(rep))];
    assert_eq!(delegates_in(&moved, rep).expect("delegates"), Vec::<[u8; 24]>::new());
    let failing = vec![(Ok([1u8; 24]), delegation(rep)), (Err(DatabaseError::BlockNotFound), delegation([8u8; 24]))];
    assert!(matches!(delegates_in(&failing, rep), Err(DatabaseError::BlockNotFound)));
}

#[test]
fn fresh_temporary_store_finds_nothing() {
    let db = SledDB::new(&temporary()).expect("should open");
    assert!(matches!(db.get_block_bytes_by_id([1u8; 32]), Err(DatabaseError::BlockNotFound)));
    assert!(matches!(db.get_latest_block_id([2u8; 24]), Err(DatabaseError::BlockNotFound)));
    assert_eq!(db.get_block_bytes_by_height([2u8; 24], &0).expect("by height"), None);
    assert_eq!(db.get_account_delegate([2u8; 24]).expect("delegate"), None);
    assert_eq!(db.get_send_recipient([6u8; 32]).expect("claim"), None);
    assert!(matches!(db.get_transaction_bytes_by_id([5u8; 32]), Err(DatabaseError::BlockNotFound)));
}

#[test]
fn refused_block_leaves_the_store_as_it_was() {
    let mut db = SledDB::new(&temporary()).expect("should open");
    let input = SledBlockInput {
        block_id: Ok([1u8; 32]),
        account_id: Some([2u8; 24]),
        transaction_ids: vec![None],
        encoded_block: vec![42],
        encoded_transactions: vec![vec![50]],
    };
    let tx = Transaction { data: Some(Data::TxCollect(TxClaim { transaction_id: vec![6u8; 32] })) };
    assert!(db.add_block(&block(vec![tx]), &input).is_err());
    assert!(matches!(db.get_block_bytes_by_id([1u8; 32]), Err(DatabaseError::BlockNotFound)));
    assert!(matches!(db.get_latest_block_id([2u8; 24]), Err(DatabaseError::BlockNotFound)));
}
