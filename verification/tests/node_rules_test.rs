use champ_node::api::{BlockData, BlockFacts, Data, SignedBlock, Transaction, TxClaim, TxDelegate, TxOpen, TxSend};
use champ_node::auth::permissions::PermissionError;
use champ_node::cli::parser::{log_level, LogLevel};
use champ_node::config::{Admin, Config, Mode, UserAccount};
use champ_node::rpc::node_user::NodeUserService;
use champ_node::env::{needs_jwt_keys, primary_wallet_to_unlock, split_peers, split_user_spec};
use champ_node::p2p::server::{handled_answer, node_wallet, request_step, Answer, RequestCheck, RequestKind, RequestStep};
use champ_node::wallets::manager::WalletManager;
use champ_node::rpc::lattice::{LatticeService, SubmitStep};
use champ_node::rpc::node_admin::{AdminError, NodeAdminService};
use champ_node::storage::database::Database;
use champ_node::storage::mock::MockDB;
use champ_node::storage::sql::entities::block::BlockVersion;
use champ_node::storage::sql::entities::transaction::TxType;
use champ_node::storage::sql::rows::{block_rows, SqlRowError};

#[test]
fn log_levels() {
    assert_eq!(log_level(Some("trace")), LogLevel::Trace);
    assert_eq!(log_level(Some("debug")), LogLevel::Debug);
    assert_eq!(log_level(Some("info")), LogLevel::Info);
    assert_eq!(log_level(Some("warn")), LogLevel::Warn);
    assert_eq!(log_level(Some("error")), LogLevel::Error);
    assert_eq!(log_level(Some("loud")), LogLevel::Info);
    assert_eq!(log_level(None), LogLevel::Info);
}

#[test]
fn environment_values() {
    assert_eq!(split_peers("a,b,,c"), vec!["a", "b", "", "c"]);
    assert_eq!(split_peers(""), vec![""]);
    assert_eq!(split_peers("/ip4/1.2.3.4/tcp/50052"), vec!["/ip4/1.2.3.4/tcp/50052"]);
    assert_eq!(split_user_spec("root::pw::x"), Some(("root".to_string(), "pw::x".to_string())));
    assert_eq!(split_user_spec("::"), Some((String::new(), String::new())));
    assert_eq!(split_user_spec("root:pw"), None);
    let mut admin = Admin::default();
    assert!(needs_jwt_keys(&admin));
    admin.jwt_private_key = Some("k".to_string());
    assert!(needs_jwt_keys(&admin));
    admin.jwt_public_key = Some("p".to_string());
    assert!(!needs_jwt_keys(&admin));
}

#[test]
fn requests_are_answered() {
    assert_eq!(request_step(RequestCheck::HeaderUndecodable), RequestStep::RejectMalformed);
    assert_eq!(request_step(RequestCheck::SignatureInvalid), RequestStep::RejectMalformed);
    assert_eq!(request_step(RequestCheck::BodyUndecodable), RequestStep::RejectMalformed);
    assert_eq!(request_step(RequestCheck::NoData), RequestStep::RejectMalformed);
    assert_eq!(request_step(RequestCheck::Request(RequestKind::Ping)), RequestStep::Pong);
    assert_eq!(request_step(RequestCheck::Request(RequestKind::Forward)), RequestStep::Handle(RequestKind::Forward));
    assert_eq!(handled_answer(true), Answer::Success);
    assert_eq!(handled_answer(false), Answer::MalformedRequest);
}

#[test]
fn admin_calls_need_permissions() {
    let service = NodeAdminService::new();
    let mut config = Config::default();
    let reader = vec!["admin.read".to_string()];
    let writer = vec!["admin.write".to_string()];
    assert_eq!(service.get_version(Some(&reader), "0.1.0").ok(), Some("0.1.0".to_string()));
    assert!(matches!(service.get_version(Some(&writer), "0.1.0"), Err(AdminError::Permission(PermissionError::NoPermissions))));
    assert!(matches!(service.get_version(None, "0.1.0"), Err(AdminError::Permission(PermissionError::MetadataMissing))));
    assert_eq!(service.get_block_pool_size(Some(&reader), Some(3)).ok(), Some(3));
    assert!(matches!(service.get_block_pool_size(Some(&reader), None), Err(AdminError::Internal(m)) if m == "could not get queue length"));
    assert_eq!(service.get_mode(Some(&reader), &config).ok(), Some(Mode::Validating));
    assert!(service.set_mode(Some(&writer), &mut config, Some(Mode::Prime)).is_ok());
    assert_eq!(config.consensus.mode, Mode::Prime);
    assert!(matches!(service.set_mode(Some(&writer), &mut config, None), Err(AdminError::Internal(m)) if m == "invalid mode"));
    assert!(service.set_mode(Some(&reader), &mut config, Some(Mode::Light)).is_err());
    assert_eq!(config.consensus.mode, Mode::Prime);
    assert!(service.set_node_name(Some(&writer), &mut config, "Node A".to_string()).is_ok());
    assert_eq!(service.get_node_name(Some(&reader), &config).ok(), Some("Node A".to_string()));
    assert_eq!(service.get_chain(Some(&reader), &config).ok(), Some("dev".to_string()));
    let superadmin = vec!["superadmin".to_string()];
    assert!(service.get_chain(Some(&superadmin), &config).is_ok());
}

fn block(txs: Vec<Transaction>) -> SignedBlock {
    SignedBlock {
        signature: vec![1, 1],
        public_key: vec![2, 2],
        timestamp: 77,
        data: Some(BlockData { version: 0, signature_type: 0, balance: 9, height: 3, previous: vec![], transactions: txs }),
    }
}

#[test]
fn sql_rows_of_a_block() {
    let txs = vec![
        Transaction { data: Some(Data::TxOpen(TxOpen {})) },
        Transaction { data: Some(Data::TxDelegate(TxDelegate { representative: vec![5u8; 24] })) },
        Transaction { data: Some(Data::TxSend(TxSend { receiver: vec![6u8; 24], amount: 1, data: vec![] })) },
        Transaction { data: Some(Data::TxDelegate(TxDelegate { representative: vec![7u8; 24] })) },
    ];
    let b = block(txs);
    let ids = vec![Some([1u8; 32]), Some([2u8; 32]), Some([3u8; 32]), Some([4u8; 32])];
    let encs = vec![vec![10], vec![11], vec![12], vec![13]];
    let rows = block_rows(&b, &[9u8; 32], Some([8u8; 24]), &vec![99], &ids, &encs, false).expect("rows");
    assert_eq!(rows.block.block_id, vec![9u8; 32]);
    assert_eq!(rows.block.height, 3);
    assert_eq!(rows.block.timestamp, 77);
    assert_eq!(rows.block.version, BlockVersion::V1);
    assert_eq!(rows.block.data, vec![99]);
    assert_eq!(rows.new_account.as_ref().unwrap().latest_block, vec![9u8; 32]);
    assert_eq!(rows.transactions.len(), 4);
    assert_eq!(rows.transactions[1].tx_type, TxType::TxDelegate);
    assert_eq!(rows.transactions[2].tx_type, TxType::TxSend);
    assert_eq!(rows.transactions[3].data, vec![13]);
    assert_eq!(rows.new_delegate, Some(vec![7u8; 24]));

    let known = block_rows(&b, &[9u8; 32], Some([8u8; 24]), &vec![99], &ids, &encs, true).expect("rows");
    assert!(known.new_account.is_none());
    assert_eq!(known.latest_block, vec![9u8; 32]);
    assert!(known.claims.is_empty());

    assert_eq!(block_rows(&b, &[9u8; 32], None, &vec![99], &ids, &encs, false).err(), Some(SqlRowError::AccountIdFailed));
    let mut missing = ids.clone();
    missing[2] = None;
    assert_eq!(block_rows(&b, &[9u8; 32], Some([8u8; 24]), &vec![99], &missing, &encs, false).err(), Some(SqlRowError::InvalidTransactionData));
    let no_data = block(vec![Transaction { data: None }]);
    assert_eq!(block_rows(&no_data, &[9u8; 32], Some([8u8; 24]), &vec![99], &vec![Some([1u8; 32])], &vec![vec![1]], false).err(), Some(SqlRowError::InvalidTransactionData));
    let claim = block(vec![Transaction { data: Some(Data::TxCollect(TxClaim { transaction_id: vec![1; 32] })) }]);
    let r = block_rows(&claim, &[9u8; 32], Some([8u8; 24]), &vec![99], &vec![Some([1u8; 32])], &vec![vec![1]], false).expect("rows");
    assert_eq!(r.transactions[0].tx_type, TxType::TxCollect);
    assert_eq!(r.new_delegate, None);
    assert_eq!(r.claims.len(), 1);
    assert_eq!(r.claims[0].send_tx_id, vec![1u8; 32]);
    assert_eq!(r.claims[0].claim_tx_id, vec![1u8; 32]);
    let two_claims = block(vec![
        Transaction { data: Some(Data::TxCollect(TxClaim { transaction_id: vec![5; 32] })) },
        Transaction { data: Some(Data::TxOpen(TxOpen {})) },
        Transaction { data: Some(Data::TxCollect(TxClaim { transaction_id: vec![6; 32] })) },
    ]);
    let ids = vec![Some([1u8; 32]), Some([2u8; 32]), Some([3u8; 32])];
    let r = block_rows(&two_claims, &[9u8; 32], Some([8u8; 24]), &vec![99], &ids, &vec![vec![1], vec![2], vec![3]], true)
        .expect("rows");
    assert_eq!(r.claims.len(), 2);
    assert_eq!((r.claims[0].send_tx_id.clone(), r.claims[0].claim_tx_id.clone()), (vec![5u8; 32], vec![1u8; 32]));
    assert_eq!((r.claims[1].send_tx_id.clone(), r.claims[1].claim_tx_id.clone()), (vec![6u8; 32], vec![3u8; 32]));
    assert_eq!(r.latest_block, vec![9u8; 32]);
}

fn facts(id: [u8; 32], account: [u8; 24]) -> BlockFacts {
    BlockFacts { block_id: Some(id), account_id: Some(account), signature_valid: true, transaction_ids: vec![], receivers_valid: vec![] }
}

#[test]
fn lattice_answers() {
    let service = LatticeService::new();
    let mut db = MockDB::new();
    let mut genesis = block(vec![]);
    genesis.data.as_mut().unwrap().height = 0;
    db.add_block(genesis, &facts([1u8; 32], [3u8; 24])).expect("add");
    assert_eq!(service.get_latest_block(&db, &[3u8; 24].to_vec()).ok().flatten().map(|b| b.timestamp), Some(77));
    assert!(matches!(service.get_latest_block(&db, &[4u8; 24].to_vec()), Err(s) if s.message == "couldn't get last block"));
    assert!(matches!(service.get_latest_block(&db, &vec![1]), Err(s) if s.message == "Address could not be parsed"));
    assert!(service.check_blocks_limit(100).is_ok());
    assert!(matches!(service.check_blocks_limit(101), Err(s) if s.message == "limit has to be < 100"));
    assert_eq!(service.submit_block(false, false, None, None).ok(), Some(SubmitStep::Done));
    assert_eq!(service.submit_block(true, false, None, None).ok(), Some(SubmitStep::Validate));
    assert!(matches!(service.submit_block(true, false, Some(false), None), Err(s) if s.message == "invalid block: validation"));
    assert_eq!(service.submit_block(true, false, Some(true), None).ok(), Some(SubmitStep::Store));
    assert_eq!(service.submit_block(true, true, None, Some(true)).ok(), Some(SubmitStep::Done));
    assert!(matches!(service.submit_block(true, true, None, Some(false)), Err(s) if s.message == "internal server error"));
    let _ = db.get_block_by_id([1u8; 32]);
}

#[test]
fn login_looks_users_up_in_lower_case() {
    let service = NodeUserService::new();
    let alice = UserAccount { permissions: vec!["admin.read".to_string()], user_id: "id-a".to_string(), password_hash: "h".to_string() };
    let users = vec![("alice".to_string(), alice)];
    let (name, account) = service.find_user(&users, "ALICE").ok().expect("alice is configured");
    assert_eq!(name, "alice");
    assert_eq!(account.user_id, "id-a");
    assert!(matches!(service.find_user(&users, "bob"), Err(s) if s.message == "invalid username"));
    assert_eq!(service.login_answer(true, Some("token".to_string())).ok(), Some("token".to_string()));
    assert!(matches!(service.login_answer(false, Some("token".to_string())), Err(s) if s.message == "invalid password"));
    assert!(matches!(service.login_answer(true, None), Err(s) if s.message == "could not create token"));
}

#[test]
fn users_are_found_by_exact_name() {
    let service = NodeUserService::new();
    let a = UserAccount { permissions: vec![], user_id: "first".to_string(), password_hash: String::new() };
    let b = UserAccount { permissions: vec![], user_id: "second".to_string(), password_hash: String::new() };
    let users = vec![("bob".to_string(), a), ("bob".to_string(), b)];
    assert_eq!(service.find_user_named(&users, &"bob".to_string()).ok().map(|u| u.user_id.clone()), Some("first".to_string()));
    assert!(service.find_user_named(&users, &"Bob".to_string()).is_err());
}

#[test]
fn primary_wallet_must_be_configured_to_unlock() {
    assert_eq!(primary_wallet_to_unlock(&Some("abc".to_string())), Ok("abc".to_string()));
    assert_eq!(
        primary_wallet_to_unlock(&None),
        Err("CHAMP_PRIMARY_WALLET_PASSWORD defined but no primary wallet to unlock. Specify primary wallet in config.consensus.primary_wallet".to_string())
    );
}

#[test]
fn peer_server_needs_a_known_primary_wallet() {
    let mut wallets = WalletManager::new();
    assert!(matches!(node_wallet(&wallets, None), Err(m) if m == "no primary wallet found"));
    assert!(matches!(node_wallet(&wallets, Some("abc")), Err(m) if m == "no primary wallet found"));
    wallets.create_wallet("abc", Ok(vec![1u8; 24])).expect("create");
    assert_eq!(node_wallet(&wallets, Some("abc")).expect("wallet").account_address, "abc");
}
