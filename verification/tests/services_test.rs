use champ_node::api::{BlockData, BlockFacts, Data, SignedBlock, Transaction, TxDelegate};
use champ_node::blockpool::pool::{vote_reply, Blockpool, PoolReply};
use champ_node::cli::error::CLIError;
use champ_node::consensus::voting_power::{active_power, delegated_power, power_blocks, PowerError};
use champ_node::http::server::{HttpHandler, HttpServer};
use champ_node::metrics::{is_memes_request, MetricsServer, ServiceStatus};
use champ_node::p2p::metrics::connected_peers;
use champ_node::p2p::pogprotocol::{
    frame_for_request, frame_for_response, invalid_data_error, is_proto, request_from_frame, response_from_frame,
    CodecError, Frame, PogProtocol, PogRequest, PogResponse,
};
use champ_node::p2p::server::timestamp;
use champ_node::rpc::account::AccountService;
use champ_node::rpc::greeter::GreeterService;
use champ_node::storage::database::Database;
use champ_node::storage::mock::MockDB;
use champ_node::storage::rocksdb::RocksDB;
use champ_node::storage::scylla::{Scylla, Session};
use champ_node::storage::sql::entities::block::BlockVersion;
use champ_node::storage::sql::entities::transaction::TxType;
use champ_node::validation::block::{BlockValidationError, Node, Validation};

const PROTOBUF: u32 = 80;

#[test]
fn cli_error_messages() {
    assert_eq!(CLIError::Unknown("boom".to_string()).message(), "boom");
    assert_eq!(CLIError::Salt.message(), "error generating salt");
    assert_eq!(CLIError::UserExists.message(), "user already exists");
    assert_eq!(CLIError::NoKeyPair.message(), "please generate a JWT key pair with '$ champ admin generate-key' ");
    assert_eq!(CLIError::UnknownCommand.message(), "this command does not exist");
}

#[test]
fn stored_numbers_of_kinds() {
    assert_eq!(BlockVersion::V1.num_value(), 0);
    assert_eq!(BlockVersion::from_num_value(0), Some(BlockVersion::V1));
    assert_eq!(BlockVersion::from_num_value(1), None);
    assert_eq!(TxType::TxOpen.num_value(), 0);
    assert_eq!(TxType::TxSend.num_value(), 1);
    assert_eq!(TxType::TxCollect.num_value(), 2);
    assert_eq!(TxType::TxDelegate.num_value(), 3);
    for v in 0..4u8 {
        assert_eq!(TxType::from_num_value(v).unwrap().num_value(), v);
    }
    assert_eq!(TxType::from_num_value(4), None);
    let d = Data::TxDelegate(TxDelegate { representative: vec![] });
    assert_eq!(TxType::of_data(&d), TxType::TxDelegate);
}

#[test]
fn protocol_name_and_codec_checks() {
    assert_eq!(PogProtocol::new().protocol_name(), b"/pog/1".to_vec());
    assert!(is_proto(PROTOBUF as usize, PROTOBUF).is_ok());
    assert!(matches!(is_proto(1, PROTOBUF), Err(CodecError::InvalidData(m)) if m == "invalid coded"));
    assert!(matches!(invalid_data_error("invalid data"), CodecError::InvalidData(m) if m == "invalid data"));
}

#[test]
fn frames_round_trip() {
    let req = PogRequest { header: vec![1, 2], data: vec![3] };
    let frame = frame_for_request(req.clone(), PROTOBUF);
    let back = request_from_frame(frame, PROTOBUF).ok().expect("valid frame");
    assert_eq!((back.header, back.data), (req.header, req.data));
    let resp = PogResponse { header: vec![4], data: vec![5, 6] };
    let frame = frame_for_response(resp.clone(), PROTOBUF);
    assert_eq!(frame.associated_data, vec![4]);
    let back = response_from_frame(frame, PROTOBUF).ok().expect("valid frame");
    assert_eq!(back.data, vec![5, 6]);
    let bad = Frame { associated_data: vec![], associated_data_codec: 1, authenticated_data: vec![], authenticated_data_codec: PROTOBUF as usize };
    assert!(request_from_frame(bad, PROTOBUF).is_err());
}

#[test]
fn peers_count_as_connected_within_twenty_seconds() {
    let pings = vec![Some(100), Some(81), Some(80), None, Some(120)];
    assert_eq!(connected_peers(&pings, 100), 3);
    assert_eq!(connected_peers(&vec![], 100), 0);
}

#[test]
fn clock_is_after_the_epoch() {
    assert!(timestamp().expect("clock") > 1_600_000_000);
}

#[test]
fn greeting_and_http_answers() {
    assert_eq!(GreeterService::new().say_hello("Tonic"), "Hello Tonic!");
    assert_eq!(HttpHandler::handle(), "Hello, World");
    let _ = HttpServer::new();
    assert!(HttpServer::serves(true) && !HttpServer::serves(false));
}

#[test]
fn metrics_statuses() {
    assert_eq!(ServiceStatus::Starting.gauge_value(), 0);
    assert_eq!(ServiceStatus::Healthy.gauge_value(), 1);
    assert_eq!(ServiceStatus::Broken.gauge_value(), 2);
    let _ = MetricsServer::new();
    assert!(MetricsServer::start_statuses(false, true).is_empty());
    assert_eq!(MetricsServer::start_statuses(true, false), vec![ServiceStatus::Starting, ServiceStatus::Healthy]);
    assert_eq!(MetricsServer::start_statuses(true, true).len(), 3);
    assert!(is_memes_request("/show/memes/now"));
    assert!(!is_memes_request("/metrics"));
    assert!(!is_memes_request("meme"));
}

fn block(balance: u64, height: u64, timestamp: u64) -> SignedBlock {
    SignedBlock {
        signature: vec![1],
        public_key: vec![2],
        timestamp,
        data: Some(BlockData { version: 0, signature_type: 0, balance, height, previous: vec![], transactions: vec![] }),
    }
}

fn facts(id: [u8; 32], account: [u8; 24], txs: Vec<[u8; 32]>) -> BlockFacts {
    let n = txs.len();
    BlockFacts {
        block_id: Some(id),
        account_id: Some(account),
        signature_valid: true,
        transaction_ids: txs.into_iter().map(Some).collect(),
        receivers_valid: vec![true; n],
    }
}

#[test]
fn account_service_answers_from_the_store() {
    let mut db = MockDB::new();
    let account = [3u8; 24];
    db.add_block(block(100, 0, 10), &facts([1u8; 32], account, vec![])).expect("add");
    db.add_block(block(70, 1, 20), &facts([2u8; 32], account, vec![])).expect("add");
    let service = AccountService::new();
    assert_eq!(service.get_balance(&db, &account.to_vec()).ok(), Some(70));
    assert!(matches!(service.get_balance(&db, &vec![1, 2]), Err(s) if s.message == "Address could not be parsed"));
    assert!(matches!(service.get_balance(&db, &[9u8; 24].to_vec()), Err(s) if s.message == "internal server error"));
    assert_eq!(service.get_block_height(&db, &account.to_vec(), Some(true)).ok(), Some(2));
    assert_eq!(service.get_block_height(&db, &account.to_vec(), None).ok(), Some(1));
    assert!(matches!(service.get_block_height(&db, &[9u8; 24].to_vec(), None), Err(s) if s.message == "couldn't get last block"));
    assert_eq!(service.get_block_by_id(&db, &[1u8; 32].to_vec()).ok().map(|b| b.timestamp), Some(10));
    assert!(matches!(service.get_block_by_id(&db, &vec![1]), Err(s) if s.message == "couldn't parse address"));
    assert!(matches!(service.get_delegate(&db, &account.to_vec()), Err(s) if s.message == "internal server error"));
}

#[test]
fn voting_power_inputs_and_caps() {
    let mut db = MockDB::new();
    let account = [3u8; 24];
    let month = 2_592_000u64;
    db.add_block(block(100, 0, 10), &facts([1u8; 32], account, vec![])).expect("add");
    db.add_block(block(80, 1, 10 + month + 5), &facts([2u8; 32], account, vec![])).expect("add");
    db.add_block(block(60, 2, 10 + 3 * month), &facts([3u8; 32], account, vec![])).expect("add");
    let p = power_blocks(&db, account).ok().expect("blocks");
    assert_eq!(p.latest.timestamp, 10 + 3 * month);
    assert_eq!(p.old.timestamp, 10 + month + 5);
    assert_eq!(p.first.timestamp, 10);
    assert!(matches!(power_blocks(&db, [9u8; 24]), Err(PowerError::Database(_))));

    assert_eq!(active_power(10, 20, 100), 30);
    assert_eq!(active_power(80, 30, 100), 100);
    assert_eq!(delegated_power(&vec![1, 2, 3]), 6);
    assert_eq!(delegated_power(&vec![]), 0);
}

#[test]
fn blockpool_queues_blocks_at_quorum() {
    let mut pool = Blockpool::new();
    assert_eq!(pool.get_queue_size(), 0);
    let id = [1u8; 32];
    assert!(pool.begin_vote(&id));
    assert!(!pool.begin_vote(&id), "block already processed");
    assert!(matches!(pool.start_vote(&id), Some(PoolReply::AlreadyProcessed)));
    assert!(pool.start_vote(&[7u8; 32]).is_none());

    assert!(pool.process_block(block(1, 1, 1), &id, Ok(()), false).is_none());
    assert_eq!(pool.get_queue_size(), 0);
    assert!(matches!(pool.process_block(block(1, 1, 1), &id, Ok(()), true), Some(PoolReply::Done)));
    assert_eq!(pool.get_queue_size(), 1);
    // accepting the block forgot the vote on it
    assert!(pool.begin_vote(&id));

    let invalid = Err(BlockValidationError::Invalid(Validation::BlockHeightError));
    assert!(matches!(pool.process_block(block(1, 1, 1), &id, invalid, true), Some(PoolReply::Done)));
    let failed = Err(BlockValidationError::Error(Node::AsyncError));
    assert!(matches!(pool.process_block(block(1, 1, 1), &id, failed, true), Some(PoolReply::NodeError(Node::AsyncError))));
    assert_eq!(pool.get_queue_size(), 1);

    assert!(matches!(vote_reply(&Ok(())), PoolReply::Done));
}

#[test]
fn blockpool_records_votes() {
    let mut pool = Blockpool::new();
    let id = [2u8; 32];
    let other = [3u8; 32];
    pool.record_votes(&id, 5, 7);
    assert_eq!(pool.vote_total(&id), 12);
    pool.record_votes(&id, 1, 2);
    assert_eq!(pool.vote_total(&id), 15);
    pool.record_votes(&other, 100, 0);
    assert_eq!(pool.vote_total(&other), 100);
    assert_eq!(pool.vote_total(&id), 15);
    assert_eq!(pool.get_queue_size(), 0);
    assert!(matches!(vote_reply(&Err(BlockValidationError::Error(Node::TxNotFound))), PoolReply::NotImplemented));
}

#[test]
fn unattached_backends() {
    let _ = RocksDB::new();
    let _ = RocksDB::default();
    let mut s = Scylla::new();
    s.attach(Session { known_node: "127.0.0.1:9042".to_string() });
    assert_eq!(s.get_session().known_node, "127.0.0.1:9042");
    let statements = Scylla::schema_statements();
    assert_eq!(statements.len(), 2);
    assert!(statements[0].contains("champ_admin") && statements[1].contains("champ_chain"));
    let cfg = champ_node::storage::database::DatabaseConfig {
        kind: champ_node::storage::database::Databases::Sled,
        uri: Some("db:9042".to_string()),
        temporary: None,
        path: None,
        data_path: None,
    };
    let settings = Scylla::session_settings(&cfg);
    assert_eq!(settings.known_node, "db:9042");
    assert_eq!(settings.schema_agreement_interval_secs, 10);
}

#[test]
fn unused_imports_of_transactions() {
    let _ = Transaction { data: None };
    let db = MockDB::new();
    assert!(db.get_transaction_by_id([0u8; 32]).is_err());
}
