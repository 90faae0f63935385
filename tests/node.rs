use blockchain::blockchain::RejectReason;
use blockchain::node::{neighbor_candidates, ApiServer, PingResponse, TransactError, TransactionReqDTO};
use blockchain::wallet::Wallet;

fn request_from(w: &Wallet, to: &str) -> TransactionReqDTO {
    let d = w.get_details();
    TransactionReqDTO {
        private_key: d.private_key,
        public_key: d.public_key,
        blockchain_address: d.blockchain_address,
        recipient_address: to.to_string(),
        amount: "5".to_string(),
    }
}

#[test]
fn new_node_has_genesis_ledger() {
    let server = ApiServer::new(8000);
    assert_eq!(server.port, 8000);
    assert_eq!(server.blockchain.chain.len(), 1);
    assert!(server.blockchain.transaction_pool.is_empty());
    assert!(server.neighbors.is_empty());
    assert!(server.candidates.is_empty());
}

#[test]
fn neighbors_are_listed_once() {
    let mut server = ApiServer::new(8001);
    assert!(server.register_neighbor("127.0.0.1:8000".to_string()));
    assert!(!server.register_neighbor("127.0.0.1:8000".to_string()));
    assert!(server.register_neighbor("127.0.0.2:8000".to_string()));
    assert_eq!(server.neighbors, vec!["127.0.0.1:8000".to_string(), "127.0.0.2:8000".to_string()]);
}

#[test]
fn ping_acknowledgement() {
    assert!(PingResponse::pong().is_pong());
    assert_eq!(PingResponse::pong().pong, "pong");
    assert!(!PingResponse { pong: "ping".to_string() }.is_pong());
}

#[test]
fn transact_signs_and_pools() {
    let mut server = ApiServer::new(8002);
    let w = Wallet::new();
    let t = server.transact(&request_from(&w, "bob"), 5).unwrap();
    assert_eq!(t.sender, w.address());
    assert_eq!(t.receiver, "bob");
    assert_eq!(t.amount, 5);
    assert_eq!(server.blockchain.transaction_pool.len(), 1);
    assert!(matches!(
        server.transact(&request_from(&w, "bob"), 5),
        Err(TransactError::Rejected(RejectReason::Duplicate))
    ));
}

#[test]
fn transact_reports_bad_credentials_and_self_transfer() {
    let mut server = ApiServer::new(8003);
    let w = Wallet::new();
    let mut req = request_from(&w, "bob");
    req.private_key = "nothex".to_string();
    assert!(matches!(server.transact(&req, 5), Err(TransactError::MalformedCredential)));
    let to_self = request_from(&w, &w.address());
    assert!(matches!(
        server.transact(&to_self, 5),
        Err(TransactError::Rejected(RejectReason::SelfTransfer))
    ));
    assert!(server.blockchain.transaction_pool.is_empty());
}

#[test]
fn neighbor_candidates_skip_own_slot() {
    assert_eq!(
        neighbor_candidates(8000),
        vec![(2, 8000), (1, 8001), (2, 8001), (1, 8002), (2, 8002), (1, 8003), (2, 8003)]
    );
    assert_eq!(neighbor_candidates(8003).len(), 7);
    assert_eq!(neighbor_candidates(8003)[6], (2, 8003));
    assert_eq!(neighbor_candidates(9000).len(), 8);
}
