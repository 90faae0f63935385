use blockchain::block::{Block, BlockSearch, BlockSearchResult};
use blockchain::blockchain::{
    transfer_bytes, Blockchain, MineError, RejectReason, Transaction, MINING_REWARD, MINING_SENDER,
};
use blockchain::codec::RawTransaction;
use blockchain::wallet::Wallet;

fn reward_from_sentinel(to: &str, amount: i64) -> Transaction {
    Transaction {
        sender: MINING_SENDER.to_string(),
        receiver: to.to_string(),
        amount,
        public_key: String::new(),
        signature: String::new(),
    }
}

#[test]
fn new_ledger_holds_genesis_only() {
    let bc = Blockchain::new("miner".to_string());
    assert_eq!(bc.chain.len(), 1);
    assert_eq!(bc.chain[0].nonce, 0);
    assert_eq!(bc.chain[0].previous_hash, vec![0u8; 32]);
    assert!(bc.chain[0].transactions.is_empty());
    assert!(bc.transaction_pool.is_empty());
    assert_eq!(bc.address(), "miner");
    assert!(Blockchain::chain_is_valid(&bc.chain));
}

#[test]
fn last_block_is_newest() {
    let mut bc = Blockchain::new("miner".to_string());
    assert_eq!(bc.last_block().unwrap().hash(), bc.chain[0].hash());
    bc.mine().unwrap();
    assert_eq!(bc.last_block().unwrap().hash(), bc.chain[1].hash());
}

#[test]
fn mined_chains_are_valid() {
    let mut bc = Blockchain::new("miner".to_string());
    for _ in 0..2 {
        let h = bc.mine().unwrap();
        assert!(h.starts_with(&[0, 0]));
        assert!(Blockchain::chain_is_valid(&bc.chain));
    }
    assert_eq!(bc.chain.len(), 3);
    assert_eq!(bc.chain[2].previous_hash, bc.chain[1].hash());
    assert_eq!(bc.chain[1].previous_hash, bc.chain[0].hash());
}

#[test]
fn mine_drains_pool_and_pays_reward() {
    let mut bc = Blockchain::new("miner".to_string());
    bc.add_transaction(&reward_from_sentinel("alice", 5)).unwrap();
    let h = bc.mine().unwrap();
    assert!(bc.transaction_pool.is_empty());
    assert_eq!(bc.chain.len(), 2);
    assert_eq!(h, bc.chain[1].hash());
    let block = &bc.chain[1];
    assert_eq!(block.transactions.len(), 2);
    let reward = RawTransaction::decode(&block.transactions[1]).unwrap();
    assert_eq!(reward.sender_address, MINING_SENDER.as_bytes().to_vec());
    assert_eq!(reward.recipient_address, b"miner".to_vec());
    assert_eq!(reward.value, MINING_REWARD);
    assert_eq!(bc.calculate_reward("miner".to_string()), 1);
    assert_eq!(bc.calculate_reward("alice".to_string()), 5);
}

#[test]
fn mining_with_the_sentinel_as_miner_fails() {
    let mut bc = Blockchain::new(MINING_SENDER.to_string());
    assert!(matches!(bc.mine(), Err(MineError::RewardRejected)));
    assert_eq!(bc.chain.len(), 1);
    assert!(bc.transaction_pool.is_empty());
}

#[test]
fn pending_reward_duplicate_fails_mining() {
    let mut bc = Blockchain::new("miner".to_string());
    bc.add_transaction(&reward_from_sentinel("miner", MINING_REWARD)).unwrap();
    assert!(matches!(bc.mine(), Err(MineError::RewardRejected)));
    assert_eq!(bc.chain.len(), 1);
    assert_eq!(bc.transaction_pool.len(), 1);
}

#[test]
fn self_transfer_is_rejected_whatever_the_signature() {
    let mut bc = Blockchain::new("miner".to_string());
    let w = Wallet::new();
    let t = w.sign_transaction(w.address(), 3).unwrap();
    assert!(Wallet::verify_transaction(&t));
    assert!(matches!(bc.add_transaction(&t), Err(RejectReason::SelfTransfer)));
    let unsigned = reward_from_sentinel(MINING_SENDER, 3);
    assert!(matches!(bc.add_transaction(&unsigned), Err(RejectReason::SelfTransfer)));
    assert!(bc.transaction_pool.is_empty());
}

#[test]
fn bad_signature_is_rejected() {
    let mut bc = Blockchain::new("miner".to_string());
    let a = Wallet::new();
    let c = Wallet::new();
    let mut t = a.sign_transaction("bob".to_string(), 4).unwrap();
    t.signature = c.sign_transaction("bob".to_string(), 4).unwrap().signature;
    assert!(matches!(bc.add_transaction(&t), Err(RejectReason::BadSignature)));
    let mut altered = a.sign_transaction("bob".to_string(), 4).unwrap();
    altered.amount = 400;
    assert!(matches!(bc.add_transaction(&altered), Err(RejectReason::BadSignature)));
    let mut garbled = a.sign_transaction("bob".to_string(), 4).unwrap();
    garbled.signature = "zz".to_string();
    assert!(matches!(bc.add_transaction(&garbled), Err(RejectReason::BadSignature)));
    assert!(bc.transaction_pool.is_empty());
}

#[test]
fn reward_sender_needs_no_signature() {
    let mut bc = Blockchain::new("miner".to_string());
    assert!(bc.add_transaction(&reward_from_sentinel("carol", 2)).is_ok());
    assert_eq!(bc.transaction_pool.len(), 1);
}

#[test]
fn same_transaction_twice_gives_one_entry() {
    let mut bc = Blockchain::new("miner".to_string());
    let w = Wallet::new();
    let t = w.sign_transaction("bob".to_string(), 9).unwrap();
    assert!(bc.add_transaction(&t).is_ok());
    assert!(matches!(bc.add_transaction(&t), Err(RejectReason::Duplicate)));
    assert_eq!(bc.transaction_pool.len(), 1);
    assert_eq!(bc.transaction_pool[0], transfer_bytes(&t));
}

#[test]
fn add_verified_transaction_follows_the_flag() {
    let mut bc = Blockchain::new("miner".to_string());
    let t = Transaction {
        sender: "dave".to_string(),
        receiver: "erin".to_string(),
        amount: 1,
        public_key: String::new(),
        signature: String::new(),
    };
    assert!(matches!(bc.add_verified_transaction(&t, false), Err(RejectReason::BadSignature)));
    assert!(bc.add_verified_transaction(&t, true).is_ok());
    assert!(matches!(bc.add_verified_transaction(&t, true), Err(RejectReason::Duplicate)));
    assert_eq!(bc.transaction_pool.len(), 1);
}

#[test]
fn clear_transactions_empties_pool() {
    let mut bc = Blockchain::new("miner".to_string());
    bc.add_transaction(&reward_from_sentinel("carol", 2)).unwrap();
    bc.clear_transactions();
    assert!(bc.transaction_pool.is_empty());
    assert_eq!(bc.chain.len(), 1);
}

#[test]
fn signed_transfer_end_to_end() {
    let a = Wallet::new();
    let b = Wallet::new();
    let mut node = Blockchain::new("reward-address".to_string());
    let t = a.sign_transaction(b.address(), 10).unwrap();
    assert!(node.add_transaction(&t).is_ok());
    assert_eq!(node.transaction_pool.len(), 1);
    node.mine().unwrap();
    assert_eq!(node.transaction_pool.len(), 0);
    assert_eq!(node.chain.len(), 2);
    assert_eq!(node.chain[1].transactions.len(), 2);
    assert_eq!(node.chain[1].transactions[0], transfer_bytes(&t));
    assert_eq!(node.calculate_reward(b.address()), 10);
    assert_eq!(node.calculate_reward(a.address()), -10);
    assert_eq!(node.calculate_reward("reward-address".to_string()), MINING_REWARD as i128);
}

#[test]
fn balance_skips_corrupt_records() {
    let mut bc = Blockchain::new("miner".to_string());
    let good = RawTransaction::new(b"x".to_vec(), b"y".to_vec(), 7).encode();
    bc.chain.push(Block {
        nonce: 0,
        previous_hash: vec![],
        timestamp: 0,
        transactions: vec![vec![1, 2, 3], good],
    });
    assert_eq!(bc.calculate_reward("y".to_string()), 7);
    assert_eq!(bc.calculate_reward("x".to_string()), -7);
    assert_eq!(bc.calculate_reward("z".to_string()), 0);
}

#[test]
fn tampering_with_a_mined_block_invalidates_the_chain() {
    let mut bc = Blockchain::new("miner".to_string());
    bc.add_transaction(&reward_from_sentinel("carol", 2)).unwrap();
    bc.mine().unwrap();
    bc.mine().unwrap();
    assert!(Blockchain::chain_is_valid(&bc.chain));

    let mut c = bc.chain.clone();
    c[1].transactions[0][9] ^= 1;
    assert!(!Blockchain::chain_is_valid(&c));

    let mut c = bc.chain.clone();
    c[1].nonce = c[1].nonce.wrapping_add(1);
    assert!(!Blockchain::chain_is_valid(&c));

    let mut c = bc.chain.clone();
    c[1].timestamp ^= 1;
    assert!(!Blockchain::chain_is_valid(&c));

    let mut c = bc.chain.clone();
    c[2].previous_hash[31] ^= 1;
    assert!(!Blockchain::chain_is_valid(&c));
}

#[test]
fn broken_link_fails_even_when_work_target_is_met() {
    let mut a = Blockchain::new("a".to_string());
    a.mine().unwrap();
    a.mine().unwrap();
    let mut b = Blockchain::new("b".to_string());
    b.mine().unwrap();
    b.mine().unwrap();
    let crafted = vec![a.chain[0].clone(), a.chain[1].clone(), b.chain[2].clone()];
    assert!(Blockchain::chain_is_valid(&vec![b.chain[0].clone(), b.chain[1].clone(), b.chain[2].clone()]));
    assert!(!Blockchain::chain_is_valid(&crafted));
}

#[test]
fn empty_chain_is_not_valid() {
    assert!(!Blockchain::chain_is_valid(&vec![]));
}

#[test]
fn search_finds_first_match() {
    let mut bc = Blockchain::new("miner".to_string());
    bc.add_transaction(&reward_from_sentinel("carol", 2)).unwrap();
    bc.mine().unwrap();
    let tx = bc.chain[1].transactions[0].clone();
    let genesis_hash = bc.chain[0].hash();
    match bc.search_block(BlockSearch::SearchByIndex(1)) {
        BlockSearchResult::Success(b) => assert_eq!(b.hash(), bc.chain[1].hash()),
        _ => panic!("index 1 exists"),
    }
    match bc.search_block(BlockSearch::SearchByTransaction(tx)) {
        BlockSearchResult::Success(b) => assert_eq!(b.hash(), bc.chain[1].hash()),
        _ => panic!("transaction is in block 1"),
    }
    match bc.search_block(BlockSearch::SearchByPreviousHash(genesis_hash.clone())) {
        BlockSearchResult::Success(b) => assert_eq!(b.hash(), bc.chain[1].hash()),
        _ => panic!("block 1 links to genesis"),
    }
    match bc.search_block(BlockSearch::SearchByBlockHash(genesis_hash)) {
        BlockSearchResult::Success(b) => assert_eq!(b.nonce, 0),
        _ => panic!("genesis is in the chain"),
    }
    match bc.search_block(BlockSearch::SearchByNonce(0)) {
        BlockSearchResult::Success(b) => assert_eq!(b.hash(), bc.chain[0].hash()),
        _ => panic!("genesis has nonce 0"),
    }
    let ts = bc.chain[1].timestamp;
    match bc.search_block(BlockSearch::SearchByTimestamp(ts)) {
        BlockSearchResult::Success(b) => assert_eq!(b.timestamp, ts),
        _ => panic!("timestamp of block 1"),
    }
}

#[test]
fn search_misses_carry_the_criterion() {
    let bc = Blockchain::new("miner".to_string());
    assert!(matches!(
        bc.search_block(BlockSearch::SearchByIndex(5)),
        BlockSearchResult::FailOfIndex(5)
    ));
    assert!(matches!(
        bc.search_block(BlockSearch::SearchByNonce(77)),
        BlockSearchResult::FailOfNonce(77)
    ));
    assert!(matches!(
        bc.search_block(BlockSearch::SearchByTimestamp(1)),
        BlockSearchResult::FailOfTimestamp(1)
    ));
    match bc.search_block(BlockSearch::SearchByTransaction(vec![4, 5])) {
        BlockSearchResult::FailOfTransaction(t) => assert_eq!(t, vec![4, 5]),
        _ => panic!("no transactions in genesis"),
    }
    match bc.search_block(BlockSearch::SearchByBlockHash(vec![1])) {
        BlockSearchResult::FailOfBlockHash(h) => assert_eq!(h, vec![1]),
        _ => panic!("no such hash"),
    }
    match bc.search_block(BlockSearch::SearchByPreviousHash(vec![2])) {
        BlockSearchResult::FailOfPreviousHash(h) => assert_eq!(h, vec![2]),
        _ => panic!("no such link"),
    }
}

#[test]
fn search_on_empty_chain_reports_empty() {
    let mut bc = Blockchain::new("miner".to_string());
    bc.chain.clear();
    assert!(matches!(
        bc.search_block(BlockSearch::SearchByIndex(0)),
        BlockSearchResult::FailOfEmptyBlocks
    ));
    assert!(bc.last_block().is_none());
}

#[test]
fn pending_transfers_are_listed_without_credentials() {
    let mut bc = Blockchain::new("miner".to_string());
    let w = Wallet::new();
    let t = w.sign_transaction("bob".to_string(), 6).unwrap();
    bc.add_transaction(&t).unwrap();
    bc.add_transaction(&reward_from_sentinel("carol", 2)).unwrap();
    bc.transaction_pool.push(vec![9, 9]);
    let listed = bc.get_transactions();
    assert_eq!(listed.len(), 2);
    assert_eq!(listed[0].sender, w.address());
    assert_eq!(listed[0].receiver, "bob");
    assert_eq!(listed[0].amount, 6);
    assert!(listed[0].public_key.is_empty());
    assert!(listed[0].signature.is_empty());
    assert_eq!(listed[1].sender, MINING_SENDER);
    assert_eq!(listed[1].receiver, "carol");
    assert_eq!(listed[1].amount, 2);
}

#[test]
fn blocks_are_equal_when_hashes_are() {
    let a = Block { nonce: 1, previous_hash: vec![1], timestamp: 5, transactions: vec![vec![1, 2]] };
    let b = a.clone();
    assert!(a == b);
    let mut c = a.clone();
    c.nonce = 2;
    assert!(a != c);
    let split = Block { nonce: 1, previous_hash: vec![1], timestamp: 5, transactions: vec![vec![1], vec![2]] };
    assert!(a == split);
}
