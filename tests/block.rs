use blockchain::block::{hash_meets_target, Block};
use blockchain::encoding::{hex_encode, sha256};

fn sample() -> Block {
    Block {
        nonce: 7,
        previous_hash: vec![1, 2, 3],
        timestamp: 0x0102030405060708090a0b0c0d0e0f10,
        transactions: vec![vec![0xaa], vec![0xbb, 0xcc]],
    }
}

#[test]
fn hash_is_sha256_of_fields_in_order() {
    assert_eq!(
        hex_encode(&sample().hash()),
        "b225b740ca0c1a2e3c71ce783b4b2b82fb8781a6705aebad3b1a9315baf8c6aa"
    );
}

#[test]
fn hash_is_deterministic() {
    let a = sample();
    let b = sample();
    assert_eq!(a.hash(), a.hash());
    assert_eq!(a.hash(), b.hash());
}

#[test]
fn hash_changes_with_nonce() {
    let a = sample();
    let mut b = sample();
    b.increment_nonce();
    assert_eq!(b.nonce, 8);
    assert_ne!(a.hash(), b.hash());
}

#[test]
fn increment_nonce_wraps() {
    let mut b = sample();
    b.nonce = u32::MAX;
    b.increment_nonce();
    assert_eq!(b.nonce, 0);
}

#[test]
fn new_block_is_empty() {
    let b = Block::new(3, vec![9; 32]);
    assert_eq!(b.nonce, 3);
    assert_eq!(b.previous_hash, vec![9; 32]);
    assert!(b.transactions.is_empty());
    assert!(b.timestamp > 0);
}

#[test]
fn sha256_of_empty_input() {
    assert_eq!(
        hex_encode(&sha256(&vec![])),
        "e3b0c44298fc1c149afbf4c8996fb92427ae41e4649b934ca495991b7852b855"
    );
}

#[test]
fn work_target_counts_leading_hex_zeros() {
    assert!(hash_meets_target(&vec![0, 0, 0xff]));
    assert!(hash_meets_target(&vec![0, 0]));
    assert!(!hash_meets_target(&vec![0, 0x01, 0]));
    assert!(!hash_meets_target(&vec![0, 0x10]));
    assert!(!hash_meets_target(&vec![0]));
    assert!(!hash_meets_target(&vec![]));
}

#[test]
fn proof_of_work_finds_a_hash_meeting_the_target() {
    let mut b = sample();
    assert!(blockchain::blockchain::proof_of_work(&mut b));
    assert!(hash_meets_target(&b.hash()));
    assert_eq!(&b.hash()[..2], &[0, 0]);
    assert_eq!(b.previous_hash, vec![1, 2, 3]);
    assert_eq!(b.transactions, vec![vec![0xaa], vec![0xbb, 0xcc]]);
}

#[test]
fn proof_of_work_reports_exhausted_nonces() {
    let mut b = sample();
    b.nonce = u32::MAX;
    if !hash_meets_target(&b.hash()) {
        assert!(!blockchain::blockchain::proof_of_work(&mut b));
        assert_eq!(b.nonce, u32::MAX);
    }
}
