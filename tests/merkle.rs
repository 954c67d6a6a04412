use polytorus::domain::block::{Block, GENESIS_HASH};
use polytorus::domain::block_header::BlockHeader;
use polytorus::domain::proof_of_work::ProofOfWork;
use polytorus::domain::transaction::Transaction;
use polytorus::domain::wallet::Wallet;
use polytorus::error::LedgerError;
use sha2::{Digest, Sha256};

#[test]
fn merkle_root_of_one_transaction_is_its_hash_text() {
    let w = Wallet::new();
    let tx = Transaction::new_coinbase(w.get_address(), String::new()).unwrap();
    let block = Block::new(vec![tx.clone()], GENESIS_HASH.to_string(), 1).unwrap();
    assert_eq!(block.header.merkle_root, tx.hash().into_bytes());
    assert!(block.header.timestamp > 0);
}

#[test]
fn merkle_root_of_two_transactions_joins_their_hashes() {
    let w = Wallet::new();
    let a = Transaction::new_coinbase(w.get_address(), "a".to_string()).unwrap();
    let b = Transaction::new_coinbase(w.get_address(), "b".to_string()).unwrap();
    let block = Block::new(vec![a.clone(), b.clone()], GENESIS_HASH.to_string(), 1).unwrap();
    let mut joined = a.hash().into_bytes();
    joined.extend_from_slice(b.hash().as_bytes());
    assert_eq!(block.header.merkle_root, Sha256::digest(&joined).to_vec());
}

#[test]
fn empty_block_has_empty_merkle_root() {
    let block = Block::new(vec![], GENESIS_HASH.to_string(), 1).unwrap();
    assert!(block.header.merkle_root.is_empty());
    assert!(block.validate());
}

#[test]
fn search_gives_up_when_nonces_run_out() {
    let header = BlockHeader {
        timestamp: 0,
        prev_block_hash: String::new(),
        merkle_root: vec![],
        nonce: i32::MAX,
        height: 1,
    };
    let mut pow = ProofOfWork { header, target_prefix: 64 };
    assert_eq!(pow.run(), Err(LedgerError::Validation));
    assert_eq!(pow.header.height, 1);
}

#[test]
fn search_meets_requested_target() {
    let header = BlockHeader {
        timestamp: 0,
        prev_block_hash: "p".to_string(),
        merkle_root: vec![1],
        nonce: 0,
        height: 3,
    };
    let mut pow = ProofOfWork { header, target_prefix: 1 };
    pow.run().unwrap();
    assert!(pow.validate());
    assert!(pow.header.hash().starts_with('0'));
    assert_eq!(pow.header.prev_block_hash, "p");
}

#[test]
fn merkle_root_of_three_transactions_follows_the_array_layout() {
    let w = Wallet::new();
    let txs: Vec<Transaction> = ["a", "b", "c"]
        .iter()
        .map(|d| Transaction::new_coinbase(w.get_address(), d.to_string()).unwrap())
        .collect();
    let block = Block::new(txs.clone(), GENESIS_HASH.to_string(), 1).unwrap();
    let leaf = |i: usize| txs[i].hash().into_bytes();
    let join = |l: &[u8], r: &[u8]| {
        let mut v = l.to_vec();
        v.extend_from_slice(r);
        Sha256::digest(&v).to_vec()
    };
    // nodes: [root, n1, leaf0, leaf1, leaf2]; n1 joins nodes 3 and 4, the
    // root joins nodes 1 and 2.
    let n1 = join(&leaf(1), &leaf(2));
    assert_eq!(block.header.merkle_root, join(&n1, &leaf(0)));
}
