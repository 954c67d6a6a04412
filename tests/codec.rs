use polytorus::domain::block_header::BlockHeader;
use polytorus::domain::transaction::{TXInput, TXOutput, Transaction};

#[test]
fn header_encoding_matches_bincode() {
    let header = BlockHeader {
        timestamp: 1_700_000_000_123,
        prev_block_hash: "prev".to_string(),
        merkle_root: vec![1, 2, 3],
        nonce: -5,
        height: 7,
    };
    let expected = bincode::serialize(&(
        1_700_000_000_123u128,
        "prev".to_string(),
        vec![1u8, 2, 3],
        -5i32,
        7i32,
    ))
    .unwrap();
    assert_eq!(header.encode(), expected);
}

#[test]
fn transaction_encoding_matches_bincode() {
    let tx = Transaction {
        id: "id".to_string(),
        input: vec![TXInput { id: "prev".to_string(), out: -1, signature: vec![9], pub_key: vec![8, 7] }],
        output: vec![
            TXOutput { value: 10, pub_key_hash: vec![1; 20] },
            TXOutput { value: -3, pub_key_hash: vec![] },
        ],
    };
    let expected = bincode::serialize(&(
        "id".to_string(),
        vec![("prev".to_string(), -1i32, vec![9u8], vec![8u8, 7])],
        vec![(10i32, vec![1u8; 20]), (-3i32, Vec::<u8>::new())],
    ))
    .unwrap();
    assert_eq!(tx.encode(), expected);
}

#[test]
fn header_hash_changes_with_nonce() {
    let mut header = BlockHeader {
        timestamp: 0,
        prev_block_hash: String::new(),
        merkle_root: vec![],
        nonce: 0,
        height: 0,
    };
    let h0 = header.hash();
    header.nonce = 1;
    assert_eq!(h0.len(), 64);
    assert_ne!(h0, header.hash());
}
