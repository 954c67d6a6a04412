use polytorus::blockchain::block::Block;

#[test]
fn block_new() {
    let block = Block::new(0, "foo".to_string(), "bar".to_string(), 0, "baz".to_string());

    assert_eq!(block.timestamp, 0);
    assert_eq!(block.last_hash, "foo".to_string());
    assert_eq!(block.hash, "bar".to_string());
    assert_eq!(block.nonce, 0);
    assert_eq!(block.data, "baz".to_string());
}

#[test]
fn block_display() {
    let block = Block::new(0, "foo".to_string(), "bar".to_string(), 0, "baz".to_string());

    assert_eq!(
        block.to_string(),
        "Block - Timestamp: 0, Last Hash: foo, Hash: bar, Data: baz"
    );
}

#[test]
fn block_genesis() {
    let genesis_block = Block::genesis();

    assert_eq!(genesis_block.timestamp, 0);
    assert_eq!(genesis_block.last_hash, "genesis_last_hash".to_string());
    assert_eq!(genesis_block.hash, "genesis_hash".to_string());
    assert_eq!(genesis_block.data, "genesis_data".to_string());
}

#[test]
fn block_mine_block() {
    let last_block = Block::genesis();
    let data = "mined data".to_string();
    let mined_block = Block::mine_block(&last_block, data.clone()).unwrap();

    assert_eq!(mined_block.last_hash, last_block.hash);
    assert_eq!(mined_block.data, data);
}

#[test]
fn block_hash() {
    let timestamp = 0;
    let last_hash = "foo".to_string();
    let nonce = 0;
    let data = "baz".to_string();
    let hash = Block::hash(timestamp, &last_hash, nonce, &data);
    let expected_hash = Block::hash(timestamp, &last_hash, nonce, &data);

    assert_eq!(hash, expected_hash);
}

#[test]
fn text_hash_is_sha256_of_fields_as_text() {
    let hash = Block::hash(0, &"foo".to_string(), 0, &"baz".to_string());
    assert_eq!(hash.len(), 64);
    assert_ne!(hash, Block::hash(1, &"foo".to_string(), 0, &"baz".to_string()));
    assert_ne!(hash, Block::hash(0, &"foo".to_string(), 10, &"baz".to_string()));
}

#[test]
fn mined_text_block_meets_target_and_rehashes() {
    let mined = Block::mine_block(&Block::genesis(), "payload".to_string()).unwrap();
    assert!(mined.hash.starts_with("00"));
    assert_eq!(Block::hash_block(&mined), mined.hash);
}

#[test]
fn display_writes_large_timestamp() {
    let block = Block::new(1234567890, "a".to_string(), "b".to_string(), 7, "c".to_string());
    assert_eq!(block.to_string(), "Block - Timestamp: 1234567890, Last Hash: a, Hash: b, Data: c");
}
