use polytorus::hashing::{hash_pub_key, meets_target, sha256_hex, to_hex};

#[test]
fn hex_text_of_bytes() {
    assert_eq!(to_hex(&[0x00, 0xff, 0x1a]), "00ff1a");
    assert_eq!(to_hex(&[]), "");
}

#[test]
fn sha256_hex_of_abc() {
    assert_eq!(
        sha256_hex(b"abc"),
        "ba7816bf8f01cfea414140de5dae2223b00361a396177a9cb410ff61f20015ad"
    );
}

#[test]
fn pub_key_hash_is_hash160() {
    let mut key: Vec<u8> = Vec::new();
    hash_pub_key(&mut key);
    assert_eq!(key.len(), 20);
    assert_eq!(to_hex(&key), "b472a266d0bd89c13706a4132ccfb16f7c3b9fcb");
}

#[test]
fn target_prefix_counts_leading_zeros() {
    assert!(meets_target("00ab", 2));
    assert!(!meets_target("0a0b", 2));
    assert!(meets_target("abc", 0));
    assert!(meets_target("0", 3));
    assert!(!meets_target("10", 1));
}
