use polytorus::cryptography::falcon512::{keygen, sign, verify};

#[test]
fn seeded_keys_are_reproducible() {
    let (sk1, pk1) = keygen([7; 32]);
    let (sk2, pk2) = keygen([7; 32]);
    assert_eq!(sk1, sk2);
    assert_eq!(pk1, pk2);
    let (_, pk3) = keygen([8; 32]);
    assert_ne!(pk1, pk3);
}

#[test]
fn falcon_signature_round_trip() {
    let (sk, pk) = keygen([1; 32]);
    let sig = sign(b"hello world", &sk).unwrap();
    assert!(verify(b"hello world", &sig, &pk));
    assert!(!verify(b"hello worle", &sig, &pk));
    let (_, other) = keygen([2; 32]);
    assert!(!verify(b"hello world", &sig, &other));
}
