use fn_dsa::{signature_size, SigningKey, SigningKeyStandard, VerifyingKey, VerifyingKeyStandard, DOMAIN_NONE, HASH_ID_RAW};
use polytorus::domain::chain::Chain;
use polytorus::domain::transaction::{TXInput, TXOutput, Transaction};
use polytorus::domain::utxo::{UTXOSet, UtxoEntry};
use polytorus::domain::wallet::Wallet;
use polytorus::error::LedgerError;
use polytorus::hashing::hash_pub_key;
use polytorus::wallet::transaction_pool::Pool;
use rand_core::OsRng;

fn funded(w: &Wallet) -> (Transaction, UTXOSet) {
    let prev = Transaction::new_coinbase(w.get_address(), String::new()).unwrap();
    let set = UTXOSet::new(vec![UtxoEntry { tx_id: prev.id.clone(), index: 0, output: prev.output[0].clone() }]);
    (prev, set)
}

#[test]
fn test_wallet_new() {
    let wallet = Wallet::new();
    assert!(!wallet.public_key.0.is_empty());
    assert!(!wallet.secret_key.0.is_empty());
}

#[test]
fn test_wallet_sign() {
    let wallet = Wallet::new();
    let message = "Hello, world!";
    let signature = wallet.sign(message.as_bytes());
    assert!(signature.is_some());
}

#[test]
fn test_wallet_verify() {
    let wallet = Wallet::new();
    let message = "Hello, world!";
    let signature = wallet.sign(message.as_bytes()).unwrap();
    assert!(wallet.verify(message.as_bytes(), &signature));
    assert!(!wallet.verify(b"Hello, world?", &signature));
    assert!(!Wallet::new().verify(message.as_bytes(), &signature));
}

#[test]
fn test_wallet_blockchain_wallet() {
    let wallet = Wallet::blockchain_wallet();
    assert_eq!(wallet, Wallet::blockchain_wallet());
    let sig = wallet.sign(b"m").unwrap();
    assert!(wallet.verify(b"m", &sig));
}

#[test]
fn test_create_wallet_and_hash() {
    let w1 = Wallet::new();
    let w2 = Wallet::new();
    assert_ne!(w1, w2);
    assert_ne!(w1.get_address(), w2.get_address());

    let mut p2 = w2.public_key.0.clone();
    hash_pub_key(&mut p2);
    assert_eq!(p2.len(), 20);
    let pub_key_hash = bitcoincash_addr::Address::decode(&w2.get_address()).unwrap().body;
    assert_eq!(pub_key_hash, p2);
}

#[test]
fn test_signature() {
    let w = Wallet::new();
    let mut sk = SigningKeyStandard::decode(&w.secret_key.0).unwrap();
    let mut sig = vec![0u8; signature_size(sk.get_logn())];
    sk.sign(&mut OsRng, &DOMAIN_NONE, &HASH_ID_RAW, b"message", &mut sig);

    match VerifyingKeyStandard::decode(&w.public_key.0) {
        Some(vk) => {
            assert!(vk.verify(&sig, &DOMAIN_NONE, &HASH_ID_RAW, b"message"));
        }
        None => {
            panic!("failed to decode verifying key");
        }
    }
}

#[test]
fn amount_above_balance_is_insufficient_and_pool_unchanged() {
    let w = Wallet::new();
    let (prev, set) = funded(&w);
    let mut pool = Pool::new();
    let r = w.create_transaction(&Wallet::new().get_address(), 11, &set, &vec![prev], &mut pool);
    assert_eq!(r.unwrap_err(), LedgerError::InsufficientFunds);
    assert!(pool.transactions().is_empty());
}

#[test]
fn test_pool_update_or_add_transaction() {
    let w = Wallet::new();
    let recipient = Wallet::new();
    let (prev, set) = funded(&w);
    let prevs = vec![prev.clone()];
    let mut pool = Pool::new();
    let tx = w.create_transaction(&recipient.get_address(), 4, &set, &prevs, &mut pool).unwrap();
    assert_eq!(tx.input.len(), 1);
    assert_eq!(tx.input[0].id, prev.id);
    assert_eq!(tx.input[0].out, 0);
    assert_eq!(tx.output.len(), 2);
    assert_eq!(tx.output[0].value, 4);
    assert_eq!(tx.output[0].pub_key_hash, recipient.key_hash());
    assert_eq!(tx.output[1].value, 6);
    assert_eq!(tx.output[1].pub_key_hash, w.key_hash());
    assert_eq!(tx.verify(&prevs), Ok(true));
    assert_eq!(pool.transactions().len(), 1);
    assert_eq!(pool.transactions()[0].id, tx.id);
}

#[test]
fn exact_amount_has_no_change() {
    let w = Wallet::new();
    let (prev, set) = funded(&w);
    let mut pool = Pool::new();
    let tx = w.create_transaction(&Wallet::new().get_address(), 10, &set, &vec![prev], &mut pool).unwrap();
    assert_eq!(tx.output.len(), 1);
}

#[test]
fn bad_recipient_or_amount_is_refused() {
    let w = Wallet::new();
    let (prev, set) = funded(&w);
    let mut pool = Pool::new();
    let prevs = vec![prev];
    assert_eq!(w.create_transaction("nope", 3, &set, &prevs, &mut pool).unwrap_err(), LedgerError::Validation);
    assert_eq!(
        w.create_transaction(&Wallet::new().get_address(), 0, &set, &prevs, &mut pool).unwrap_err(),
        LedgerError::Validation
    );
    assert_eq!(
        w.create_transaction(&Wallet::new().get_address(), 3, &set, &vec![], &mut pool).unwrap_err(),
        LedgerError::NotFound
    );
    assert!(pool.transactions().is_empty());
}

#[test]
fn balance_from_chain_history() {
    let w = Wallet::new();
    let chain = Chain::new();
    assert_eq!(w.calc_balance(&chain, 100), 100);

    let mut chain = Chain::new();
    let spend = Transaction {
        id: "s".to_string(),
        input: vec![TXInput { id: "p".to_string(), out: 0, signature: vec![], pub_key: w.public_key.0.clone() }],
        output: vec![
            TXOutput { value: 30, pub_key_hash: vec![3; 20] },
            TXOutput { value: 70, pub_key_hash: w.key_hash() },
        ],
    };
    let gift = Transaction::new_coinbase(w.get_address(), String::new()).unwrap();
    chain.mine(vec![spend]).unwrap();
    chain.mine(vec![gift]).unwrap();
    assert_eq!(w.calc_balance(&chain, 100), 80);
}

#[test]
fn amount_above_utxo_balance_is_insufficient() {
    let w = Wallet::new();
    let (prev, set) = funded(&w);
    assert_eq!(set.balance(&w.key_hash()), 10);
    let mut pool = Pool::new();
    let r = w.create_transaction(&Wallet::new().get_address(), 10 + 1, &set, &vec![prev], &mut pool);
    assert_eq!(r.unwrap_err(), LedgerError::InsufficientFunds);
    assert!(pool.transactions().is_empty());
}

#[test]
fn second_send_extends_the_pending_transaction() {
    let w = Wallet::new();
    let r1 = Wallet::new();
    let r2 = Wallet::new();
    let (prev, set) = funded(&w);
    let prevs = vec![prev];
    let mut pool = Pool::new();
    let first = w.create_transaction(&r1.get_address(), 4, &set, &prevs, &mut pool).unwrap();
    let second = w.create_transaction(&r2.get_address(), 2, &set, &prevs, &mut pool).unwrap();
    assert_eq!(second.id, first.id);
    let values: Vec<i32> = second.output.iter().map(|o| o.value).collect();
    assert_eq!(values, vec![4, 4, 2]);
    assert_eq!(second.output[2].pub_key_hash, r2.key_hash());
    assert_eq!(second.verify(&prevs), Ok(true));
    assert_eq!(pool.transactions().len(), 1);
    assert_eq!(pool.transactions()[0].output.len(), 3);
    let r = w.create_transaction(&r1.get_address(), 5, &set, &prevs, &mut pool);
    assert_eq!(r.unwrap_err(), LedgerError::InsufficientFunds);
    assert_eq!(pool.transactions()[0].output.len(), 3);
}
