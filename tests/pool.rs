use polytorus::domain::transaction::{TXInput, TXOutput, Transaction};
use polytorus::domain::wallet::Wallet;
use polytorus::wallet::transaction_pool::Pool;

fn tx(id: &str, value: i32) -> Transaction {
    Transaction {
        id: id.to_string(),
        input: vec![TXInput { id: "p".to_string(), out: 0, signature: vec![], pub_key: vec![] }],
        output: vec![TXOutput { value, pub_key_hash: vec![1] }],
    }
}

#[test]
fn test_pool_new() {
    let pool = Pool::new();
    assert!(pool.transactions().is_empty());
}

#[test]
fn same_id_keeps_one_entry_equal_to_latest() {
    let mut pool = Pool::new();
    pool.update_or_add_transaction(tx("a", 1));
    pool.update_or_add_transaction(tx("b", 2));
    pool.update_or_add_transaction(tx("a", 3));
    let txs = pool.transactions();
    assert_eq!(txs.len(), 2);
    assert_eq!(txs.iter().filter(|t| t.id == "a").count(), 1);
    assert_eq!(txs[0].id, "a");
    assert_eq!(txs[0].output[0].value, 3);
    assert_eq!(txs[1].output[0].value, 2);
}

#[test]
fn has_transaction_and_clear() {
    let mut pool = Pool::new();
    pool.update_or_add_transaction(tx("a", 1));
    assert!(pool.has_transaction(&"a".to_string()));
    assert!(!pool.has_transaction(&"b".to_string()));
    pool.clear();
    assert!(pool.transactions().is_empty());
    assert!(!pool.has_transaction(&"a".to_string()));
}

#[test]
fn test_valid_transactions() {
    let w = Wallet::new();
    let prev = Transaction::new_coinbase(w.get_address(), String::new()).unwrap();
    let prevs = vec![prev.clone()];
    let mut good = Transaction {
        id: "good".to_string(),
        input: vec![TXInput { id: prev.id.clone(), out: 0, signature: vec![], pub_key: w.public_key.0.clone() }],
        output: vec![TXOutput { value: 10, pub_key_hash: vec![2; 20] }],
    };
    good.sign(&w.secret_key, &prevs).unwrap();
    let unsigned = Transaction { id: "unsigned".to_string(), ..good.clone() };
    let mut unsigned = unsigned;
    unsigned.input[0].signature.clear();
    let orphan = tx("orphan", 1);
    let mut pool = Pool::new();
    pool.update_or_add_transaction(unsigned);
    pool.update_or_add_transaction(good);
    pool.update_or_add_transaction(orphan);
    pool.update_or_add_transaction(prev.clone());
    let valid = pool.valid_transactions(&prevs);
    let ids: Vec<&str> = valid.iter().map(|t| t.id.as_str()).collect();
    assert_eq!(ids, vec!["good", prev.id.as_str()]);
}

#[test]
fn find_by_sender_returns_first_spender() {
    let mut pool = Pool::new();
    let mut a = tx("a", 1);
    a.input[0].pub_key = vec![5, 5];
    let mut b = tx("b", 2);
    b.input[0].pub_key = vec![5, 5];
    pool.update_or_add_transaction(tx("z", 0));
    pool.update_or_add_transaction(a);
    pool.update_or_add_transaction(b);
    assert_eq!(pool.find_by_sender(&[5, 5]).unwrap().id, "a");
    assert!(pool.find_by_sender(&[6]).is_none());
}
