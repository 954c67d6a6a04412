use polytorus::domain::transaction::{TXInput, TXOutput, Transaction, SUBSIDY};
use polytorus::domain::wallet::Wallet;
use polytorus::error::LedgerError;

fn spend_of(prev: &Transaction, spender: &Wallet) -> Transaction {
    Transaction {
        id: "spend".to_string(),
        input: vec![TXInput {
            id: prev.id.clone(),
            out: 0,
            signature: vec![],
            pub_key: spender.public_key.0.clone(),
        }],
        output: vec![TXOutput { value: 10, pub_key_hash: vec![1; 20] }],
    }
}

#[test]
fn coinbase_pays_subsidy_to_address() {
    let w = Wallet::new();
    let tx = Transaction::new_coinbase(w.get_address(), String::new()).unwrap();
    assert!(tx.is_coinbase());
    assert_eq!(tx.output.len(), 1);
    assert_eq!(tx.output[0].value, SUBSIDY);
    assert_eq!(tx.output[0].pub_key_hash, w.key_hash());
    let note = format!("Reward to '{}'", w.get_address());
    assert_eq!(tx.input[0].pub_key, note.as_bytes().to_vec());
    let mut unsealed = tx.clone();
    unsealed.id = String::new();
    assert_eq!(tx.id, unsealed.hash());
}

#[test]
fn coinbase_keeps_given_data() {
    let w = Wallet::new();
    let tx = Transaction::new_coinbase(w.get_address(), "hello".to_string()).unwrap();
    assert_eq!(tx.input[0].pub_key, b"hello".to_vec());
    assert_eq!(tx.input[0].out, -1);
}

#[test]
fn coinbase_to_bad_address_is_refused() {
    let r = Transaction::new_coinbase("not an address".to_string(), String::new());
    assert_eq!(r.unwrap_err(), LedgerError::Validation);
}

#[test]
fn output_locks_to_decoded_address() {
    let w = Wallet::new();
    let out = TXOutput::new(3, &w.get_address()).unwrap();
    assert_eq!(out.value, 3);
    assert_eq!(out.pub_key_hash, w.key_hash());
    assert!(out.is_locked_with_key(&w.key_hash()));
    assert!(TXOutput::new(3, "zzz").is_err());
}

#[test]
fn trim_copy_clears_signatures_and_keys() {
    let tx = Transaction {
        id: "t".to_string(),
        input: vec![TXInput { id: "p".to_string(), out: 2, signature: vec![1, 2], pub_key: vec![3] }],
        output: vec![TXOutput { value: 4, pub_key_hash: vec![5] }],
    };
    let t = tx.trim_copy();
    assert_eq!(t.id, "t");
    assert_eq!(t.input[0].id, "p");
    assert_eq!(t.input[0].out, 2);
    assert!(t.input[0].signature.is_empty());
    assert!(t.input[0].pub_key.is_empty());
    assert_eq!(t.output[0].value, 4);
    assert_eq!(t.output[0].pub_key_hash, vec![5]);
}

#[test]
fn sign_then_verify_accepts() {
    let w = Wallet::new();
    let prev = Transaction::new_coinbase(w.get_address(), String::new()).unwrap();
    let prevs = vec![prev.clone()];
    let mut spend = spend_of(&prev, &w);
    spend.sign(&w.secret_key, &prevs).unwrap();
    assert!(!spend.input[0].signature.is_empty());
    assert_eq!(spend.verify(&prevs), Ok(true));
}

#[test]
fn altered_signature_or_key_is_rejected() {
    let w = Wallet::new();
    let other = Wallet::new();
    let prev = Transaction::new_coinbase(w.get_address(), String::new()).unwrap();
    let prevs = vec![prev.clone()];
    let mut spend = spend_of(&prev, &w);
    spend.sign(&w.secret_key, &prevs).unwrap();

    let mut tampered = spend.clone();
    tampered.input[0].signature[3] ^= 1;
    assert_eq!(tampered.verify(&prevs), Ok(false));

    let mut rekeyed = spend.clone();
    rekeyed.input[0].pub_key = other.public_key.0.clone();
    assert_eq!(rekeyed.verify(&prevs), Ok(false));

    let mut changed = spend.clone();
    changed.output[0].value = 11;
    assert_eq!(changed.verify(&prevs), Ok(false));
}

#[test]
fn missing_previous_transaction_is_not_found() {
    let w = Wallet::new();
    let prev = Transaction::new_coinbase(w.get_address(), String::new()).unwrap();
    let mut spend = spend_of(&prev, &w);
    assert_eq!(spend.sign(&w.secret_key, &vec![]), Err(LedgerError::NotFound));
    assert!(spend.input[0].signature.is_empty());
    assert_eq!(spend.verify(&vec![]), Err(LedgerError::NotFound));
    spend.input[0].out = 5;
    assert_eq!(spend.verify(&vec![prev]), Err(LedgerError::NotFound));
}

#[test]
fn coinbase_verifies_trivially() {
    let w = Wallet::new();
    let mut cb = Transaction::new_coinbase(w.get_address(), String::new()).unwrap();
    assert_eq!(cb.verify(&vec![]), Ok(true));
    assert_eq!(cb.sign(&w.secret_key, &vec![]), Ok(()));
}

#[test]
fn signing_messages_follow_spent_key_hash() {
    let w = Wallet::new();
    let prev = Transaction::new_coinbase(w.get_address(), String::new()).unwrap();
    let spend = spend_of(&prev, &w);
    let msgs = spend.signing_messages(&vec![prev.clone()]).unwrap();
    let mut t = spend.trim_copy();
    t.input[0].pub_key = prev.output[0].pub_key_hash.clone();
    assert_eq!(msgs, vec![t.hash().into_bytes()]);
}

#[test]
fn address_text_the_decoder_cannot_take_is_refused() {
    assert_eq!(TXOutput::new(1, "bitcoincash:qq").unwrap_err(), LedgerError::Validation);
    assert_eq!(TXOutput::new(1, "bitcoincash:qr6m7j9n").unwrap_err(), LedgerError::Validation);
    assert_eq!(TXOutput::new(1, "3\u{100}").unwrap_err(), LedgerError::Validation);
    assert_eq!(TXOutput::new(1, "").unwrap_err(), LedgerError::Validation);
    let w = Wallet::new();
    let mut out = TXOutput { value: 2, pub_key_hash: vec![1] };
    assert_eq!(out.lock("x:y"), Err(LedgerError::Validation));
    assert_eq!(out.pub_key_hash, vec![1]);
    assert_eq!(out.lock(&w.get_address()), Ok(()));
    assert_eq!(out.pub_key_hash, w.key_hash());
}

#[test]
fn transaction_without_inputs_signs_trivially() {
    let w = Wallet::new();
    let mut tx = Transaction { id: "empty".to_string(), input: vec![], output: vec![] };
    assert_eq!(tx.sign(&w.secret_key, &vec![]), Ok(()));
    assert_eq!(tx.verify(&vec![]), Ok(true));
}

#[test]
fn cashaddr_address_decodes() {
    let out = TXOutput::new(5, "bitcoincash:qr6m7j9njldwwzlg9v7v53unlr4jkmx6eylep8ekg2").unwrap();
    assert_eq!(
        out.pub_key_hash,
        vec![0xF5, 0xBF, 0x48, 0xB3, 0x97, 0xDA, 0xE7, 0x0B, 0xE8, 0x2B, 0x3C, 0xCA, 0x47, 0x93, 0xF8, 0xEB, 0x2B, 0x6C, 0xDA, 0xC9]
    );
    let cb = Transaction::new_coinbase("bitcoincash:qr6m7j9njldwwzlg9v7v53unlr4jkmx6eylep8ekg2".to_string(), String::new()).unwrap();
    assert_eq!(cb.output[0].pub_key_hash, out.pub_key_hash);
    assert_eq!(TXOutput::new(5, "bitcoincash:qr6m7j9njldwwzlg9v7v53unlr4jkmx6eylep8ekg3").unwrap_err(), LedgerError::Validation);
}
