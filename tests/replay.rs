use polytorus::domain::chain::Chain;
use polytorus::domain::transaction::Transaction;
use polytorus::domain::utxo::{UTXORepository, UTXOSet, UtxoEntry};
use polytorus::domain::wallet::Wallet;
use polytorus::error::LedgerError;
use polytorus::server::Server;
use polytorus::wallet::transaction_pool::Pool;
use std::cell::RefCell;

struct MemoryStore {
    entries: RefCell<Vec<UtxoEntry>>,
}

impl UTXORepository for MemoryStore {
    fn get_all_utxos(&self) -> Result<Vec<UtxoEntry>, LedgerError> {
        Ok(self.entries.borrow().clone())
    }

    fn store_utxos(&self, utxos: &Vec<UtxoEntry>) -> Result<(), LedgerError> {
        *self.entries.borrow_mut() = utxos.clone();
        Ok(())
    }
}

#[test]
fn replaying_the_chain_leaves_unspent_outputs() {
    let w = Wallet::new();
    let r = Wallet::new();
    let mut chain = Chain::new();
    chain.mine(vec![Transaction::new_coinbase(w.get_address(), String::new()).unwrap()]).unwrap();
    let set = UTXOSet::reindex(&chain);
    assert_eq!(set.entries.len(), 1);
    assert_eq!(set.entries[0].output.value, 10);

    let mut pool = Pool::new();
    let spend = w
        .create_transaction(&r.get_address(), 4, &set, &chain.transactions(), &mut pool)
        .unwrap();
    let reward = Transaction::new_coinbase(r.get_address(), "next".to_string()).unwrap();
    chain.mine(vec![spend.clone(), reward.clone()]).unwrap();

    let set = UTXOSet::reindex(&chain);
    let found: Vec<(String, i32, i32)> =
        set.entries.iter().map(|e| (e.tx_id.clone(), e.index, e.output.value)).collect();
    assert_eq!(
        found,
        vec![(spend.id.clone(), 0, 4), (spend.id.clone(), 1, 6), (reward.id.clone(), 0, 10)]
    );
    let (got, _) = set.find_spendable_outputs(&r.key_hash(), 100);
    assert_eq!(got, 14);
}

#[test]
fn utxo_set_loads_from_repository() {
    let w = Wallet::new();
    let mut chain = Chain::new();
    chain.mine(vec![Transaction::new_coinbase(w.get_address(), String::new()).unwrap()]).unwrap();
    let store = MemoryStore { entries: RefCell::new(vec![]) };
    store.store_utxos(&UTXOSet::reindex(&chain).entries).unwrap();
    let set = UTXOSet::from_repository(&store).unwrap();
    assert_eq!(set.entries.len(), 1);
    assert_eq!(set.entries[0].tx_id, chain.tip().transactions[0].id);
}

#[test]
fn node_recomputes_outputs_after_mining() {
    let w = Wallet::new();
    let mut s = Server::new("me:1", &w.get_address(), None, UTXOSet::new(vec![]));
    s.mine().unwrap();
    assert_eq!(s.inner.utxo.entries.len(), 1);
    assert_eq!(s.inner.utxo.entries[0].output.pub_key_hash, w.key_hash());
}
