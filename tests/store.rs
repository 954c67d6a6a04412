use polytorus::domain::block::Block;
use polytorus::domain::chain::{Chain, ChainRepository};
use polytorus::domain::transaction::Transaction;
use polytorus::domain::wallet::Wallet;
use polytorus::error::LedgerError;
use std::collections::HashMap;

#[derive(Default)]
struct MemoryChainStore {
    blocks: HashMap<String, Block>,
    tip: Option<String>,
}

impl ChainRepository for MemoryChainStore {
    fn get_block(&self, hash: &String) -> Result<Block, LedgerError> {
        self.blocks.get(hash).cloned().ok_or(LedgerError::NotFound)
    }

    fn add_block(&mut self, block: &Block) -> Result<(), LedgerError> {
        self.blocks.insert(block.hash.clone(), block.clone());
        self.tip = Some(block.hash.clone());
        Ok(())
    }

    fn get_tip(&self) -> Result<String, LedgerError> {
        self.tip.clone().ok_or(LedgerError::NotFound)
    }
}

#[test]
fn chain_round_trips_through_repository() {
    let w = Wallet::new();
    let mut chain = Chain::new();
    chain.mine(vec![Transaction::new_coinbase(w.get_address(), String::new()).unwrap()]).unwrap();
    chain.mine(vec![]).unwrap();
    let mut store = MemoryChainStore::default();
    chain.store(&mut store).unwrap();
    let loaded = Chain::load(&store).unwrap();
    assert_eq!(loaded.len(), 3);
    assert_eq!(loaded.tip().hash, chain.tip().hash);
}

#[test]
fn empty_or_broken_repository_is_refused() {
    let store = MemoryChainStore::default();
    assert_eq!(Chain::load(&store).unwrap_err(), LedgerError::NotFound);

    let w = Wallet::new();
    let mut chain = Chain::new();
    chain.mine(vec![Transaction::new_coinbase(w.get_address(), String::new()).unwrap()]).unwrap();
    let mut store = MemoryChainStore::default();
    chain.store(&mut store).unwrap();
    let genesis_hash = chain.blocks()[0].hash.clone();
    store.blocks.remove(&genesis_hash);
    assert_eq!(Chain::load(&store).unwrap_err(), LedgerError::NotFound);

    let mut store = MemoryChainStore::default();
    chain.store(&mut store).unwrap();
    let mut forged = chain.blocks()[0].clone();
    forged.header.height = 3;
    store.blocks.insert(genesis_hash, forged);
    assert_eq!(Chain::load(&store).unwrap_err(), LedgerError::Validation);
}

#[test]
fn newest_first_list_is_reversed_into_a_chain() {
    let w = Wallet::new();
    let mut chain = Chain::new();
    chain.mine(vec![Transaction::new_coinbase(w.get_address(), String::new()).unwrap()]).unwrap();
    let mut blocks = chain.snapshot();
    blocks.reverse();
    let rebuilt = Chain::chain_from_newest_first(blocks).unwrap();
    assert_eq!(rebuilt.len(), 2);
    assert_eq!(rebuilt.tip().hash, chain.tip().hash);
    assert_eq!(Chain::chain_from_newest_first(chain.snapshot()).unwrap_err(), LedgerError::Validation);
    assert_eq!(Chain::chain_from_newest_first(vec![]).unwrap_err(), LedgerError::Validation);
}
