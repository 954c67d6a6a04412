use polytorus::domain::block::Block;
use polytorus::domain::chain::Chain;
use polytorus::domain::transaction::{TXInput, TXOutput, Transaction};
use polytorus::domain::utxo::UTXOSet;
use polytorus::domain::wallet::Wallet;
use polytorus::server::{Server, SyncMessage};

fn node(addr: &str, miner: &Wallet) -> Server {
    Server::new(addr, &miner.get_address(), Some("peer:1"), UTXOSet::new(vec![]))
}

#[test]
fn new_node_knows_bootstrap_peer() {
    let w = Wallet::new();
    let s = node("me:1", &w);
    assert_eq!(s.get_known_nodes(), &vec!["peer:1".to_string()]);
    assert_eq!(s.get_best_height(), 0);
    let alone = Server::new("me:1", "x", None, UTXOSet::new(vec![]));
    assert!(alone.get_known_nodes().is_empty());
}

#[test]
fn addr_adds_only_new_peers_and_requests_skip_self() {
    let w = Wallet::new();
    let mut s = node("me:1", &w);
    s.handle_addr(vec!["peer:2".to_string(), "peer:1".to_string(), "me:1".to_string(), "peer:2".to_string()]);
    assert_eq!(
        s.get_known_nodes(),
        &vec!["peer:1".to_string(), "peer:2".to_string(), "me:1".to_string()]
    );
    assert_eq!(s.request_blocks(), vec!["peer:1".to_string(), "peer:2".to_string()]);
}

#[test]
fn messages_update_pool_and_chain() {
    let w = Wallet::new();
    let mut s = node("me:1", &w);
    let tx = Transaction {
        id: "t".to_string(),
        input: vec![TXInput { id: "p".to_string(), out: 0, signature: vec![], pub_key: vec![] }],
        output: vec![TXOutput { value: 1, pub_key_hash: vec![] }],
    };
    assert!(s.handle_message(SyncMessage::Transaction(tx.clone())));
    assert!(s.handle_message(SyncMessage::Transaction(tx)));
    assert_eq!(s.inner.mempool.transactions().len(), 1);
    assert!(s.handle_message(SyncMessage::ClearTransaction));
    assert!(s.inner.mempool.transactions().is_empty());
    assert!(!s.handle_message(SyncMessage::Chain(vec![Block::genesis()])));
    assert_eq!(s.inner.chain.len(), 1);
}

#[test]
fn mined_chain_converges_on_peer() {
    let w = Wallet::new();
    let mut miner = node("me:1", &w);
    miner.mine().unwrap();
    assert_eq!(miner.get_best_height(), 1);
    let txs = &miner.inner.chain.tip().transactions;
    assert_eq!(txs.len(), 1);
    assert!(txs[0].is_coinbase());
    assert!(miner.inner.chain.tip().hash.starts_with("00"));

    let mut peer = node("peer:1", &Wallet::new());
    assert!(peer.handle_message(miner.sync_chain()));
    assert_eq!(peer.get_best_height(), 1);
    assert_eq!(peer.inner.chain.tip().hash, miner.inner.chain.tip().hash);
    assert!(!peer.handle_message(miner.sync_chain()));
}

#[test]
fn mining_includes_valid_pending_transactions() {
    let w = Wallet::new();
    let mut s = node("me:1", &w);
    s.mine().unwrap();
    let reward = s.inner.chain.tip().transactions[0].clone();
    let mut spend = Transaction {
        id: "spend".to_string(),
        input: vec![TXInput { id: reward.id.clone(), out: 0, signature: vec![], pub_key: w.public_key.0.clone() }],
        output: vec![TXOutput { value: 10, pub_key_hash: vec![4; 20] }],
    };
    spend.sign(&w.secret_key, &vec![reward]).unwrap();
    let forged = Transaction { id: "forged".to_string(), ..spend.clone() };
    let mut forged = forged;
    forged.output[0].value = 9;
    s.handle_message(SyncMessage::Transaction(spend));
    s.handle_message(SyncMessage::Transaction(forged));
    s.mine().unwrap();
    let ids: Vec<String> = s.inner.chain.tip().transactions.iter().map(|t| t.id.clone()).collect();
    assert_eq!(ids.len(), 2);
    assert_eq!(ids[0], "spend");
    assert!(s.inner.mempool.transactions().is_empty());
    assert!(Chain::is_valid_chain(s.inner.chain.blocks()));
}

#[test]
fn mining_to_bad_address_changes_nothing() {
    let mut s = Server::new("me:1", "bad", None, UTXOSet::new(vec![]));
    assert!(s.mine().is_err());
    assert_eq!(s.inner.chain.len(), 1);
}
