//! A node's replicated state and the decisions of the peer protocol: which
//! peers to address, how each received message changes the chain and the
//! pool, and how pending transactions are mined into a block. Sending and
//! receiving are left to the caller.

use vstd::prelude::*;
use crate::domain::block::Block;
use crate::domain::chain::{block_models, chain_txs, chain_valid, Chain};
use crate::domain::transaction::{coinbase_body, tx_hash, Transaction, TransactionModel};
use crate::domain::utxo::{entry_models, unspent_of, UTXOSet};
use crate::error::LedgerError;
use crate::protocol::str_eq;
use crate::scheme::decoded_address;
use crate::wallet::transaction_pool::{accepted_only, upsert, Pool};

verus! {

/// What peers send each other to stay converged.
#[derive(Debug, Clone)]
pub enum SyncMessage {
    /// The sender's whole chain, genesis first.
    Chain(Vec<Block>),
    /// A pending transaction.
    Transaction(Transaction),
    /// Pending transactions were confirmed; empty the pool.
    ClearTransaction,
}

/// `known` with each of `nodes` added that it does not hold yet.
pub open spec fn add_peers(known: Seq<Seq<char>>, nodes: Seq<Seq<char>>) -> Seq<Seq<char>>
    decreases nodes.len(),
{
    if nodes.len() == 0 {
        known
    } else {
        let k = add_peers(known, nodes.drop_last());
        if k.contains(nodes.last()) {
            k
        } else {
            k.push(nodes.last())
        }
    }
}

/// The peers of `known` other than `me`, in order.
pub open spec fn others(known: Seq<Seq<char>>, me: Seq<char>) -> Seq<Seq<char>>
    decreases known.len(),
{
    if known.len() == 0 {
        Seq::empty()
    } else if known.last() == me {
        others(known.drop_last(), me)
    } else {
        others(known.drop_last(), me).push(known.last())
    }
}

/// The text of each string.
pub open spec fn texts(s: Seq<String>) -> Seq<Seq<char>> {
    s.map_values(|x: String| x@)
}

/// The coinbase a miner paying itself at `to` adds to a block.
pub open spec fn reward_tx(to: Seq<char>, key_hash: Seq<u8>) -> TransactionModel {
    TransactionModel { id: tx_hash(coinbase_body(to, Seq::empty(), key_hash)), ..coinbase_body(to, Seq::empty(), key_hash) }
}

/// The state a node shares between its connections.
#[derive(Debug)]
pub struct ServerInner {
    pub known_nodes: Vec<String>,
    pub chain: Chain,
    pub utxo: UTXOSet,
    pub blocks_in_transit: Vec<String>,
    pub mempool: Pool,
}

/// A node: where it listens, where its mining rewards go, and its state.
#[derive(Debug)]
pub struct Server {
    pub node_addr: String,
    pub mining_addr: String,
    pub inner: ServerInner,
}

impl Server {
    /// A node at `node_addr` that knows `bootstrap`, if given, holds the
    /// genesis chain, `utxo` and an empty pool.
    pub fn new(node_addr: &str, mining_addr: &str, bootstrap: Option<&str>, utxo: UTXOSet) -> (r: Server)
        ensures
            r.node_addr@ == node_addr@,
            r.mining_addr@ == mining_addr@,
            texts(r.inner.known_nodes@) == match bootstrap {
                Some(a) => seq![a@],
                None => Seq::<Seq<char>>::empty(),
            },
            r.inner.chain@.len() == 1,
            r.inner.utxo.entries == utxo.entries,
            r.inner.blocks_in_transit@.len() == 0,
            r.inner.mempool@.len() == 0,
    {
        let mut nodes: Vec<String> = Vec::new();
        match bootstrap {
            Some(a) => nodes.push(a.to_owned()),
            None => {},
        }
        let r = Server {
            node_addr: node_addr.to_owned(),
            mining_addr: mining_addr.to_owned(),
            inner: ServerInner {
                known_nodes: nodes,
                chain: Chain::new(),
                utxo,
                blocks_in_transit: Vec::new(),
                mempool: Pool::new(),
            },
        };
        assert(texts(r.inner.known_nodes@) =~= match bootstrap {
            Some(a) => seq![a@],
            None => Seq::<Seq<char>>::empty(),
        });
        r
    }

    /// The peers this node knows.
    pub fn get_known_nodes(&self) -> (r: &Vec<String>)
        ensures
            r == &self.inner.known_nodes,
    {
        &self.inner.known_nodes
    }

    /// The height of the chain's tip.
    pub fn get_best_height(&self) -> (r: i32)
        ensures
            r == self.inner.chain@.last().header.height,
    {
        self.inner.chain.tip().header.height
    }

    /// Learns of `nodes`, skipping those already known.
    pub fn handle_addr(&mut self, nodes: Vec<String>)
        ensures
            texts(final(self).inner.known_nodes@) == add_peers(texts(old(self).inner.known_nodes@), texts(nodes@)),
            final(self).node_addr == old(self).node_addr,
            final(self).inner.chain@ == old(self).inner.chain@,
            final(self).inner.mempool@ == old(self).inner.mempool@,
    {
        let ghost start = texts(self.inner.known_nodes@);
        let ghost ns = texts(nodes@);
        let mut i: usize = 0;
        while i < nodes.len()
            invariant
                i <= nodes@.len(),
                ns == texts(nodes@),
                texts(self.inner.known_nodes@) == add_peers(start, ns.subrange(0, i as int)),
                self.node_addr == old(self).node_addr,
                self.inner.chain@ == old(self).inner.chain@,
                self.inner.mempool@ == old(self).inner.mempool@,
            decreases nodes@.len() - i,
        {
            assert(ns.subrange(0, i as int + 1).drop_last() =~= ns.subrange(0, i as int));
            let mut known = false;
            let mut j: usize = 0;
            while j < self.inner.known_nodes.len()
                invariant
                    j <= self.inner.known_nodes@.len(),
                    i < nodes@.len(),
                    known ==> texts(self.inner.known_nodes@).contains(nodes@[i as int]@),
                    !known ==> forall|k: int| 0 <= k < j ==> self.inner.known_nodes@[k]@ != nodes@[i as int]@,
                decreases self.inner.known_nodes@.len() - j,
            {
                if str_eq(self.inner.known_nodes[j].as_str(), nodes[i].as_str()) {
                    known = true;
                    assert(texts(self.inner.known_nodes@)[j as int] == nodes@[i as int]@);
                }
                j = j + 1;
            }
            if !known {
                let ghost before = texts(self.inner.known_nodes@);
                assert(!before.contains(nodes@[i as int]@)) by {
                    if before.contains(nodes@[i as int]@) {
                        let k = choose|k: int| 0 <= k < before.len() && before[k] == nodes@[i as int]@;
                        assert(self.inner.known_nodes@[k]@ == before[k]);
                    }
                }
                self.inner.known_nodes.push(nodes[i].clone());
                assert(texts(self.inner.known_nodes@) =~= before.push(nodes@[i as int]@));
            }
            i = i + 1;
        }
        assert(ns.subrange(0, nodes@.len() as int) =~= ns);
    }

    /// The known peers other than this node: those a broadcast or a request
    /// for blocks goes to.
    pub fn request_blocks(&self) -> (r: Vec<String>)
        ensures
            texts(r@) == others(texts(self.inner.known_nodes@), self.node_addr@),
    {
        let ghost ks = texts(self.inner.known_nodes@);
        let mut r: Vec<String> = Vec::new();
        let mut i: usize = 0;
        while i < self.inner.known_nodes.len()
            invariant
                i <= self.inner.known_nodes@.len(),
                ks == texts(self.inner.known_nodes@),
                texts(r@) == others(ks.subrange(0, i as int), self.node_addr@),
            decreases self.inner.known_nodes@.len() - i,
        {
            assert(ks.subrange(0, i as int + 1).drop_last() =~= ks.subrange(0, i as int));
            let n = &self.inner.known_nodes[i];
            if !str_eq(n.as_str(), self.node_addr.as_str()) {
                let ghost before = texts(r@);
                r.push(n.clone());
                assert(texts(r@) =~= before.push(n@));
            }
            i = i + 1;
        }
        assert(ks.subrange(0, self.inner.known_nodes@.len() as int) =~= ks);
        r
    }

    /// Applies a message from a peer. A chain goes through the
    /// longest-valid-chain rule, and when adopted the unspent outputs are
    /// recomputed from it; a transaction joins the pool (replacing one with
    /// its id), and a clear empties the pool. Returns whether the state
    /// changed as asked: for a chain, whether it was adopted.
    pub fn handle_message(&mut self, msg: SyncMessage) -> (r: bool)
        ensures
            final(self).node_addr == old(self).node_addr,
            final(self).inner.known_nodes == old(self).inner.known_nodes,
            match msg {
                SyncMessage::Chain(c) => {
                    &&& r == (c@.len() > old(self).inner.chain@.len() && chain_valid(block_models(c@)))
                    &&& final(self).inner.chain@ == if r { block_models(c@) } else { old(self).inner.chain@ }
                    &&& final(self).inner.mempool@ == old(self).inner.mempool@
                    &&& r ==> entry_models(final(self).inner.utxo.entries@) == unspent_of(
                        chain_txs(final(self).inner.chain@),
                        chain_txs(final(self).inner.chain@),
                    )
                },
                SyncMessage::Transaction(t) => {
                    &&& r
                    &&& final(self).inner.mempool@ == upsert(old(self).inner.mempool@, t@)
                    &&& final(self).inner.chain@ == old(self).inner.chain@
                },
                SyncMessage::ClearTransaction => {
                    &&& r
                    &&& final(self).inner.mempool@ == Seq::<TransactionModel>::empty()
                    &&& final(self).inner.chain@ == old(self).inner.chain@
                },
            },
    {
        match msg {
            SyncMessage::Chain(c) => {
                let adopted = self.inner.chain.replace_chain(c);
                if adopted {
                    self.inner.utxo = UTXOSet::reindex(&self.inner.chain);
                }
                adopted
            },
            SyncMessage::Transaction(t) => {
                self.inner.mempool.update_or_add_transaction(t);
                true
            },
            SyncMessage::ClearTransaction => {
                self.inner.mempool.clear();
                true
            },
        }
    }

    /// The message that shares this node's chain with its peers.
    pub fn sync_chain(&self) -> (r: SyncMessage)
        ensures
            r matches SyncMessage::Chain(c) && block_models(c@) == self.inner.chain@,
    {
        SyncMessage::Chain(self.inner.chain.snapshot())
    }

    /// Mines the pending transactions that verify against the chain, with a
    /// coinbase paying the reward to the mining address, into a block on the
    /// tip, then empties the pool and recomputes the unspent outputs. A mining address that does not decode, or
    /// a failed search, gives `Validation` and changes nothing.
    pub fn mine(&mut self) -> (r: Result<(), LedgerError>)
        ensures
            final(self).node_addr == old(self).node_addr,
            final(self).mining_addr == old(self).mining_addr,
            final(self).inner.known_nodes == old(self).inner.known_nodes,
            decoded_address(old(self).mining_addr@) is None ==> r == Err::<(), LedgerError>(LedgerError::Validation),
            old(self).inner.chain@.last().header.height == i32::MAX ==> r == Err::<(), LedgerError>(LedgerError::Validation),
            r is Err ==> r == Err::<(), LedgerError>(LedgerError::Validation)
                && final(self).inner.chain@ == old(self).inner.chain@
                && final(self).inner.mempool@ == old(self).inner.mempool@,
            r is Ok ==> {
                let txs = final(self).inner.chain@.last().transactions;
                &&& decoded_address(old(self).mining_addr@) is Some
                &&& final(self).inner.chain@.drop_last() == old(self).inner.chain@
                &&& txs.drop_last() == accepted_only(old(self).inner.mempool@, chain_txs(old(self).inner.chain@))
                &&& txs.last() == reward_tx(old(self).mining_addr@, decoded_address(old(self).mining_addr@)->Some_0)
                &&& final(self).inner.mempool@ == Seq::<TransactionModel>::empty()
                &&& entry_models(final(self).inner.utxo.entries@) == unspent_of(
                    chain_txs(final(self).inner.chain@),
                    chain_txs(final(self).inner.chain@),
                )
            },
    {
        let prev_txs = self.inner.chain.transactions();
        let coinbase = match Transaction::new_coinbase(self.mining_addr.clone(), String::new()) {
            Ok(t) => t,
            Err(e) => {
                return Err(e);
            },
        };
        let valid = self.inner.mempool.valid_transactions(&prev_txs);
        let mut txs: Vec<Transaction> = Vec::new();
        let mut i: usize = 0;
        while i < valid.len()
            invariant
                i <= valid@.len(),
                txs@.len() == i,
                forall|j: int| 0 <= j < i ==> (#[trigger] txs@[j])@ == valid@[j]@,
            decreases valid@.len() - i,
        {
            txs.push(valid[i].duplicate());
            i = i + 1;
        }
        let ghost picked = crate::domain::transaction::models(txs@);
        assert(picked =~= valid@.map_values(|t: &Transaction| t@));
        txs.push(coinbase);
        let ghost all = crate::domain::transaction::models(txs@);
        assert(all.drop_last() =~= picked);
        match self.inner.chain.mine(txs) {
            Ok(()) => {},
            Err(e) => {
                return Err(e);
            },
        }
        self.inner.mempool.clear();
        self.inner.utxo = UTXOSet::reindex(&self.inner.chain);
        Ok(())
    }
}

} // verus!
