//! Blocks: a sealed header over an ordered list of transactions.

use vstd::prelude::*;
use crate::codec::copy_bytes;
use crate::domain::block_header::{header_hash, BlockHeader, HeaderModel};
use crate::domain::merkle_tree::{merkle_root, merkle_root_of};
use crate::clock::now_millis;
use crate::domain::proof_of_work::{header_meets, ProofOfWork};
use crate::domain::transaction::{models, tx_hash, Transaction, TransactionModel};
use crate::error::LedgerError;
use vstd::utf8::encode_utf8;

verus! {

/// How many leading zero digits a block hash must have.
pub const DIFFICULTY: usize = 2;

/// The previous-hash sentinel that the genesis block carries.
pub const GENESIS_PREV_HASH: &'static str = "genesis_last_hash";

/// The placeholder hash of the genesis block, which is never mined.
pub const GENESIS_HASH: &'static str = "genesis_hash";

/// A sealed header with the transactions its Merkle root covers.
#[derive(Debug, Clone)]
pub struct Block {
    pub header: BlockHeader,
    pub transactions: Vec<Transaction>,
    pub hash: String,
}

/// What a block holds, as sequences.
pub ghost struct BlockModel {
    pub header: HeaderModel,
    pub transactions: Seq<TransactionModel>,
    pub hash: Seq<char>,
}

impl View for Block {
    type V = BlockModel;

    open spec fn view(&self) -> BlockModel {
        BlockModel { header: self.header@, transactions: models(self.transactions@), hash: self.hash@ }
    }
}

/// The Merkle root over the UTF-8 text of each transaction's hash.
pub open spec fn tx_merkle_root(txs: Seq<TransactionModel>) -> Seq<u8> {
    merkle_root_of(txs.map_values(|t: TransactionModel| encode_utf8(tx_hash(t))))
}

/// A block is sealed when its hash is its header's hash and meets the target.
pub open spec fn block_sealed(b: BlockModel) -> bool {
    b.hash == header_hash(b.header) && header_meets(b.header, DIFFICULTY as nat)
}

/// A sealed block whose Merkle root covers exactly its transactions.
pub open spec fn block_valid(b: BlockModel) -> bool {
    block_sealed(b) && b.header.merkle_root == tx_merkle_root(b.transactions)
}

/// The fixed genesis block, the same on every node.
pub open spec fn genesis_model() -> BlockModel {
    BlockModel {
        header: HeaderModel {
            timestamp: 0,
            prev_block_hash: GENESIS_PREV_HASH@,
            merkle_root: Seq::empty(),
            nonce: 0,
            height: 0,
        },
        transactions: Seq::empty(),
        hash: GENESIS_HASH@,
    }
}

/// The Merkle root over the hashes of `transactions`.
fn calculate_merkle_root(transactions: &Vec<Transaction>) -> (r: Vec<u8>)
    ensures
        r@ == tx_merkle_root(models(transactions@)),
{
    let ghost ms = models(transactions@);
    let mut leaves: Vec<Vec<u8>> = Vec::new();
    let mut k: usize = 0;
    while k < transactions.len()
        invariant
            k <= transactions@.len(),
            ms == models(transactions@),
            leaves@.len() == k,
            forall|j: int| 0 <= j < k ==> (#[trigger] leaves@[j])@ == encode_utf8(tx_hash(ms[j])),
        decreases transactions@.len() - k,
    {
        let h = transactions[k].hash();
        leaves.push(copy_bytes(h.as_str().as_bytes()));
        k = k + 1;
    }
    let ghost lv = leaves@.map_values(|l: Vec<u8>| l@);
    assert(lv =~= ms.map_values(|t: TransactionModel| encode_utf8(tx_hash(t))));
    merkle_root(leaves)
}

impl Block {
    /// Mines a block over `transaction` on top of the block hashed
    /// `prev_block_hash`: stamps it, sets its Merkle root and searches for a
    /// nonce that meets [`DIFFICULTY`]. Running out of nonces gives
    /// `Validation`.
    pub fn new(transaction: Vec<Transaction>, prev_block_hash: String, height: i32) -> (r: Result<Block, LedgerError>)
        ensures
            r is Ok ==> {
                let b = r->Ok_0@;
                &&& b.transactions == models(transaction@)
                &&& b.header.prev_block_hash == prev_block_hash@
                &&& b.header.height == height
                &&& block_valid(b)
            },
            r is Err ==> r == Err::<Block, LedgerError>(LedgerError::Validation),
    {
        let merkle_root = calculate_merkle_root(&transaction);
        let header = BlockHeader { timestamp: now_millis(), prev_block_hash, merkle_root, nonce: 0, height };
        let mut pow = ProofOfWork { header, target_prefix: DIFFICULTY };
        match pow.run() {
            Ok(()) => {},
            Err(e) => {
                return Err(e);
            },
        }
        let header = pow.header;
        let hash = header.hash();
        Ok(Block { header, transactions: transaction, hash })
    }

    /// The fixed genesis block.
    pub fn genesis() -> (r: Block)
        ensures
            r@ == genesis_model(),
    {
        let r = Block {
            header: BlockHeader {
                timestamp: 0,
                prev_block_hash: GENESIS_PREV_HASH.to_owned(),
                merkle_root: Vec::new(),
                nonce: 0,
                height: 0,
            },
            transactions: Vec::new(),
            hash: GENESIS_HASH.to_owned(),
        };
        assert(r@.transactions =~= Seq::<TransactionModel>::empty());
        r
    }

    /// Whether this is the genesis block.
    pub fn is_genesis(&self) -> (r: bool)
        ensures
            r == (self@ == genesis_model()),
    {
        let g = Block::genesis();
        let r = self.header.timestamp == 0 && self.header.prev_block_hash == g.header.prev_block_hash
            && self.header.merkle_root.len() == 0 && self.header.nonce == 0 && self.header.height == 0
            && self.transactions.len() == 0 && self.hash == g.hash;
        if r {
            assert(self@.header.merkle_root =~= Seq::<u8>::empty());
            assert(self@.transactions =~= Seq::<TransactionModel>::empty());
            assert(self@.header == genesis_model().header);
        }
        r
    }

    /// Whether this block is sealed and its Merkle root covers its
    /// transactions.
    pub fn validate(&self) -> (r: bool)
        ensures
            r == block_valid(self@),
    {
        let h = self.header.hash();
        if h != self.hash {
            return false;
        }
        let pow_ok = crate::hashing::meets_target(h.as_str(), DIFFICULTY);
        if !pow_ok {
            return false;
        }
        let root = calculate_merkle_root(&self.transactions);
        let mut same = root.len() == self.header.merkle_root.len();
        let mut k: usize = 0;
        while same && k < root.len()
            invariant
                k <= root@.len(),
                same ==> root@.len() == self.header.merkle_root@.len(),
                same ==> forall|j: int| 0 <= j < k ==> root@[j] == self.header.merkle_root@[j],
                !same ==> root@ != self.header.merkle_root@,
            decreases root@.len() - k,
        {
            if root[k] != self.header.merkle_root[k] {
                same = false;
            }
            k = k + 1;
        }
        if same {
            assert(root@ =~= self.header.merkle_root@);
        }
        same
    }

    /// A copy of this block.
    pub fn duplicate(&self) -> (r: Block)
        ensures
            r@ == self@,
    {
        let h = &self.header;
        let header = BlockHeader {
            timestamp: h.timestamp,
            prev_block_hash: h.prev_block_hash.clone(),
            merkle_root: copy_bytes(h.merkle_root.as_slice()),
            nonce: h.nonce,
            height: h.height,
        };
        let mut transactions: Vec<Transaction> = Vec::new();
        let mut i: usize = 0;
        while i < self.transactions.len()
            invariant
                i <= self.transactions@.len(),
                transactions@.len() == i,
                forall|j: int| 0 <= j < i ==> (#[trigger] transactions@[j])@ == self.transactions@[j]@,
            decreases self.transactions@.len() - i,
        {
            transactions.push(self.transactions[i].duplicate());
            i = i + 1;
        }
        let r = Block { header, transactions, hash: self.hash.clone() };
        assert(r@.transactions =~= self@.transactions);
        r
    }

    /// The block's hash.
    pub fn get_hash(&self) -> (r: &str)
        ensures
            r@ == self.hash@,
    {
        self.hash.as_str()
    }
}

} // verus!
