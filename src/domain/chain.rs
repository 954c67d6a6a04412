//! The chain: blocks linked by hash from the genesis block to the tip, and
//! the longest-valid-chain rule that chooses between forks.

use vstd::prelude::*;
use crate::domain::block::{block_valid, genesis_model, Block, BlockModel, DIFFICULTY};
use crate::domain::block_header::header_hash;
use crate::domain::proof_of_work::header_meets;
use crate::domain::transaction::{models, Transaction, TransactionModel};
use crate::error::LedgerError;

verus! {

/// The models of a list of blocks.
pub open spec fn block_models(bs: Seq<Block>) -> Seq<BlockModel> {
    bs.map_values(|b: Block| b@)
}

/// Every transaction of the chain, block by block.
pub open spec fn chain_txs(blocks: Seq<BlockModel>) -> Seq<TransactionModel>
    decreases blocks.len(),
{
    if blocks.len() == 0 {
        Seq::empty()
    } else {
        chain_txs(blocks.drop_last()) + blocks.last().transactions
    }
}

/// `s` from last to first.
pub open spec fn reversed(s: Seq<BlockModel>) -> Seq<BlockModel> {
    Seq::new(s.len(), |i: int| s[s.len() - 1 - i])
}

/// `b` extends `p`: it names `p`'s hash and stands one higher.
pub open spec fn linked(p: BlockModel, b: BlockModel) -> bool {
    b.header.prev_block_hash == p.hash && b.header.height == p.header.height + 1
}

/// Block `i` is valid and extends block `i - 1`.
pub open spec fn step_valid(s: Seq<BlockModel>, i: int) -> bool {
    block_valid(s[i]) && linked(s[i - 1], s[i])
}

/// A valid chain starts at the genesis block, and every later block is valid
/// and extends the one before it.
pub open spec fn chain_valid(s: Seq<BlockModel>) -> bool {
    &&& s.len() >= 1
    &&& s[0] == genesis_model()
    &&& forall|i: int| 1 <= i < s.len() ==> #[trigger] step_valid(s, i)
}

/// Every block after genesis in a valid chain is sealed: its hash is the hash
/// of its header, and that hash meets the difficulty target.
pub proof fn lemma_accepted_blocks_sealed(s: Seq<BlockModel>, i: int)
    requires
        chain_valid(s),
        1 <= i < s.len(),
    ensures
        s[i].hash == header_hash(s[i].header),
        header_meets(s[i].header, DIFFICULTY as nat),
{
    assert(step_valid(s, i));
}

/// The chain a node holds after being offered `candidate`: the candidate when
/// it is strictly longer and valid, the chain it held otherwise.
pub open spec fn fork_choice(current: Seq<BlockModel>, candidate: Seq<BlockModel>) -> Seq<BlockModel> {
    if candidate.len() > current.len() && chain_valid(candidate) {
        candidate
    } else {
        current
    }
}

/// The chain held after being offered each of `candidates` in turn.
pub open spec fn fork_choice_all(current: Seq<BlockModel>, candidates: Seq<Seq<BlockModel>>) -> Seq<BlockModel>
    decreases candidates.len(),
{
    if candidates.len() == 0 {
        current
    } else {
        fork_choice(fork_choice_all(current, candidates.drop_last()), candidates.last())
    }
}

/// Whatever chains are offered, and in whatever order, the chain a node holds
/// never gets shorter and stays valid.
pub proof fn lemma_fork_choice_monotonic(current: Seq<BlockModel>, candidates: Seq<Seq<BlockModel>>)
    requires
        chain_valid(current),
    ensures
        fork_choice_all(current, candidates).len() >= current.len(),
        chain_valid(fork_choice_all(current, candidates)),
    decreases candidates.len(),
{
    if candidates.len() > 0 {
        lemma_fork_choice_monotonic(current, candidates.drop_last());
    }
}

/// Appending a valid block that extends the tip keeps a chain valid.
pub proof fn lemma_push_valid(s: Seq<BlockModel>, b: BlockModel)
    requires
        chain_valid(s),
        block_valid(b),
        linked(s.last(), b),
    ensures
        chain_valid(s.push(b)),
{
    let t = s.push(b);
    assert forall|i: int| 1 <= i < t.len() implies #[trigger] step_valid(t, i) by {
        if i < s.len() {
            assert(step_valid(s, i));
        }
    }
}

/// Where blocks are kept between runs, looked up by hash.
pub trait ChainRepository {
    /// The block whose hash is `hash`.
    fn get_block(&self, hash: &String) -> Result<Block, LedgerError>;

    /// Stores `block` and makes it the tip.
    fn add_block(&mut self, block: &Block) -> Result<(), LedgerError>;

    /// The hash of the latest block stored.
    fn get_tip(&self) -> Result<String, LedgerError>;
}

/// The blocks of a valid chain, genesis first.
#[derive(Debug)]
pub struct Chain {
    blocks: Vec<Block>,
}

impl View for Chain {
    type V = Seq<BlockModel>;

    closed spec fn view(&self) -> Seq<BlockModel> {
        block_models(self.blocks@)
    }
}

/// Whether `b` extends `p`.
fn extends(p: &Block, b: &Block) -> (r: bool)
    ensures
        r == linked(p@, b@),
{
    b.header.prev_block_hash == p.hash && b.header.height as i64 == p.header.height as i64 + 1
}

impl Chain {
    #[verifier::type_invariant]
    spec fn wf(self) -> bool {
        chain_valid(block_models(self.blocks@))
    }

    /// A chain holding only the genesis block.
    pub fn new() -> (r: Chain)
        ensures
            r@ == seq![genesis_model()],
    {
        let c = Chain { blocks: vec![Block::genesis()] };
        assert(c@ =~= seq![genesis_model()]);
        c
    }

    /// The blocks, genesis first.
    pub fn blocks(&self) -> (r: &Vec<Block>)
        ensures
            block_models(r@) == self@,
            chain_valid(self@),
    {
        proof {
            use_type_invariant(self);
        }
        &self.blocks
    }

    /// The number of blocks.
    pub fn len(&self) -> (r: usize)
        ensures
            r == self@.len(),
            r >= 1,
    {
        proof {
            use_type_invariant(self);
        }
        self.blocks.len()
    }

    /// The last block.
    pub fn tip(&self) -> (r: &Block)
        ensures
            r@ == self@.last(),
    {
        proof {
            use_type_invariant(self);
        }
        &self.blocks[self.blocks.len() - 1]
    }

    /// The blocks from the tip back to genesis.
    pub fn iter(&self) -> (r: ChainIterator<'_>)
        ensures
            r.chain == self,
            r.remaining == self@.len(),
    {
        proof {
            use_type_invariant(self);
        }
        ChainIterator { chain: self, remaining: self.blocks.len() }
    }

    /// A copy of every transaction of the chain, block by block.
    pub fn transactions(&self) -> (r: Vec<Transaction>)
        ensures
            models(r@) == chain_txs(self@),
    {
        let blocks = self.blocks();
        let ghost bs = self@;
        let mut r: Vec<Transaction> = Vec::new();
        let mut i: usize = 0;
        while i < blocks.len()
            invariant
                i <= blocks@.len(),
                bs == self@,
                block_models(blocks@) == bs,
                models(r@) == chain_txs(bs.subrange(0, i as int)),
            decreases blocks@.len() - i,
        {
            let txs = &blocks[i].transactions;
            let ghost start = models(r@);
            let mut j: usize = 0;
            while j < txs.len()
                invariant
                    j <= txs@.len(),
                    models(r@) == start + models(txs@).subrange(0, j as int),
                decreases txs@.len() - j,
            {
                let ghost before = r@;
                r.push(txs[j].duplicate());
                assert(models(r@) =~= models(before).push(txs@[j as int]@));
                assert(models(txs@).subrange(0, j as int + 1) =~= models(txs@).subrange(0, j as int).push(txs@[j as int]@));
                assert(models(r@) =~= start + models(txs@).subrange(0, j as int + 1));
                j = j + 1;
            }
            assert(bs.subrange(0, i as int + 1).drop_last() =~= bs.subrange(0, i as int));
            assert(bs[i as int] == blocks@[i as int]@);
            assert(models(txs@).subrange(0, txs@.len() as int) =~= bs[i as int].transactions);
            i = i + 1;
        }
        assert(bs.subrange(0, blocks@.len() as int) =~= bs);
        r
    }

    /// A copy of the blocks, genesis first.
    pub fn snapshot(&self) -> (r: Vec<Block>)
        ensures
            block_models(r@) == self@,
    {
        let blocks = self.blocks();
        let mut r: Vec<Block> = Vec::new();
        let mut i: usize = 0;
        while i < blocks.len()
            invariant
                i <= blocks@.len(),
                r@.len() == i,
                forall|j: int| 0 <= j < i ==> (#[trigger] r@[j])@ == blocks@[j]@,
            decreases blocks@.len() - i,
        {
            r.push(blocks[i].duplicate());
            i = i + 1;
        }
        assert(block_models(r@) =~= block_models(blocks@));
        r
    }

    /// The chain whose blocks are `blocks` in reverse order, when that order
    /// is a valid chain; `Validation` otherwise.
    pub fn chain_from_newest_first(blocks: Vec<Block>) -> (r: Result<Chain, LedgerError>)
        ensures
            r is Ok <==> chain_valid(reversed(block_models(blocks@))),
            r is Ok ==> r->Ok_0@ == reversed(block_models(blocks@)),
            r is Err ==> r == Err::<Chain, LedgerError>(LedgerError::Validation),
    {
        let ghost orig = block_models(blocks@);
        let ghost n = blocks@.len();
        let mut rest = blocks;
        let mut out: Vec<Block> = Vec::new();
        while rest.len() > 0
            invariant
                rest@.len() + out@.len() == n,
                n == orig.len(),
                block_models(rest@) == orig.subrange(0, rest@.len() as int),
                block_models(out@) == reversed(orig).subrange(0, out@.len() as int),
            decreases rest@.len(),
        {
            let ghost before_rest = rest@;
            let ghost before_out = block_models(out@);
            match rest.pop() {
                Some(b) => {
                    assert(b == before_rest[rest@.len() as int]);
                    assert(block_models(before_rest)[rest@.len() as int] == b@);
                    assert(b@ == orig[rest@.len() as int]);
                    out.push(b);
                    assert(block_models(out@) =~= before_out.push(b@));
                    assert(block_models(out@) =~= reversed(orig).subrange(0, out@.len() as int));
                },
                None => {},
            }
            assert(block_models(rest@) =~= orig.subrange(0, rest@.len() as int));
        }
        assert(block_models(out@) =~= reversed(orig));
        if !Chain::is_valid_chain(&out) {
            return Err(LedgerError::Validation);
        }
        Ok(Chain { blocks: out })
    }

    /// One step of walking a stored chain back from its tip: `block` was read
    /// where a block at height `expected - 1` was asked for (`expected` is
    /// `None` for the tip). A block at another height gives `Validation`;
    /// otherwise the walk goes on to the previous hash while the height is
    /// above 0, and stops there.
    pub fn next_step(expected: Option<i32>, block: &Block) -> (r: Result<Option<String>, LedgerError>)
        ensures
            r is Err <==> (expected is Some && block.header.height as int != expected->Some_0 as int - 1),
            r is Err ==> r == Err::<Option<String>, LedgerError>(LedgerError::Validation),
            r is Ok ==> (r->Ok_0 is Some <==> block.header.height > 0),
            r matches Ok(Some(p)) ==> p@ == block.header.prev_block_hash@,
    {
        match expected {
            Some(h) => {
                if block.header.height as i64 != h as i64 - 1 {
                    return Err(LedgerError::Validation);
                }
            },
            None => {},
        }
        if block.header.height > 0 {
            Ok(Some(block.header.prev_block_hash.clone()))
        } else {
            Ok(None)
        }
    }

    /// Reads a chain back from `repo`: from the tip, each block's previous
    /// hash names the block before it, down to height 0. A block the
    /// repository cannot give is passed on as its error; heights that do not
    /// step down by one, or a walk that does not end in a valid chain, give
    /// `Validation`.
    pub fn load<R: ChainRepository>(repo: &R) -> (r: Result<Chain, LedgerError>)
        ensures
            r is Ok ==> chain_valid(r->Ok_0@),
    {
        let tip = match repo.get_tip() {
            Ok(t) => t,
            Err(e) => {
                return Err(e);
            },
        };
        let first = match repo.get_block(&tip) {
            Ok(b) => b,
            Err(e) => {
                return Err(e);
            },
        };
        let mut next = match Chain::next_step(None, &first) {
            Ok(n) => n,
            Err(e) => {
                return Err(e);
            },
        };
        let mut height: i32 = first.header.height;
        let mut newest_first: Vec<Block> = vec![first];
        loop
            invariant
                next is Some ==> height > 0,
            decreases height,
        {
            let hash = match next {
                Some(h) => h,
                None => {
                    break;
                },
            };
            let block = match repo.get_block(&hash) {
                Ok(b) => b,
                Err(e) => {
                    return Err(e);
                },
            };
            next = match Chain::next_step(Some(height), &block) {
                Ok(n) => n,
                Err(e) => {
                    return Err(e);
                },
            };
            height = block.header.height;
            newest_first.push(block);
        }
        Chain::chain_from_newest_first(newest_first)
    }

    /// Writes every block to `repo`, genesis first, stopping at the first
    /// error.
    pub fn store<R: ChainRepository>(&self, repo: &mut R) -> Result<(), LedgerError> {
        let blocks = self.blocks();
        let mut i: usize = 0;
        while i < blocks.len()
            decreases blocks@.len() - i,
        {
            match repo.add_block(&blocks[i]) {
                Ok(()) => {},
                Err(e) => {
                    return Err(e);
                },
            }
            i = i + 1;
        }
        Ok(())
    }

    /// Whether `blocks` form a valid chain.
    pub fn is_valid_chain(blocks: &Vec<Block>) -> (r: bool)
        ensures
            r == chain_valid(block_models(blocks@)),
    {
        let ghost s = block_models(blocks@);
        if blocks.len() == 0 {
            return false;
        }
        if !blocks[0].is_genesis() {
            return false;
        }
        let mut i: usize = 1;
        while i < blocks.len()
            invariant
                1 <= i <= blocks@.len(),
                s == block_models(blocks@),
                s[0] == genesis_model(),
                forall|j: int| 1 <= j < i ==> #[trigger] step_valid(s, j),
            decreases blocks@.len() - i,
        {
            assert(s[i as int] == blocks@[i as int]@ && s[i - 1] == blocks@[i - 1]@);
            if !blocks[i].validate() || !extends(&blocks[i - 1], &blocks[i]) {
                assert(!step_valid(s, i as int));
                return false;
            }
            assert(step_valid(s, i as int));
            i = i + 1;
        }
        true
    }

    /// Adopts `candidate` when it is longer than this chain and valid; keeps
    /// this chain otherwise. Returns whether it adopted the candidate.
    pub fn replace_chain(&mut self, candidate: Vec<Block>) -> (r: bool)
        ensures
            r == (candidate@.len() > old(self)@.len() && chain_valid(block_models(candidate@))),
            final(self)@ == fork_choice(old(self)@, block_models(candidate@)),
            final(self)@.len() >= old(self)@.len(),
            chain_valid(final(self)@),
    {
        proof {
            use_type_invariant(&*self);
        }
        if candidate.len() <= self.blocks.len() {
            return false;
        }
        if !Chain::is_valid_chain(&candidate) {
            return false;
        }
        self.blocks = candidate;
        true
    }

    /// Appends `block` when it is valid and extends the tip; otherwise gives
    /// `Validation` and changes nothing.
    pub fn add_block(&mut self, block: Block) -> (r: Result<(), LedgerError>)
        ensures
            r is Ok <==> block_valid(block@) && linked(old(self)@.last(), block@),
            r is Ok ==> final(self)@ == old(self)@.push(block@),
            r is Err ==> r == Err::<(), LedgerError>(LedgerError::Validation) && final(self)@ == old(self)@,
            chain_valid(final(self)@),
    {
        proof {
            use_type_invariant(&*self);
        }
        let n = self.blocks.len();
        if !block.validate() || !extends(&self.blocks[n - 1], &block) {
            return Err(LedgerError::Validation);
        }
        let ghost before = block_models(self.blocks@);
        let mut blocks = vec![Block::genesis()];
        std::mem::swap(&mut self.blocks, &mut blocks);
        blocks.push(block);
        assert(block_models(blocks@) =~= before.push(block@));
        proof {
            lemma_push_valid(before, block@);
        }
        self.blocks = blocks;
        Ok(())
    }

    /// Mines a block over `transactions` on the tip and appends it. Fails
    /// with `Validation`, changing nothing, when the tip is at the greatest
    /// height or the nonces run out.
    pub fn mine(&mut self, transactions: Vec<Transaction>) -> (r: Result<(), LedgerError>)
        ensures
            r is Ok ==> final(self)@.len() == old(self)@.len() + 1
                && final(self)@.drop_last() == old(self)@
                && final(self)@.last().transactions == models(transactions@),
            r is Err ==> r == Err::<(), LedgerError>(LedgerError::Validation) && final(self)@ == old(self)@,
            old(self)@.last().header.height == i32::MAX ==> r == Err::<(), LedgerError>(LedgerError::Validation),
            chain_valid(final(self)@),
    {
        proof {
            use_type_invariant(&*self);
        }
        let n = self.blocks.len();
        let height = self.blocks[n - 1].header.height;
        if height == i32::MAX {
            return Err(LedgerError::Validation);
        }
        let prev = self.blocks[n - 1].hash.clone();
        let block = match Block::new(transactions, prev, height + 1) {
            Ok(b) => b,
            Err(e) => {
                return Err(e);
            },
        };
        let ghost before = block_models(self.blocks@);
        let mut blocks = vec![Block::genesis()];
        std::mem::swap(&mut self.blocks, &mut blocks);
        blocks.push(block);
        assert(block_models(blocks@) =~= before.push(block@));
        proof {
            lemma_push_valid(before, block@);
        }
        self.blocks = blocks;
        assert(block_models(self.blocks@).drop_last() =~= before);
        assert(self.blocks@.len() == before.len() + 1);
        Ok(())
    }
}

/// Walks a chain from the tip back to the genesis block.
pub struct ChainIterator<'a> {
    pub chain: &'a Chain,
    pub remaining: usize,
}

impl<'a> ChainIterator<'a> {
    /// The next block towards genesis, or `None` past the genesis block.
    pub fn next(&mut self) -> (r: Option<&'a Block>)
        requires
            old(self).remaining <= old(self).chain@.len(),
        ensures
            final(self).chain == old(self).chain,
            final(self).remaining <= final(self).chain@.len(),
            old(self).remaining == 0 ==> r is None && final(self).remaining == 0,
            old(self).remaining > 0 ==> final(self).remaining == old(self).remaining - 1 && r is Some
                && r->Some_0@ == old(self).chain@[old(self).remaining - 1],
    {
        if self.remaining == 0 {
            return None;
        }
        self.remaining = self.remaining - 1;
        let blocks = self.chain.blocks();
        Some(&blocks[self.remaining])
    }
}

} // verus!
