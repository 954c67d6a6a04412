//! The pool of pending transactions, replicated across peers: unique by id,
//! the latest submission of an id replacing the earlier one.

use vstd::prelude::*;
use crate::domain::wallet::{spends, spends_from};
use crate::domain::transaction::{
    all_spent_found, find_prev, find_tx, is_coinbase_model, models, tx_verifies, Transaction,
    TransactionModel,
};

verus! {

/// No two transactions share an id.
pub open spec fn ids_unique(s: Seq<TransactionModel>) -> bool {
    forall|i: int, j: int| 0 <= i < j < s.len() ==> s[i].id != s[j].id
}

/// `t` takes the place of the transaction with its id, or joins at the end.
pub open spec fn upsert(s: Seq<TransactionModel>, t: TransactionModel) -> Seq<TransactionModel> {
    match find_tx(s, t.id) {
        Some(k) => s.update(k, t),
        None => s.push(t),
    }
}

/// Whether `t` passes verification against `prevs`.
pub open spec fn accepted(t: TransactionModel, prevs: Seq<TransactionModel>) -> bool {
    is_coinbase_model(t) || (all_spent_found(t, prevs) && tx_verifies(t, prevs))
}

/// The transactions of `s` that pass verification, in order.
pub open spec fn accepted_only(s: Seq<TransactionModel>, prevs: Seq<TransactionModel>) -> Seq<TransactionModel>
    decreases s.len(),
{
    if s.len() == 0 {
        Seq::empty()
    } else if accepted(s.last(), prevs) {
        accepted_only(s.drop_last(), prevs).push(s.last())
    } else {
        accepted_only(s.drop_last(), prevs)
    }
}

/// The index that `find_tx` gives holds the id; when it gives none, no
/// transaction has the id.
pub proof fn lemma_find_tx(s: Seq<TransactionModel>, id: Seq<char>)
    ensures
        match find_tx(s, id) {
            Some(k) => 0 <= k < s.len() && s[k].id == id,
            None => forall|i: int| 0 <= i < s.len() ==> s[i].id != id,
        },
    decreases s.len(),
{
    if s.len() > 0 {
        lemma_find_tx(s.drop_last(), id);
        assert forall|i: int| 0 <= i < s.len() - 1 implies s.drop_last()[i] == s[i] by {}
    }
}

/// After `t` is submitted, exactly one pending transaction has its id, and it
/// is `t`.
pub proof fn lemma_upsert_single(s: Seq<TransactionModel>, t: TransactionModel)
    requires
        ids_unique(s),
    ensures
        ids_unique(upsert(s, t)),
        exists|k: int|
            0 <= k < upsert(s, t).len() && upsert(s, t)[k] == t && forall|j: int|
                0 <= j < upsert(s, t).len() && j != k ==> upsert(s, t)[j].id != t.id,
{
    lemma_find_tx(s, t.id);
    let u = upsert(s, t);
    match find_tx(s, t.id) {
        Some(k) => {
            assert(u[k] == t);
        },
        None => {
            assert(u[s.len() as int] == t);
        },
    }
}

/// Submitting two transactions that share an id leaves exactly one entry with
/// that id in the pool, equal to the one submitted last.
pub proof fn lemma_pool_dedup(s: Seq<TransactionModel>, t1: TransactionModel, t2: TransactionModel)
    requires
        ids_unique(s),
        t1.id == t2.id,
    ensures
        ({
            let p = upsert(upsert(s, t1), t2);
            &&& ids_unique(p)
            &&& exists|k: int|
                0 <= k < p.len() && p[k] == t2 && forall|j: int| 0 <= j < p.len() && j != k ==> p[j].id != t2.id
        }),
{
    lemma_upsert_single(s, t1);
    lemma_upsert_single(upsert(s, t1), t2);
}

/// Pending transactions, unique by id.
#[derive(Debug)]
pub struct Pool {
    transactions: Vec<Transaction>,
}

impl View for Pool {
    type V = Seq<TransactionModel>;

    closed spec fn view(&self) -> Seq<TransactionModel> {
        models(self.transactions@)
    }
}

impl Pool {
    #[verifier::type_invariant]
    spec fn wf(self) -> bool {
        ids_unique(models(self.transactions@))
    }

    /// An empty pool.
    pub fn new() -> (r: Pool)
        ensures
            r@ == Seq::<TransactionModel>::empty(),
    {
        let p = Pool { transactions: Vec::new() };
        assert(p@ =~= Seq::<TransactionModel>::empty());
        p
    }

    /// The pending transactions.
    pub fn transactions(&self) -> (r: &Vec<Transaction>)
        ensures
            models(r@) == self@,
            ids_unique(self@),
    {
        proof {
            use_type_invariant(self);
        }
        &self.transactions
    }

    /// Adds `transaction`, replacing the pending one with the same id if any.
    pub fn update_or_add_transaction(&mut self, transaction: Transaction)
        ensures
            final(self)@ == upsert(old(self)@, transaction@),
            ids_unique(final(self)@),
    {
        proof {
            use_type_invariant(&*self);
            lemma_upsert_single(models(self.transactions@), transaction@);
        }
        let ghost before = models(self.transactions@);
        let ghost t = transaction@;
        let found = find_prev(&self.transactions, &transaction.id);
        let mut txs: Vec<Transaction> = Vec::new();
        proof {
            assert(models(txs@) =~= Seq::<TransactionModel>::empty());
        }
        std::mem::swap(&mut self.transactions, &mut txs);
        match found {
            Some(k) => {
                txs.set(k, transaction);
            },
            None => {
                txs.push(transaction);
            },
        }
        assert(models(txs@) =~= upsert(before, t));
        self.transactions = txs;
    }

    /// Whether a transaction with this id is pending.
    pub fn has_transaction(&self, transaction_id: &String) -> (r: bool)
        ensures
            r == exists|k: int| 0 <= k < self@.len() && self@[k].id == transaction_id@,
    {
        let found = find_prev(&self.transactions, transaction_id);
        proof {
            lemma_find_tx(self@, transaction_id@);
        }
        found.is_some()
    }

    /// The pending transactions that pass verification against `prev_txs`,
    /// in pool order.
    pub fn valid_transactions(&self, prev_txs: &Vec<Transaction>) -> (r: Vec<&Transaction>)
        ensures
            r@.map_values(|t: &Transaction| t@) == accepted_only(self@, models(prev_txs@)),
    {
        let ghost s = self@;
        let ghost prevs = models(prev_txs@);
        let mut r: Vec<&Transaction> = Vec::new();
        let mut k: usize = 0;
        while k < self.transactions.len()
            invariant
                k <= self.transactions@.len(),
                s == models(self.transactions@),
                prevs == models(prev_txs@),
                r@.map_values(|t: &Transaction| t@) == accepted_only(s.subrange(0, k as int), prevs),
            decreases self.transactions@.len() - k,
        {
            let t = &self.transactions[k];
            let ghost pre = s.subrange(0, k as int);
            assert(s.subrange(0, k as int + 1).drop_last() =~= pre);
            assert(s.subrange(0, k as int + 1).last() == t@);
            let ok = match t.verify(prev_txs) {
                Ok(b) => b,
                Err(_) => false,
            };
            if ok {
                let ghost before = r@;
                r.push(t);
                assert(r@.map_values(|t: &Transaction| t@) =~= before.map_values(|t: &Transaction| t@).push(t@));
            }
            k = k + 1;
        }
        assert(s.subrange(0, self.transactions@.len() as int) =~= s);
        r
    }

    /// The first pending transaction with an input carrying `public_key`:
    /// the one a sender would extend.
    pub fn find_by_sender(&self, public_key: &[u8]) -> (r: Option<&Transaction>)
        ensures
            match r {
                Some(t) => exists|k: int|
                    0 <= k < self@.len() && self@[k] == t@ && spends_from(t@, public_key@) && forall|j: int|
                        0 <= j < k ==> !spends_from(self@[j], public_key@),
                None => forall|k: int| 0 <= k < self@.len() ==> !spends_from(self@[k], public_key@),
            },
    {
        let mut k: usize = 0;
        while k < self.transactions.len()
            invariant
                k <= self.transactions@.len(),
                forall|j: int| 0 <= j < k ==> !spends_from(self@[j], public_key@),
            decreases self.transactions@.len() - k,
        {
            assert(self@[k as int] == self.transactions@[k as int]@);
            if spends(&self.transactions[k], public_key) {
                return Some(&self.transactions[k]);
            }
            k = k + 1;
        }
        None
    }

    /// Empties the pool.
    pub fn clear(&mut self)
        ensures
            final(self)@ == Seq::<TransactionModel>::empty(),
    {
        self.transactions = Vec::new();
        assert(self@ =~= Seq::<TransactionModel>::empty());
    }
}

} // verus!
