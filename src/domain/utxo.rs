//! The set of unspent outputs and the choice of outputs to spend.

use vstd::prelude::*;
use crate::codec::bytes_eq;
use crate::domain::chain::{chain_txs, Chain};
use crate::domain::transaction::{
    is_coinbase_model, models, Transaction, TransactionModel, TXOutput, TxOutputModel,
};
use crate::error::LedgerError;

verus! {

/// One unspent output: the transaction that made it, its index there, and
/// the output itself.
#[derive(Debug, Clone)]
pub struct UtxoEntry {
    pub tx_id: String,
    pub index: i32,
    pub output: TXOutput,
}

/// A reference to one output of a transaction.
#[derive(Debug, Clone)]
pub struct OutPoint {
    pub tx_id: String,
    pub index: i32,
}

/// What an unspent-output entry holds, as sequences.
pub ghost struct UtxoModel {
    pub tx_id: Seq<char>,
    pub index: i32,
    pub output: TxOutputModel,
}

impl View for UtxoEntry {
    type V = UtxoModel;

    open spec fn view(&self) -> UtxoModel {
        UtxoModel { tx_id: self.tx_id@, index: self.index, output: self.output@ }
    }
}

impl View for OutPoint {
    type V = (Seq<char>, i32);

    open spec fn view(&self) -> (Seq<char>, i32) {
        (self.tx_id@, self.index)
    }
}

/// Scans `entries` in order, taking each output locked to `key` while less
/// than `amount` has been gathered: the sum gathered and what was taken.
pub open spec fn spend_scan(entries: Seq<UtxoModel>, key: Seq<u8>, amount: int) -> (int, Seq<(Seq<char>, i32)>)
    decreases entries.len(),
{
    if entries.len() == 0 {
        (0, Seq::empty())
    } else {
        let (acc, taken) = spend_scan(entries.drop_last(), key, amount);
        let e = entries.last();
        if e.output.pub_key_hash == key && acc < amount {
            (acc + e.output.value, taken.push((e.tx_id, e.index)))
        } else {
            (acc, taken)
        }
    }
}

/// The total value of the entries locked to `key`.
pub open spec fn locked_total(entries: Seq<UtxoModel>, key: Seq<u8>) -> int
    decreases entries.len(),
{
    if entries.len() == 0 {
        0
    } else if entries.last().output.pub_key_hash == key {
        locked_total(entries.drop_last(), key) + entries.last().output.value
    } else {
        locked_total(entries.drop_last(), key)
    }
}

/// With no negative output locked to `key`, a scan never gathers more than
/// the key's total; so asking for more than the total always falls short.
pub proof fn lemma_scan_within_total(entries: Seq<UtxoModel>, key: Seq<u8>, amount: int)
    requires
        forall|i: int|
            0 <= i < entries.len() && (#[trigger] entries[i]).output.pub_key_hash == key ==> entries[i].output.value >= 0,
    ensures
        spend_scan(entries, key, amount).0 <= locked_total(entries, key),
        amount > locked_total(entries, key) ==> spend_scan(entries, key, amount).0 < amount,
    decreases entries.len(),
{
    if entries.len() > 0 {
        let rest = entries.drop_last();
        assert forall|i: int| 0 <= i < rest.len() && (#[trigger] rest[i]).output.pub_key_hash == key implies rest[i].output.value >= 0 by {
            assert(rest[i] == entries[i]);
        }
        lemma_scan_within_total(rest, key, amount);
        assert(entries.last() == entries[entries.len() - 1]);
    }
}

proof fn lemma_total_bounds(entries: Seq<UtxoModel>, key: Seq<u8>)
    ensures
        -(entries.len() as int) * 0x8000_0000 <= locked_total(entries, key) <= (entries.len() as int) * 0x8000_0000,
    decreases entries.len(),
{
    if entries.len() > 0 {
        lemma_total_bounds(entries.drop_last(), key);
    }
}

/// The models of a list of entries.
pub open spec fn entry_models(es: Seq<UtxoEntry>) -> Seq<UtxoModel> {
    es.map_values(|e: UtxoEntry| e@)
}

/// The views of a list of output references.
pub open spec fn outpoint_views(ps: Seq<OutPoint>) -> Seq<(Seq<char>, i32)> {
    ps.map_values(|p: OutPoint| p@)
}

/// Bounds on what a scan gathers, which keep the sums within machine
/// integers.
pub proof fn lemma_scan_bounds(entries: Seq<UtxoModel>, key: Seq<u8>, amount: int)
    ensures
        spend_scan(entries, key, amount).0 >= -(entries.len() as int) * 0x8000_0000,
        spend_scan(entries, key, amount).0 < amount + 0x8000_0000 || spend_scan(entries, key, amount).0 == 0,
        spend_scan(entries, key, amount).1.len() <= entries.len(),
    decreases entries.len(),
{
    if entries.len() > 0 {
        lemma_scan_bounds(entries.drop_last(), key, amount);
    }
}

impl TXOutput {
    /// Whether this output is locked to `pub_key_hash`.
    pub fn is_locked_with_key(&self, pub_key_hash: &[u8]) -> (r: bool)
        ensures
            r == (self.pub_key_hash@ == pub_key_hash@),
    {
        bytes_eq(self.pub_key_hash.as_slice(), pub_key_hash)
    }
}

/// The unspent outputs, in a fixed order.
#[derive(Debug)]
pub struct UTXOSet {
    pub entries: Vec<UtxoEntry>,
}

impl UTXOSet {
    /// A set holding `entries`, scanned in the order given.
    pub fn new(entries: Vec<UtxoEntry>) -> (r: UTXOSet)
        ensures
            r.entries == entries,
    {
        UTXOSet { entries }
    }

    /// The total value locked to `pub_key_hash`: the owner's balance.
    pub fn balance(&self, pub_key_hash: &[u8]) -> (r: i128)
        ensures
            r == locked_total(entry_models(self.entries@), pub_key_hash@),
    {
        let ghost es = entry_models(self.entries@);
        let mut total: i128 = 0;
        let mut k: usize = 0;
        while k < self.entries.len()
            invariant
                k <= self.entries@.len(),
                es == entry_models(self.entries@),
                total == locked_total(es.subrange(0, k as int), pub_key_hash@),
            decreases self.entries@.len() - k,
        {
            let ghost pre = es.subrange(0, k as int);
            assert(es.subrange(0, k as int + 1).drop_last() =~= pre);
            assert(es.subrange(0, k as int + 1).last() == self.entries@[k as int]@);
            proof {
                lemma_total_bounds(pre, pub_key_hash@);
            }
            let e = &self.entries[k];
            if e.output.is_locked_with_key(pub_key_hash) {
                total = total + e.output.value as i128;
            }
            k = k + 1;
        }
        assert(es.subrange(0, self.entries@.len() as int) =~= es);
        total
    }

    /// Gathers outputs locked to `pub_key_hash`, in order, until `amount` is
    /// reached or the set is exhausted: the sum gathered and the outputs
    /// taken. Falling short is not an error here; the caller compares the sum
    /// with `amount`.
    pub fn find_spendable_outputs(&self, pub_key_hash: &[u8], amount: i32) -> (r: (i128, Vec<OutPoint>))
        ensures
            r.0 == spend_scan(entry_models(self.entries@), pub_key_hash@, amount as int).0,
            outpoint_views(r.1@) == spend_scan(entry_models(self.entries@), pub_key_hash@, amount as int).1,
    {
        let ghost es = entry_models(self.entries@);
        let mut acc: i128 = 0;
        let mut taken: Vec<OutPoint> = Vec::new();
        let mut k: usize = 0;
        while k < self.entries.len()
            invariant
                k <= self.entries@.len(),
                es == entry_models(self.entries@),
                acc == spend_scan(es.subrange(0, k as int), pub_key_hash@, amount as int).0,
                outpoint_views(taken@) == spend_scan(es.subrange(0, k as int), pub_key_hash@, amount as int).1,
            decreases self.entries@.len() - k,
        {
            let ghost pre = es.subrange(0, k as int);
            let ghost next = es.subrange(0, k as int + 1);
            assert(next.drop_last() =~= pre);
            proof {
                lemma_scan_bounds(pre, pub_key_hash@, amount as int);
            }
            let e = &self.entries[k];
            assert(next.last() == e@);
            if e.output.is_locked_with_key(pub_key_hash) && acc < amount as i128 {
                acc = acc + e.output.value as i128;
                let ghost before = taken@;
                taken.push(OutPoint { tx_id: e.tx_id.clone(), index: e.index });
                assert(outpoint_views(taken@) =~= outpoint_views(before).push((e.tx_id@, e.index)));
            }
            k = k + 1;
        }
        assert(es.subrange(0, self.entries@.len() as int) =~= es);
        (acc, taken)
    }
}

/// Where unspent outputs are kept between runs.
pub trait UTXORepository {
    /// Every stored unspent output, in a fixed order.
    fn get_all_utxos(&self) -> Result<Vec<UtxoEntry>, LedgerError>;

    /// Replaces the stored outputs by `utxos`.
    fn store_utxos(&self, utxos: &Vec<UtxoEntry>) -> Result<(), LedgerError>;
}

/// Some input of a non-coinbase transaction of `txs` spends output `index`
/// of the transaction `id`.
pub open spec fn is_spent(txs: Seq<TransactionModel>, id: Seq<char>, index: int) -> bool {
    exists|k: int, j: int|
        0 <= k < txs.len() && !is_coinbase_model(txs[k]) && 0 <= j < txs[k].input.len()
            && #[trigger] txs[k].input[j].id == id && txs[k].input[j].out == index
}

/// The outputs of `t`, the first `n`, that no transaction of `all` spends, in
/// order.
pub open spec fn unspent_outputs_of(all: Seq<TransactionModel>, t: TransactionModel, n: nat) -> Seq<UtxoModel>
    decreases n,
{
    if n == 0 {
        Seq::empty()
    } else {
        let i = n - 1;
        let rest = unspent_outputs_of(all, t, i as nat);
        if is_spent(all, t.id, i) {
            rest
        } else {
            rest.push(UtxoModel { tx_id: t.id, index: i as i32, output: t.output[i] })
        }
    }
}

/// How many outputs of `t` can be referenced: an input names its output by a
/// 32-bit index.
pub open spec fn addressable(t: TransactionModel) -> nat {
    if t.output.len() <= 0x8000_0000 {
        t.output.len()
    } else {
        0x8000_0000
    }
}

/// The outputs of `txs` that no transaction of `all` spends, transaction by
/// transaction.
pub open spec fn unspent_of(all: Seq<TransactionModel>, txs: Seq<TransactionModel>) -> Seq<UtxoModel>
    decreases txs.len(),
{
    if txs.len() == 0 {
        Seq::empty()
    } else {
        unspent_of(all, txs.drop_last()) + unspent_outputs_of(all, txs.last(), addressable(txs.last()))
    }
}

/// Whether some input of a non-coinbase transaction of `txs` spends output
/// `index` of the transaction `id`.
fn spent_in(txs: &Vec<Transaction>, id: &String, index: i32) -> (r: bool)
    ensures
        r == is_spent(models(txs@), id@, index as int),
{
    let ghost ms = models(txs@);
    let mut k: usize = 0;
    while k < txs.len()
        invariant
            k <= txs@.len(),
            ms == models(txs@),
            forall|a: int, j: int|
                0 <= a < k && !is_coinbase_model(ms[a]) && 0 <= j < ms[a].input.len() ==> !(
                #[trigger] ms[a].input[j].id == id@ && ms[a].input[j].out == index),
        decreases txs@.len() - k,
    {
        let t = &txs[k];
        assert(ms[k as int] == t@);
        if !t.is_coinbase() {
            let mut j: usize = 0;
            while j < t.input.len()
                invariant
                    j <= t.input@.len(),
                    k < txs@.len(),
                    ms == models(txs@),
                    ms[k as int] == t@,
                    !is_coinbase_model(t@),
                    forall|b: int| 0 <= b < j ==> !(#[trigger] t@.input[b].id == id@ && t@.input[b].out == index),
                decreases t.input@.len() - j,
            {
                assert(t@.input[j as int] == t.input@[j as int]@);
                if t.input[j].out == index && t.input[j].id == *id {
                    assert(ms[k as int].input[j as int].id == id@ && ms[k as int].input[j as int].out == index);
                    assert(is_spent(ms, id@, index as int));
                    return true;
                }
                j = j + 1;
            }
        }
        k = k + 1;
    }
    false
}

impl UTXOSet {
    /// The outputs `repo` holds.
    pub fn from_repository<R: UTXORepository>(repo: &R) -> Result<UTXOSet, LedgerError> {
        match repo.get_all_utxos() {
            Ok(entries) => Ok(UTXOSet { entries }),
            Err(e) => Err(e),
        }
    }

    /// The unspent outputs of `chain`, found by replaying it: every output of
    /// every transaction that no non-coinbase input of the chain spends, in
    /// chain order.
    pub fn reindex(chain: &Chain) -> (r: UTXOSet)
        ensures
            entry_models(r.entries@) == unspent_of(chain_txs(chain@), chain_txs(chain@)),
    {
        let txs = chain.transactions();
        let ghost all = models(txs@);
        let mut entries: Vec<UtxoEntry> = Vec::new();
        let mut k: usize = 0;
        while k < txs.len()
            invariant
                k <= txs@.len(),
                all == models(txs@),
                all == chain_txs(chain@),
                entry_models(entries@) == unspent_of(all, all.subrange(0, k as int)),
            decreases txs@.len() - k,
        {
            let t = &txs[k];
            let ghost pre = all.subrange(0, k as int);
            assert(all.subrange(0, k as int + 1).drop_last() =~= pre);
            assert(all.subrange(0, k as int + 1).last() == t@);
            let ghost start = entry_models(entries@);
            let n: usize = if t.output.len() <= 0x8000_0000 { t.output.len() } else { 0x8000_0000 };
            let mut i: usize = 0;
            while i < n
                invariant
                    i <= n,
                    n == addressable(t@),
                    n <= t.output@.len(),
                    all == models(txs@),
                    entry_models(entries@) == start + unspent_outputs_of(all, t@, i as nat),
                decreases n - i,
            {
                if !spent_in(&txs, &t.id, i as i32) {
                    let o = &t.output[i];
                    assert(t@.output[i as int] == o@);
                    let ghost before = entry_models(entries@);
                    entries.push(UtxoEntry {
                        tx_id: t.id.clone(),
                        index: i as i32,
                        output: TXOutput { value: o.value, pub_key_hash: crate::codec::copy_bytes(o.pub_key_hash.as_slice()) },
                    });
                    assert(entry_models(entries@) =~= before.push(
                        UtxoModel { tx_id: t@.id, index: i as i32, output: t@.output[i as int] },
                    ));
                }
                i = i + 1;
            }
            k = k + 1;
        }
        assert(all.subrange(0, txs@.len() as int) =~= all);
        UTXOSet { entries }
    }
}

} // verus!
