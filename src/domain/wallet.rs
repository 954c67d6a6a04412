//! A key pair, the address it receives at, its balance, and the
//! transactions it sends.

use vstd::prelude::*;
use crate::codec::{bytes_eq, copy_bytes};
use crate::domain::chain::{chain_txs, Chain};
use crate::domain::transaction::{
    all_spent_found, is_coinbase_model, models, signed_for, tx_hash, Transaction, TransactionModel, TxInputModel, TxOutputModel, TXInput, TXOutput,
};
use crate::domain::utxo::{entry_models, locked_total, spend_scan, UTXOSet};
use crate::error::LedgerError;
use crate::hashing::{hash_pub_key, ripemd160_of, sha256_of};
use crate::cryptography::falcon512::{generated_signing_key, keygen, seeded_keypair_of};
use crate::scheme::{decoded_address, fndsa_accepts, verifying_key_of, key_address, FNDSAAlgorithm, FNDSAPublicKey, FNDSASecretKey};
use crate::wallet::transaction_pool::{upsert, Pool};

verus! {

/// Some input of `t` carries `pub_key`.
pub open spec fn spends_from(t: TransactionModel, pub_key: Seq<u8>) -> bool {
    exists|j: int| 0 <= j < t.input.len() && t.input[j].pub_key == pub_key
}

/// The value of the first of `outs` locked to `key_hash`, or 0.
pub open spec fn first_credit(outs: Seq<TxOutputModel>, key_hash: Seq<u8>) -> int
    decreases outs.len(),
{
    if outs.len() == 0 {
        0
    } else if outs[0].pub_key_hash == key_hash {
        outs[0].value as int
    } else {
        first_credit(outs.drop_first(), key_hash)
    }
}

/// The balance found by scanning `txs` in order: unknown until a transaction
/// spends from the key; then the value that transaction credits back, plus
/// what each later transaction credits.
pub open spec fn balance_scan(txs: Seq<TransactionModel>, pub_key: Seq<u8>, key_hash: Seq<u8>) -> Option<int>
    decreases txs.len(),
{
    if txs.len() == 0 {
        None
    } else {
        let t = txs.last();
        if spends_from(t, pub_key) {
            Some(first_credit(t.output, key_hash))
        } else {
            match balance_scan(txs.drop_last(), pub_key, key_hash) {
                Some(b) => Some(b + first_credit(t.output, key_hash)),
                None => None,
            }
        }
    }
}

/// The inputs spending the outputs `taken`, each carrying `pub_key`.
pub open spec fn spend_inputs(taken: Seq<(Seq<char>, i32)>, pub_key: Seq<u8>) -> Seq<TxInputModel> {
    Seq::new(
        taken.len(),
        |j: int| TxInputModel { id: taken[j].0, out: taken[j].1, signature: Seq::empty(), pub_key },
    )
}

/// The outputs of a payment of `amount` to `to_hash`, with the change above
/// `amount` returned to `change_hash`.
pub open spec fn spend_outputs(amount: i32, to_hash: Seq<u8>, gathered: int, change_hash: Seq<u8>) -> Seq<TxOutputModel> {
    if gathered > amount {
        seq![
            TxOutputModel { value: amount, pub_key_hash: to_hash },
            TxOutputModel { value: (gathered - amount) as i32, pub_key_hash: change_hash },
        ]
    } else {
        seq![TxOutputModel { value: amount, pub_key_hash: to_hash }]
    }
}

/// Output `c` is the first of `outs` locked to `key_hash`.
pub open spec fn first_locked_at(outs: Seq<TxOutputModel>, key_hash: Seq<u8>, c: int) -> bool {
    &&& 0 <= c < outs.len()
    &&& outs[c].pub_key_hash == key_hash
    &&& forall|j: int| 0 <= j < c ==> outs[j].pub_key_hash != key_hash
}

/// `p` with `amount` taken from its change output `c` and paid to `to_hash`
/// in a new last output.
pub open spec fn extended(p: TransactionModel, c: int, amount: i32, to_hash: Seq<u8>) -> TransactionModel {
    TransactionModel {
        output: p.output.update(c, TxOutputModel { value: (p.output[c].value - amount) as i32, ..p.output[c] }).push(
            TxOutputModel { value: amount, pub_key_hash: to_hash },
        ),
        ..p
    }
}

/// The change that `p` returns to `key_hash` covers `amount`.
pub open spec fn change_covers(p: TransactionModel, key_hash: Seq<u8>, amount: i32) -> bool {
    exists|c: int| first_locked_at(p.output, key_hash, c) && p.output[c].value >= amount
}

/// What extending the pending transaction `p` of the wallet whose key hash is
/// `key_hash` (and whose signing key is `secret_key`) by a payment of `amount`
/// to `recipient` gives, as `r`.
pub open spec fn extension_outcome(
    p: TransactionModel,
    key_hash: Seq<u8>,
    secret_key: Seq<u8>,
    recipient: Seq<char>,
    amount: i32,
    prevs: Seq<TransactionModel>,
    r: Result<Transaction, LedgerError>,
) -> bool {
    let ready = amount > 0 && change_covers(p, key_hash, amount);
    &&& amount <= 0 ==> r == Err::<Transaction, LedgerError>(LedgerError::Validation)
    &&& (amount > 0 && !change_covers(p, key_hash, amount)) <==> r == Err::<Transaction, LedgerError>(
        LedgerError::InsufficientFunds,
    )
    &&& ready && decoded_address(recipient) is None ==> r == Err::<Transaction, LedgerError>(LedgerError::Validation)
    &&& (ready && decoded_address(recipient) is Some && !is_coinbase_model(p) && !all_spent_found(p, prevs))
        <==> r == Err::<Transaction, LedgerError>(LedgerError::NotFound)
    &&& r == Err::<Transaction, LedgerError>(LedgerError::Validation) ==> amount <= 0 || (ready && (decoded_address(
        recipient,
    ) is None || all_spent_found(p, prevs)))
    &&& r is Err ==> r == Err::<Transaction, LedgerError>(LedgerError::Validation) || r == Err::<
        Transaction,
        LedgerError,
    >(LedgerError::InsufficientFunds) || r == Err::<Transaction, LedgerError>(LedgerError::NotFound)
    &&& r is Ok ==> {
        let t = r->Ok_0@;
        &&& ready
        &&& decoded_address(recipient) is Some
        &&& exists|c: int|
            #![trigger first_locked_at(p.output, key_hash, c)]
            first_locked_at(p.output, key_hash, c) && {
                let asked = extended(p, c, amount, decoded_address(recipient)->Some_0);
                &&& t.id == asked.id
                &&& t.output == asked.output
                &&& t.input.len() == asked.input.len()
                &&& forall|j: int|
                    0 <= j < t.input.len() ==> (#[trigger] t.input[j]) == (TxInputModel {
                        signature: t.input[j].signature,
                        ..asked.input[j]
                    })
                &&& !is_coinbase_model(asked) && generated_signing_key(secret_key) ==> forall|j: int|
                    0 <= j < t.input.len() ==> signed_for(
                        asked,
                        prevs,
                        j,
                        verifying_key_of(secret_key),
                        #[trigger] t.input[j].signature,
                    )
            }
    }
}

/// A key pair of the ledger's signature scheme.
#[derive(Debug, Clone, PartialEq)]
pub struct Wallet {
    pub secret_key: FNDSASecretKey,
    pub public_key: FNDSAPublicKey,
}

/// The value of the first of `outs` locked to `key_hash`, or 0.
fn credit_of(outs: &Vec<TXOutput>, key_hash: &[u8]) -> (r: i32)
    ensures
        r == first_credit(outs@.map_values(|o: TXOutput| o@), key_hash@),
{
    let ghost ms = outs@.map_values(|o: TXOutput| o@);
    assert(ms.subrange(0, ms.len() as int) =~= ms);
    let mut k: usize = 0;
    while k < outs.len()
        invariant
            k <= outs@.len(),
            ms == outs@.map_values(|o: TXOutput| o@),
            first_credit(ms, key_hash@) == first_credit(ms.subrange(k as int, ms.len() as int), key_hash@),
        decreases outs@.len() - k,
    {
        let ghost rest = ms.subrange(k as int, ms.len() as int);
        assert(rest.drop_first() =~= ms.subrange(k as int + 1, ms.len() as int));
        assert(rest[0] == outs@[k as int]@);
        if outs[k].is_locked_with_key(key_hash) {
            return outs[k].value;
        }
        k = k + 1;
    }
    assert(ms.subrange(k as int, ms.len() as int) =~= Seq::<TxOutputModel>::empty());
    0
}

/// Whether some input of `t` carries `pub_key`.
pub(crate) fn spends(t: &Transaction, pub_key: &[u8]) -> (r: bool)
    ensures
        r == spends_from(t@, pub_key@),
{
    let mut k: usize = 0;
    while k < t.input.len()
        invariant
            k <= t.input@.len(),
            forall|j: int| 0 <= j < k ==> t@.input[j].pub_key != pub_key@,
        decreases t.input@.len() - k,
    {
        assert(t@.input[k as int] == t.input@[k as int]@);
        if bytes_eq(t.input[k].pub_key.as_slice(), pub_key) {
            return true;
        }
        k = k + 1;
    }
    false
}

/// Every transaction of `chain`, in chain order.
fn all_transactions(chain: &Chain) -> (r: Vec<&Transaction>)
    ensures
        r@.map_values(|t: &Transaction| t@) == chain_txs(chain@),
{
    let blocks = chain.blocks();
    let ghost bs = chain@;
    let mut r: Vec<&Transaction> = Vec::new();
    let mut i: usize = 0;
    while i < blocks.len()
        invariant
            i <= blocks@.len(),
            bs == chain@,
            crate::domain::chain::block_models(blocks@) == bs,
            r@.map_values(|t: &Transaction| t@) == chain_txs(bs.subrange(0, i as int)),
        decreases blocks@.len() - i,
    {
        let txs = &blocks[i].transactions;
        let ghost start = r@.map_values(|t: &Transaction| t@);
        let mut j: usize = 0;
        while j < txs.len()
            invariant
                j <= txs@.len(),
                r@.map_values(|t: &Transaction| t@) == start + models(txs@).subrange(0, j as int),
            decreases txs@.len() - j,
        {
            let ghost before = r@;
            r.push(&txs[j]);
            assert(r@.map_values(|t: &Transaction| t@) =~= before.map_values(|t: &Transaction| t@).push(txs@[j as int]@));
            assert(models(txs@).subrange(0, j as int + 1) =~= models(txs@).subrange(0, j as int).push(txs@[j as int]@));
            assert(r@.map_values(|t: &Transaction| t@) =~= start + models(txs@).subrange(0, j as int + 1));
            j = j + 1;
        }
        assert(bs.subrange(0, i as int + 1).drop_last() =~= bs.subrange(0, i as int));
        assert(bs[i as int] == blocks@[i as int]@);
        assert(models(txs@).subrange(0, txs@.len() as int) =~= bs[i as int].transactions);
        i = i + 1;
    }
    assert(bs.subrange(0, blocks@.len() as int) =~= bs);
    r
}

/// A balance found over `txs` stays within `txs.len()` times the range of an
/// output value.
proof fn lemma_balance_bounds(txs: Seq<TransactionModel>, pub_key: Seq<u8>, key_hash: Seq<u8>)
    ensures
        balance_scan(txs, pub_key, key_hash) is Some ==> {
            let b = balance_scan(txs, pub_key, key_hash)->Some_0;
            -(txs.len() as int) * 0x8000_0000 <= b <= (txs.len() as int) * 0x8000_0000
        },
    decreases txs.len(),
{
    if txs.len() > 0 {
        lemma_balance_bounds(txs.drop_last(), pub_key, key_hash);
        lemma_first_credit_bounds(txs.last().output, key_hash);
    }
}

/// A credit is one output value.
proof fn lemma_first_credit_bounds(outs: Seq<TxOutputModel>, key_hash: Seq<u8>)
    ensures
        -0x8000_0000 <= first_credit(outs, key_hash) < 0x8000_0000,
    decreases outs.len(),
{
    if outs.len() > 0 {
        lemma_first_credit_bounds(outs.drop_first(), key_hash);
    }
}

impl Wallet {
    /// A wallet with a fresh key pair.
    pub fn new() -> (r: Wallet)
        ensures
            r.public_key.0@ == verifying_key_of(r.secret_key.0@),
            generated_signing_key(r.secret_key.0@),
    {
        let (secret_key, public_key) = FNDSAAlgorithm::generate_keypair();
        Wallet { secret_key, public_key }
    }

    /// The address that payments to this wallet are locked to.
    pub fn get_address(&self) -> (r: String)
        ensures
            r@ == key_address(self.public_key.0@),
            decoded_address(r@) == Some(ripemd160_of(sha256_of(self.public_key.0@))),
    {
        FNDSAAlgorithm::get_address(&self.public_key)
    }

    /// The wallet of the ledger itself, whose keys are drawn from the all-zero
    /// seed.
    pub fn blockchain_wallet() -> (r: Wallet)
        ensures
            (r.secret_key.0@, r.public_key.0@) == seeded_keypair_of(Seq::new(32, |i: int| 0u8)),
            r.public_key.0@ == verifying_key_of(r.secret_key.0@),
            generated_signing_key(r.secret_key.0@),
    {
        let seed = [0u8; 32];
        assert(seed@ =~= Seq::new(32, |i: int| 0u8));
        let (sk, pk) = keygen(seed);
        Wallet { secret_key: FNDSASecretKey(sk.0), public_key: FNDSAPublicKey(pk.0) }
    }

    /// A signature on `message` with this wallet's key, or `None` when the key
    /// cannot sign.
    pub fn sign(&self, message: &[u8]) -> (r: Option<Vec<u8>>)
        ensures
            generated_signing_key(self.secret_key.0@) ==> (r matches Some(sig) ==> fndsa_accepts(
                verifying_key_of(self.secret_key.0@),
                message@,
                sig@,
            )),
    {
        FNDSAAlgorithm::sign(&self.secret_key, message)
    }

    /// Whether `signature` on `message` is valid under this wallet's key.
    pub fn verify(&self, message: &[u8], signature: &[u8]) -> (r: bool)
        ensures
            r == fndsa_accepts(self.public_key.0@, message@, signature@),
    {
        FNDSAAlgorithm::verify(&self.public_key, message, signature)
    }

    /// The hash of this wallet's verifying key, which its outputs are locked to.
    pub fn key_hash(&self) -> (r: Vec<u8>)
        ensures
            r@ == ripemd160_of(sha256_of(self.public_key.0@)),
    {
        let mut h = copy_bytes(self.public_key.0.as_slice());
        hash_pub_key(&mut h);
        h
    }

    /// The balance read off the chain alone: `initial` while this wallet has
    /// never spent; otherwise what its latest spending transaction credited
    /// back to it plus what later transactions credited to it.
    pub fn calc_balance(&self, chain: &Chain, initial: i64) -> (r: i128)
        ensures
            r == match balance_scan(chain_txs(chain@), self.public_key.0@, ripemd160_of(sha256_of(self.public_key.0@))) {
                Some(b) => b,
                None => initial as int,
            },
    {
        let txs = all_transactions(chain);
        let kh = self.key_hash();
        let pk = self.public_key.0.as_slice();
        let ghost s = txs@.map_values(|t: &Transaction| t@);
        let mut seen = false;
        let mut balance: i128 = 0;
        let mut k: usize = 0;
        while k < txs.len()
            invariant
                k <= txs@.len(),
                s == txs@.map_values(|t: &Transaction| t@),
                seen == (balance_scan(s.subrange(0, k as int), pk@, kh@) is Some),
                seen ==> balance == balance_scan(s.subrange(0, k as int), pk@, kh@)->Some_0,
            decreases txs@.len() - k,
        {
            let t = txs[k];
            let ghost pre = s.subrange(0, k as int);
            assert(s.subrange(0, k as int + 1).drop_last() =~= pre);
            assert(s.subrange(0, k as int + 1).last() == t@);
            proof {
                lemma_balance_bounds(pre, pk@, kh@);
            }
            let credit = credit_of(&t.output, kh.as_slice());
            if spends(t, pk) {
                seen = true;
                balance = credit as i128;
            } else if seen {
                balance = balance + credit as i128;
            }
            k = k + 1;
        }
        assert(s.subrange(0, txs@.len() as int) =~= s);
        if seen {
            balance
        } else {
            initial as i128
        }
    }

    /// Extends `pending`, a transaction of this wallet not yet mined, by a
    /// payment of `amount` to `recipient`: the amount comes out of the first
    /// output that returns change to this wallet and goes to a new last
    /// output; the id stays, so the pool replaces the earlier version. The
    /// transaction is signed again against `prev_txs`.
    pub fn extend_transaction(
        &self,
        pending: &Transaction,
        recipient: &str,
        amount: i32,
        prev_txs: &Vec<Transaction>,
    ) -> (r: Result<Transaction, LedgerError>)
        ensures
            extension_outcome(
                pending@,
                ripemd160_of(sha256_of(self.public_key.0@)),
                self.secret_key.0@,
                recipient@,
                amount,
                models(prev_txs@),
                r,
            ),
    {
        if amount <= 0 {
            return Err(LedgerError::Validation);
        }
        let kh = self.key_hash();
        let ghost p = pending@;
        let mut c: usize = 0;
        let mut found = false;
        while !found && c < pending.output.len()
            invariant
                c <= pending.output@.len(),
                p == pending@,
                found ==> c < pending.output@.len() && p.output[c as int].pub_key_hash == kh@,
                forall|j: int| 0 <= j < c ==> p.output[j].pub_key_hash != kh@,
            decreases pending.output@.len() - c - (if found { 1int } else { 0int }),
        {
            assert(p.output[c as int] == pending.output@[c as int]@);
            if pending.output[c].is_locked_with_key(kh.as_slice()) {
                found = true;
            } else {
                c = c + 1;
            }
        }
        if !found || pending.output[c].value < amount {
            assert(!change_covers(p, kh@, amount)) by {
                if change_covers(p, kh@, amount) {
                    let c2 = choose|c2: int| first_locked_at(p.output, kh@, c2) && p.output[c2].value >= amount;
                    if c2 != c {
                        assert(c < p.output.len());
                        assert(p.output[c as int] == pending.output@[c as int]@);
                    }
                }
            }
            return Err(LedgerError::InsufficientFunds);
        }
        assert(p.output[c as int] == pending.output@[c as int]@);
        assert(first_locked_at(p.output, kh@, c as int));
        assert(change_covers(p, kh@, amount));
        let to = match TXOutput::new(amount, recipient) {
            Ok(o) => o,
            Err(e) => {
                return Err(e);
            },
        };
        let mut tx = pending.duplicate();
        let mut output: Vec<TXOutput> = Vec::new();
        let mut k: usize = 0;
        while k < pending.output.len()
            invariant
                k <= pending.output@.len(),
                c < pending.output@.len(),
                p == pending@,
                pending.output@[c as int].value >= amount > 0,
                output@.len() == k,
                forall|j: int|
                    0 <= j < k ==> (#[trigger] output@[j])@ == p.output.update(
                        c as int,
                        TxOutputModel { value: (p.output[c as int].value - amount) as i32, ..p.output[c as int] },
                    )[j],
            decreases pending.output@.len() - k,
        {
            let o = &pending.output[k];
            assert(p.output[k as int] == o@);
            let value = if k == c { o.value - amount } else { o.value };
            output.push(TXOutput { value, pub_key_hash: copy_bytes(o.pub_key_hash.as_slice()) });
            k = k + 1;
        }
        output.push(to);
        tx.output = output;
        let ghost asked = extended(p, c as int, amount, decoded_address(recipient@)->Some_0);
        assert(tx@.output =~= asked.output);
        assert(tx@ == asked);
        match tx.sign(&self.secret_key, prev_txs) {
            Ok(()) => {},
            Err(e) => {
                return Err(e);
            },
        }
        Ok(tx)
    }

    /// Pays `amount` to `recipient` from this wallet's unspent outputs in
    /// `utxo`, returning change to itself, signs the transaction against
    /// `prev_txs` and adds it to `pool`. An amount that is not positive gives
    /// `Validation`. An amount above the balance locked to this wallet, or
    /// gathering less than `amount`, gives
    /// `InsufficientFunds`; a recipient address that does not decode gives
    /// `Validation`; a spent output missing from `prev_txs` gives `NotFound`.
    /// On any error the pool is left as it was. When the pool already holds a
    /// transaction this wallet is spending from, that transaction is extended
    /// instead (see [`Wallet::extend_transaction`]), so the same outputs are
    /// never spent twice before mining.
    pub fn create_transaction(
        &self,
        recipient: &str,
        amount: i32,
        utxo: &UTXOSet,
        prev_txs: &Vec<Transaction>,
        pool: &mut Pool,
    ) -> (r: Result<Transaction, LedgerError>)
        ensures
            r is Err ==> final(pool)@ == old(pool)@,
            amount <= 0 ==> r == Err::<Transaction, LedgerError>(LedgerError::Validation),
            (exists|k: int| 0 <= k < old(pool)@.len() && spends_from(old(pool)@[k], self.public_key.0@)) ==> exists|
                k: int,
            |
                0 <= k < old(pool)@.len() && #[trigger] spends_from(old(pool)@[k], self.public_key.0@) && (forall|j: int|
                    0 <= j < k ==> !spends_from(old(pool)@[j], self.public_key.0@)) && extension_outcome(
                    old(pool)@[k],
                    ripemd160_of(sha256_of(self.public_key.0@)),
                    self.secret_key.0@,
                    recipient@,
                    amount,
                    models(prev_txs@),
                    r,
                ) && (r is Ok ==> final(pool)@ == upsert(old(pool)@, r->Ok_0@)),
            (forall|k: int| 0 <= k < old(pool)@.len() ==> !spends_from(old(pool)@[k], self.public_key.0@)) ==> ({
                let kh = ripemd160_of(sha256_of(self.public_key.0@));
                let scan = spend_scan(entry_models(utxo.entries@), kh, amount as int);
                let to_hash = decoded_address(recipient@)->Some_0;
                let unsigned = TransactionModel {
                    id: Seq::empty(),
                    input: spend_inputs(scan.1, self.public_key.0@),
                    output: spend_outputs(amount, to_hash, scan.0, kh),
                };
                let sealed = TransactionModel { id: tx_hash(unsigned), ..unsigned };
                let short = amount > locked_total(entry_models(utxo.entries@), kh) || scan.0 < amount;
                let funded = amount > 0 && !short;
                &&& amount <= 0 ==> r == Err::<Transaction, LedgerError>(LedgerError::Validation)
                &&& (amount > 0 && short) <==> r == Err::<Transaction, LedgerError>(LedgerError::InsufficientFunds)
                &&& funded && decoded_address(recipient@) is None ==> r == Err::<Transaction, LedgerError>(
                    LedgerError::Validation,
                )
                &&& (funded && decoded_address(recipient@) is Some && !is_coinbase_model(unsigned) && !all_spent_found(
                    unsigned,
                    models(prev_txs@),
                )) <==> r == Err::<Transaction, LedgerError>(LedgerError::NotFound)
                &&& r == Err::<Transaction, LedgerError>(LedgerError::Validation) ==> amount <= 0 || (funded && (
                decoded_address(recipient@) is None || all_spent_found(unsigned, models(prev_txs@))))
                &&& r is Err ==> r == Err::<Transaction, LedgerError>(LedgerError::Validation) || r == Err::<
                    Transaction,
                    LedgerError,
                >(LedgerError::InsufficientFunds) || r == Err::<Transaction, LedgerError>(LedgerError::NotFound)
                &&& r is Err ==> final(pool)@ == old(pool)@
                &&& r is Ok ==> {
                    let t = r->Ok_0@;
                    &&& funded
                    &&& decoded_address(recipient@) is Some
                    &&& t.id == sealed.id
                    &&& t.output == unsigned.output
                    &&& t.input.len() == unsigned.input.len()
                    &&& forall|j: int|
                        0 <= j < t.input.len() ==> (#[trigger] t.input[j]) == (TxInputModel {
                            signature: t.input[j].signature,
                            ..unsigned.input[j]
                        })
                    &&& !is_coinbase_model(unsigned) && generated_signing_key(self.secret_key.0@) ==> forall|j: int|
                        0 <= j < t.input.len() ==> signed_for(
                            sealed,
                            models(prev_txs@),
                            j,
                            verifying_key_of(self.secret_key.0@),
                            #[trigger] t.input[j].signature,
                        )
                    &&& final(pool)@ == upsert(old(pool)@, t)
                }
            }),
    {
        let pending = pool.find_by_sender(self.public_key.0.as_slice());
        match pending {
            Some(p) => {
                let extended = self.extend_transaction(p, recipient, amount, prev_txs);
                match extended {
                    Ok(t) => {
                        let copy = t.duplicate();
                        pool.update_or_add_transaction(copy);
                        return Ok(t);
                    },
                    Err(e) => {
                        return Err(e);
                    },
                }
            },
            None => {},
        }
        if amount <= 0 {
            return Err(LedgerError::Validation);
        }
        let kh = self.key_hash();
        if amount as i128 > utxo.balance(kh.as_slice()) {
            return Err(LedgerError::InsufficientFunds);
        }
        let (gathered, taken) = utxo.find_spendable_outputs(kh.as_slice(), amount);
        proof {
            crate::domain::utxo::lemma_scan_bounds(entry_models(utxo.entries@), kh@, amount as int);
        }
        if gathered < amount as i128 {
            return Err(LedgerError::InsufficientFunds);
        }
        let to = match TXOutput::new(amount, recipient) {
            Ok(o) => o,
            Err(e) => {
                return Err(e);
            },
        };
        let ghost scan = spend_scan(entry_models(utxo.entries@), kh@, amount as int);
        let mut input: Vec<TXInput> = Vec::new();
        let mut k: usize = 0;
        while k < taken.len()
            invariant
                k <= taken@.len(),
                input@.len() == k,
                crate::domain::utxo::outpoint_views(taken@) == scan.1,
                forall|j: int|
                    0 <= j < k ==> (#[trigger] input@[j])@ == spend_inputs(scan.1, self.public_key.0@)[j],
            decreases taken@.len() - k,
        {
            assert(scan.1[k as int] == taken@[k as int]@);
            input.push(TXInput {
                id: taken[k].tx_id.clone(),
                out: taken[k].index,
                signature: Vec::new(),
                pub_key: copy_bytes(self.public_key.0.as_slice()),
            });
            k = k + 1;
        }
        let mut output: Vec<TXOutput> = Vec::new();
        output.push(to);
        if gathered > amount as i128 {
            output.push(TXOutput { value: (gathered - amount as i128) as i32, pub_key_hash: kh });
        }
        let mut tx = Transaction { id: String::new(), input, output };
        let ghost to_hash = decoded_address(recipient@)->Some_0;
        assert(tx@.input =~= spend_inputs(scan.1, self.public_key.0@));
        assert(tx@.output =~= spend_outputs(amount, to_hash, scan.0, kh@));
        tx.id = tx.hash();
        match tx.sign(&self.secret_key, prev_txs) {
            Ok(()) => {},
            Err(e) => {
                return Err(e);
            },
        }
        let copy = tx.duplicate();
        pool.update_or_add_transaction(copy);
        Ok(tx)
    }
}

} // verus!
