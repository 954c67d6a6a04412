//! Transactions over unspent outputs, their hash, and per-input signatures.

use vstd::prelude::*;
use crate::codec::{enc_bytes, enc_i32, enc_str, le_bytes, copy_bytes, push_bytes, push_i32, push_le, push_str};
use crate::cryptography::falcon512::generated_signing_key;
use crate::error::LedgerError;
use crate::hashing::{sha256_hex, sha256_hex_of};
use crate::scheme::{decoded_address, parse_address, fndsa_accepts, verifying_key_of, FNDSAAlgorithm, FNDSASecretKey};
use vstd::utf8::encode_utf8;

verus! {

/// A reference to an output of an earlier transaction, with the spender's
/// signature and verifying key.
#[derive(Debug, Clone)]
pub struct TXInput {
    pub id: String,
    pub out: i32,
    pub signature: Vec<u8>,
    pub pub_key: Vec<u8>,
}

/// A value locked to the hash of a verifying key.
#[derive(Debug, Clone)]
pub struct TXOutput {
    pub value: i32,
    pub pub_key_hash: Vec<u8>,
}

/// The outputs of one transaction.
#[derive(Debug, Clone)]
pub struct TXOutputs {
    pub outputs: Vec<TXOutput>,
}

/// A transfer of value from referenced outputs to new outputs.
#[derive(Debug, Clone)]
pub struct Transaction {
    pub id: String,
    pub input: Vec<TXInput>,
    pub output: Vec<TXOutput>,
}

/// What an input holds, as sequences.
pub ghost struct TxInputModel {
    pub id: Seq<char>,
    pub out: i32,
    pub signature: Seq<u8>,
    pub pub_key: Seq<u8>,
}

/// What an output holds, as sequences.
pub ghost struct TxOutputModel {
    pub value: i32,
    pub pub_key_hash: Seq<u8>,
}

/// What a transaction holds, as sequences.
pub ghost struct TransactionModel {
    pub id: Seq<char>,
    pub input: Seq<TxInputModel>,
    pub output: Seq<TxOutputModel>,
}

impl View for TXInput {
    type V = TxInputModel;

    open spec fn view(&self) -> TxInputModel {
        TxInputModel {
            id: self.id@,
            out: self.out,
            signature: self.signature@,
            pub_key: self.pub_key@,
        }
    }
}

impl View for TXOutput {
    type V = TxOutputModel;

    open spec fn view(&self) -> TxOutputModel {
        TxOutputModel { value: self.value, pub_key_hash: self.pub_key_hash@ }
    }
}

impl View for TXOutputs {
    type V = Seq<TxOutputModel>;

    open spec fn view(&self) -> Seq<TxOutputModel> {
        self.outputs@.map_values(|o: TXOutput| o@)
    }
}

impl View for Transaction {
    type V = TransactionModel;

    open spec fn view(&self) -> TransactionModel {
        TransactionModel {
            id: self.id@,
            input: self.input@.map_values(|i: TXInput| i@),
            output: self.output@.map_values(|o: TXOutput| o@),
        }
    }
}

/// The bytes of one input.
pub open spec fn enc_input(i: TxInputModel) -> Seq<u8> {
    enc_str(i.id) + enc_i32(i.out) + enc_bytes(i.signature) + enc_bytes(i.pub_key)
}

/// The bytes of a list of inputs, one after another.
pub open spec fn enc_inputs(s: Seq<TxInputModel>) -> Seq<u8>
    decreases s.len(),
{
    if s.len() == 0 {
        Seq::empty()
    } else {
        enc_inputs(s.drop_last()) + enc_input(s.last())
    }
}

/// The bytes of one output.
pub open spec fn enc_output(o: TxOutputModel) -> Seq<u8> {
    enc_i32(o.value) + enc_bytes(o.pub_key_hash)
}

/// The bytes of a list of outputs, one after another.
pub open spec fn enc_outputs(s: Seq<TxOutputModel>) -> Seq<u8>
    decreases s.len(),
{
    if s.len() == 0 {
        Seq::empty()
    } else {
        enc_outputs(s.drop_last()) + enc_output(s.last())
    }
}

/// The bytes a transaction is hashed over: its id, then its inputs and its
/// outputs, each list prefixed by its length.
pub open spec fn enc_tx(t: TransactionModel) -> Seq<u8> {
    enc_str(t.id) + le_bytes(t.input.len(), 8) + enc_inputs(t.input) + le_bytes(t.output.len(), 8)
        + enc_outputs(t.output)
}

/// The hash of a transaction: hexadecimal SHA-256 of its encoding.
pub open spec fn tx_hash(t: TransactionModel) -> Seq<char> {
    sha256_hex_of(enc_tx(t))
}

/// A coinbase has exactly one input, with an empty id and output index -1.
pub open spec fn is_coinbase_model(t: TransactionModel) -> bool {
    t.input.len() == 1 && t.input[0].id.len() == 0 && t.input[0].out == -1
}

/// The input with its signature cleared and its key field replaced by `key`.
pub open spec fn blank_input(i: TxInputModel, key: Seq<u8>) -> TxInputModel {
    TxInputModel { id: i.id, out: i.out, signature: Seq::empty(), pub_key: key }
}

/// The transaction with every signature and key cleared, except that input
/// `at` (if any) carries `key` in its key field.
pub open spec fn trimmed_with(t: TransactionModel, at: int, key: Seq<u8>) -> TransactionModel {
    TransactionModel {
        id: t.id,
        input: Seq::new(
            t.input.len(),
            |j: int| blank_input(t.input[j], if j == at { key } else { Seq::empty() }),
        ),
        output: t.output,
    }
}

/// The transaction with every signature and key cleared.
pub open spec fn trimmed(t: TransactionModel) -> TransactionModel {
    trimmed_with(t, -1, Seq::empty())
}

/// The index of the first transaction in `txs` whose id is `id`.
pub open spec fn find_tx(txs: Seq<TransactionModel>, id: Seq<char>) -> Option<int>
    decreases txs.len(),
{
    if txs.len() == 0 {
        None
    } else {
        match find_tx(txs.drop_last(), id) {
            Some(k) => Some(k),
            None => if txs.last().id == id {
                Some(txs.len() - 1)
            } else {
                None
            },
        }
    }
}

/// The output that an input spends, looked up in `prevs`.
pub open spec fn spent_output(prevs: Seq<TransactionModel>, i: TxInputModel) -> Option<TxOutputModel> {
    match find_tx(prevs, i.id) {
        Some(k) => if 0 <= i.out < prevs[k].output.len() {
            Some(prevs[k].output[i.out as int])
        } else {
            None
        },
        None => None,
    }
}

/// Every input of `t` spends an output found in `prevs`.
pub open spec fn all_spent_found(t: TransactionModel, prevs: Seq<TransactionModel>) -> bool {
    forall|j: int| 0 <= j < t.input.len() ==> (#[trigger] spent_output(prevs, t.input[j])) is Some
}

/// What the signer of input `j` signs: the UTF-8 text of the hash of the
/// trimmed transaction whose input `j` carries the key hash of the spent output.
pub open spec fn signing_message(t: TransactionModel, j: int, key_hash: Seq<u8>) -> Seq<u8> {
    encode_utf8(tx_hash(trimmed_with(t, j, key_hash)))
}

/// The signature of input `j` is accepted for the output it spends.
pub open spec fn input_verifies(t: TransactionModel, prevs: Seq<TransactionModel>, j: int) -> bool {
    &&& spent_output(prevs, t.input[j]) is Some
    &&& fndsa_accepts(
        t.input[j].pub_key,
        signing_message(t, j, spent_output(prevs, t.input[j])->Some_0.pub_key_hash),
        t.input[j].signature,
    )
}

/// A transaction is valid when it is a coinbase or every input's signature is
/// accepted.
pub open spec fn tx_verifies(t: TransactionModel, prevs: Seq<TransactionModel>) -> bool {
    is_coinbase_model(t) || forall|j: int| 0 <= j < t.input.len() ==> #[trigger] input_verifies(t, prevs, j)
}

/// The models of a list of transactions.
/// `sig` is accepted under `verifying_key` as the signature of input `j`,
/// for the output that input spends in `prevs`.
pub open spec fn signed_for(
    t: TransactionModel,
    prevs: Seq<TransactionModel>,
    j: int,
    verifying_key: Seq<u8>,
    sig: Seq<u8>,
) -> bool {
    fndsa_accepts(verifying_key, signing_message(t, j, spent_output(prevs, t.input[j])->Some_0.pub_key_hash), sig)
}

/// A transaction whose inputs all carry `verifying_key` and were signed, as
/// [`Transaction::sign`] signs them, with the signing key that goes with it,
/// passes verification.
pub proof fn lemma_signed_transaction_verifies(
    unsigned: TransactionModel,
    signed: TransactionModel,
    prevs: Seq<TransactionModel>,
    verifying_key: Seq<u8>,
)
    requires
        all_spent_found(unsigned, prevs),
        signed.id == unsigned.id,
        signed.output == unsigned.output,
        signed.input.len() == unsigned.input.len(),
        forall|j: int|
            0 <= j < unsigned.input.len() ==> (#[trigger] signed.input[j]) == (TxInputModel {
                signature: signed.input[j].signature,
                ..unsigned.input[j]
            }),
        forall|j: int| 0 <= j < unsigned.input.len() ==> (#[trigger] unsigned.input[j]).pub_key == verifying_key,
        forall|j: int|
            0 <= j < unsigned.input.len() ==> signed_for(
                unsigned,
                prevs,
                j,
                verifying_key,
                #[trigger] signed.input[j].signature,
            ),
    ensures
        all_spent_found(signed, prevs),
        tx_verifies(signed, prevs),
{
    assert forall|j: int| 0 <= j < signed.input.len() implies #[trigger] spent_output(prevs, signed.input[j]) is Some by {
        assert(signed.input[j].id == unsigned.input[j].id && signed.input[j].out == unsigned.input[j].out);
        assert(spent_output(prevs, unsigned.input[j]) is Some);
    }
    assert forall|j: int| 0 <= j < signed.input.len() implies #[trigger] input_verifies(signed, prevs, j) by {
        let kh = spent_output(prevs, unsigned.input[j])->Some_0.pub_key_hash;
        assert(signed.input[j].id == unsigned.input[j].id && signed.input[j].out == unsigned.input[j].out);
        assert(spent_output(prevs, signed.input[j]) == spent_output(prevs, unsigned.input[j]));
        assert(trimmed_with(signed, j, kh).input =~= trimmed_with(unsigned, j, kh).input);
        assert(trimmed_with(signed, j, kh) == trimmed_with(unsigned, j, kh));
        assert(signed_for(unsigned, prevs, j, verifying_key, signed.input[j].signature));
    }
}

pub open spec fn models(txs: Seq<Transaction>) -> Seq<TransactionModel> {
    txs.map_values(|t: Transaction| t@)
}

fn encode_input(out: &mut Vec<u8>, i: &TXInput)
    ensures
        final(out)@ == old(out)@ + enc_input(i@),
{
    let ghost start = out@;
    push_str(out, i.id.as_str());
    push_i32(out, i.out);
    push_bytes(out, i.signature.as_slice());
    push_bytes(out, i.pub_key.as_slice());
    assert(out@ =~= start + enc_input(i@));
}

fn encode_output(out: &mut Vec<u8>, o: &TXOutput)
    ensures
        final(out)@ == old(out)@ + enc_output(o@),
{
    let ghost start = out@;
    push_i32(out, o.value);
    push_bytes(out, o.pub_key_hash.as_slice());
    assert(out@ =~= start + enc_output(o@));
}

fn encode_outputs(out: &mut Vec<u8>, outputs: &Vec<TXOutput>)
    ensures
        final(out)@ == old(out)@ + le_bytes(outputs@.len(), 8) + enc_outputs(
            outputs@.map_values(|o: TXOutput| o@),
        ),
{
    let ghost start = out@;
    let ghost ms = outputs@.map_values(|o: TXOutput| o@);
    push_le(out, outputs.len() as u128, 8);
    let ghost mid = out@;
    let mut k: usize = 0;
    while k < outputs.len()
        invariant
            k <= outputs@.len(),
            ms == outputs@.map_values(|o: TXOutput| o@),
            out@ == mid + enc_outputs(ms.subrange(0, k as int)),
        decreases outputs@.len() - k,
    {
        encode_output(out, &outputs[k]);
        assert(ms.subrange(0, k as int + 1).drop_last() =~= ms.subrange(0, k as int));
        k = k + 1;
    }
    assert(ms.subrange(0, outputs@.len() as int) =~= ms);
}

impl Transaction {
    /// The bytes this transaction is hashed over.
    pub fn encode(&self) -> (r: Vec<u8>)
        ensures
            r@ == enc_tx(self@),
    {
        let mut out: Vec<u8> = Vec::new();
        push_str(&mut out, self.id.as_str());
        push_le(&mut out, self.input.len() as u128, 8);
        let ghost mid = out@;
        let ghost ms = self@.input;
        let mut k: usize = 0;
        while k < self.input.len()
            invariant
                k <= self.input@.len(),
                ms == self@.input,
                out@ == mid + enc_inputs(ms.subrange(0, k as int)),
            decreases self.input@.len() - k,
        {
            encode_input(&mut out, &self.input[k]);
            assert(ms.subrange(0, k as int + 1).drop_last() =~= ms.subrange(0, k as int));
            k = k + 1;
        }
        assert(ms.subrange(0, self.input@.len() as int) =~= ms);
        encode_outputs(&mut out, &self.output);
        assert(out@ =~= enc_tx(self@));
        out
    }

    /// Whether this is a coinbase: one input, with an empty id and index -1.
    pub fn is_coinbase(&self) -> (r: bool)
        ensures
            r == is_coinbase_model(self@),
    {
        self.input.len() == 1 && self.input[0].id.as_str().unicode_len() == 0 && self.input[0].out == -1
    }

    /// Hexadecimal SHA-256 of this transaction's encoding.
    pub fn hash(&self) -> (r: String)
        ensures
            r@ == tx_hash(self@),
    {
        let data = self.encode();
        sha256_hex(data.as_slice())
    }

    /// A copy with every signature and key cleared, except that input `at`
    /// (when given) carries `key`.
    fn trim_with(&self, at: Option<usize>, key: &[u8]) -> (r: Transaction)
        ensures
            r@ == trimmed_with(
                self@,
                match at {
                    Some(a) => a as int,
                    None => -1,
                },
                key@,
            ),
    {
        let ghost a: int = match at {
            Some(a) => a as int,
            None => -1,
        };
        let mut input: Vec<TXInput> = Vec::new();
        let mut k: usize = 0;
        while k < self.input.len()
            invariant
                k <= self.input@.len(),
                a == match at {
                    Some(a) => a as int,
                    None => -1,
                },
                input@.len() == k,
                forall|j: int|
                    0 <= j < k ==> (#[trigger] input@[j])@ == blank_input(
                        self@.input[j],
                        if j == a { key@ } else { Seq::empty() },
                    ),
            decreases self.input@.len() - k,
        {
            let here = match at {
                Some(x) => x == k,
                None => false,
            };
            let pub_key = if here { copy_bytes(key) } else { Vec::new() };
            input.push(TXInput { id: self.input[k].id.clone(), out: self.input[k].out, signature: Vec::new(), pub_key });
            k = k + 1;
        }
        let mut output: Vec<TXOutput> = Vec::new();
        let mut k: usize = 0;
        while k < self.output.len()
            invariant
                k <= self.output@.len(),
                output@.len() == k,
                forall|j: int| 0 <= j < k ==> (#[trigger] output@[j])@ == self@.output[j],
            decreases self.output@.len() - k,
        {
            let o = &self.output[k];
            output.push(TXOutput { value: o.value, pub_key_hash: copy_bytes(o.pub_key_hash.as_slice()) });
            k = k + 1;
        }
        let r = Transaction { id: self.id.clone(), input, output };
        assert(r@.input =~= trimmed_with(self@, a, key@).input);
        assert(r@.output =~= self@.output);
        r
    }

    /// A copy of this transaction.
    pub fn duplicate(&self) -> (r: Transaction)
        ensures
            r@ == self@,
    {
        let mut input: Vec<TXInput> = Vec::new();
        let mut k: usize = 0;
        while k < self.input.len()
            invariant
                k <= self.input@.len(),
                input@.len() == k,
                forall|j: int| 0 <= j < k ==> (#[trigger] input@[j])@ == self@.input[j],
            decreases self.input@.len() - k,
        {
            let i = &self.input[k];
            input.push(TXInput {
                id: i.id.clone(),
                out: i.out,
                signature: copy_bytes(i.signature.as_slice()),
                pub_key: copy_bytes(i.pub_key.as_slice()),
            });
            k = k + 1;
        }
        let mut output: Vec<TXOutput> = Vec::new();
        let mut k: usize = 0;
        while k < self.output.len()
            invariant
                k <= self.output@.len(),
                output@.len() == k,
                forall|j: int| 0 <= j < k ==> (#[trigger] output@[j])@ == self@.output[j],
            decreases self.output@.len() - k,
        {
            let o = &self.output[k];
            output.push(TXOutput { value: o.value, pub_key_hash: copy_bytes(o.pub_key_hash.as_slice()) });
            k = k + 1;
        }
        let r = Transaction { id: self.id.clone(), input, output };
        assert(r@.input =~= self@.input);
        assert(r@.output =~= self@.output);
        r
    }

    /// A copy with every input's signature and key cleared.
    pub fn trim_copy(&self) -> (r: Transaction)
        ensures
            r@ == trimmed(self@),
    {
        let none: Vec<u8> = Vec::new();
        self.trim_with(None, none.as_slice())
    }
}

/// The reward a coinbase pays to the miner.
pub const SUBSIDY: i32 = 10;

/// The key field of a coinbase input: its data, or a reward note naming the
/// recipient when the data is empty.
pub open spec fn coinbase_note(to: Seq<char>, data: Seq<char>) -> Seq<char> {
    if data.len() == 0 {
        "Reward to '"@ + to + "'"@
    } else {
        data
    }
}

/// A coinbase paying the subsidy to `key_hash`, before its id is set.
pub open spec fn coinbase_body(to: Seq<char>, data: Seq<char>, key_hash: Seq<u8>) -> TransactionModel {
    TransactionModel {
        id: Seq::empty(),
        input: seq![TxInputModel { id: Seq::empty(), out: -1i32, signature: Seq::empty(), pub_key: encode_utf8(coinbase_note(to, data)) }],
        output: seq![TxOutputModel { value: SUBSIDY, pub_key_hash: key_hash }],
    }
}

/// A match found in a prefix is the first match of the whole sequence.
proof fn lemma_find_tx_extends(s: Seq<TransactionModel>, n: int, id: Seq<char>)
    requires
        0 <= n <= s.len(),
        find_tx(s.subrange(0, n), id) is Some,
    ensures
        find_tx(s, id) == find_tx(s.subrange(0, n), id),
    decreases s.len() - n,
{
    if n < s.len() {
        assert(s.subrange(0, n + 1).drop_last() =~= s.subrange(0, n));
        lemma_find_tx_extends(s, n + 1, id);
    } else {
        assert(s.subrange(0, n) =~= s);
    }
}

/// The index in `txs` of the first transaction whose id is `id`.
pub(crate) fn find_prev(txs: &Vec<Transaction>, id: &String) -> (r: Option<usize>)
    ensures
        match r {
            Some(k) => k < txs@.len() && find_tx(models(txs@), id@) == Some(k as int),
            None => find_tx(models(txs@), id@) is None,
        },
{
    let ghost ms = models(txs@);
    let mut k: usize = 0;
    while k < txs.len()
        invariant
            k <= txs@.len(),
            ms == models(txs@),
            find_tx(ms.subrange(0, k as int), id@) is None,
        decreases txs@.len() - k,
    {
        assert(ms.subrange(0, k as int + 1).drop_last() =~= ms.subrange(0, k as int));
        if txs[k].id == *id {
            proof {
                lemma_find_tx_extends(ms, k as int + 1, id@);
            }
            return Some(k);
        }
        k = k + 1;
    }
    assert(ms.subrange(0, txs@.len() as int) =~= ms);
    None
}

/// The key hash of the output that `input` spends, looked up in `txs`.
fn spent_key<'a>(txs: &'a Vec<Transaction>, input: &TXInput) -> (r: Option<&'a Vec<u8>>)
    ensures
        match r {
            Some(h) => spent_output(models(txs@), input@) is Some
                && h@ == spent_output(models(txs@), input@)->Some_0.pub_key_hash,
            None => spent_output(models(txs@), input@) is None,
        },
{
    match find_prev(txs, &input.id) {
        Some(k) => {
            let prev = &txs[k];
            assert(models(txs@)[k as int] == prev@);
            if 0 <= input.out && (input.out as usize) < prev.output.len() {
                assert(prev@.output[input.out as int] == prev.output@[input.out as int]@);
                Some(&prev.output[input.out as usize].pub_key_hash)
            } else {
                None
            }
        },
        None => None,
    }
}

impl TXOutput {
    /// Locks this output to the key hash that `address` spells.
    pub fn lock(&mut self, address: &str) -> (r: Result<(), LedgerError>)
        ensures
            match decoded_address(address@) {
                Some(b) => r is Ok && final(self)@ == (TxOutputModel { value: old(self).value, pub_key_hash: b }),
                None => r == Err::<(), LedgerError>(LedgerError::Validation) && final(self)@ == old(self)@,
            },
    {
        match parse_address(address) {
            Some(b) => {
                self.pub_key_hash = b;
                Ok(())
            },
            None => Err(LedgerError::Validation),
        }
    }

    /// An output of `value` locked to the key hash that `address` spells.
    pub fn new(value: i32, address: &str) -> (r: Result<TXOutput, LedgerError>)
        ensures
            match decoded_address(address@) {
                Some(b) => r is Ok && r->Ok_0@ == (TxOutputModel { value, pub_key_hash: b }),
                None => r == Err::<TXOutput, LedgerError>(LedgerError::Validation),
            },
    {
        let mut txo = TXOutput { value, pub_key_hash: Vec::new() };
        match txo.lock(address) {
            Ok(()) => Ok(txo),
            Err(e) => Err(e),
        }
    }
}

impl Transaction {
    /// The message that the signer of input `j` signs, given the key hash of
    /// the output it spends.
    fn signing_message_at(&self, j: usize, key_hash: &[u8]) -> (r: Vec<u8>)
        requires
            j < self.input@.len(),
        ensures
            r@ == signing_message(self@, j as int, key_hash@),
    {
        let t = self.trim_with(Some(j), key_hash);
        let h = t.hash();
        copy_bytes(h.as_str().as_bytes())
    }

    /// The message each input's signer signs, or `NotFound` when an input
    /// spends an output missing from `prev_txs`.
    pub fn signing_messages(&self, prev_txs: &Vec<Transaction>) -> (r: Result<Vec<Vec<u8>>, LedgerError>)
        ensures
            all_spent_found(self@, models(prev_txs@)) <==> r is Ok,
            r is Err ==> r == Err::<Vec<Vec<u8>>, LedgerError>(LedgerError::NotFound),
            r is Ok ==> r->Ok_0@.len() == self@.input.len() && forall|j: int|
                0 <= j < self@.input.len() ==> (#[trigger] r->Ok_0@[j])@ == signing_message(
                    self@,
                    j,
                    spent_output(models(prev_txs@), self@.input[j])->Some_0.pub_key_hash,
                ),
    {
        let ghost prevs = models(prev_txs@);
        let mut msgs: Vec<Vec<u8>> = Vec::new();
        let mut k: usize = 0;
        while k < self.input.len()
            invariant
                k <= self.input@.len(),
                prevs == models(prev_txs@),
                msgs@.len() == k,
                forall|j: int| 0 <= j < k ==> (#[trigger] spent_output(prevs, self@.input[j])) is Some,
                forall|j: int|
                    0 <= j < k ==> (#[trigger] msgs@[j])@ == signing_message(
                        self@,
                        j,
                        spent_output(prevs, self@.input[j])->Some_0.pub_key_hash,
                    ),
            decreases self.input@.len() - k,
        {
            assert(self@.input[k as int] == self.input@[k as int]@);
            match spent_key(prev_txs, &self.input[k]) {
                Some(h) => {
                    let m = self.signing_message_at(k, h.as_slice());
                    msgs.push(m);
                },
                None => {
                    return Err(LedgerError::NotFound);
                },
            }
            k = k + 1;
        }
        Ok(msgs)
    }

    /// Signs every input with `secret_key`. A coinbase is left as it is. An
    /// input spending an output missing from `prev_txs` gives `NotFound`, and a
    /// key that cannot sign gives `Validation`; either way nothing changes.
    /// For a generated key, each signature written verifies, under the
    /// verifying key of `secret_key`, as the signature of its input.
    pub fn sign(&mut self, secret_key: &FNDSASecretKey, prev_txs: &Vec<Transaction>) -> (r: Result<(), LedgerError>)
        ensures
            is_coinbase_model(old(self)@) ==> r is Ok,
            !is_coinbase_model(old(self)@) && old(self)@.input.len() == 0 ==> r is Ok,
            !is_coinbase_model(old(self)@) && !all_spent_found(old(self)@, models(prev_txs@))
                <==> r == Err::<(), LedgerError>(LedgerError::NotFound),
            r == Err::<(), LedgerError>(LedgerError::Validation) ==> all_spent_found(old(self)@, models(prev_txs@)),
            r is Err ==> r == Err::<(), LedgerError>(LedgerError::Validation) || r == Err::<(), LedgerError>(
                LedgerError::NotFound,
            ),
            r is Err || is_coinbase_model(old(self)@) ==> final(self)@ == old(self)@,
            final(self)@.id == old(self)@.id,
            final(self)@.output == old(self)@.output,
            final(self)@.input.len() == old(self)@.input.len(),
            forall|j: int|
                0 <= j < old(self)@.input.len() ==> (#[trigger] final(self)@.input[j]) == (TxInputModel {
                    signature: final(self)@.input[j].signature,
                    ..old(self)@.input[j]
                }),
            r is Ok && !is_coinbase_model(old(self)@) && generated_signing_key(secret_key.0@) ==> forall|j: int|
                0 <= j < old(self)@.input.len() ==> signed_for(
                    old(self)@,
                    models(prev_txs@),
                    j,
                    verifying_key_of(secret_key.0@),
                    #[trigger] final(self)@.input[j].signature,
                ),
    {
        if self.is_coinbase() {
            return Ok(());
        }
        let msgs = match self.signing_messages(prev_txs) {
            Ok(m) => m,
            Err(e) => {
                return Err(e);
            },
        };
        let ghost vk = verifying_key_of(secret_key.0@);
        let mut sigs: Vec<Vec<u8>> = Vec::new();
        let mut k: usize = 0;
        while k < msgs.len()
            invariant
                k <= msgs@.len(),
                sigs@.len() == k,
                !is_coinbase_model(self@),
                all_spent_found(self@, models(prev_txs@)),
                vk == verifying_key_of(secret_key.0@),
                msgs@.len() == self@.input.len(),
                generated_signing_key(secret_key.0@) ==> forall|j: int|
                    0 <= j < k ==> fndsa_accepts(vk, msgs@[j]@, #[trigger] sigs@[j]@),
            decreases msgs@.len() - k,
        {
            match FNDSAAlgorithm::sign(secret_key, msgs[k].as_slice()) {
                Some(sig) => sigs.push(sig),
                None => {
                    return Err(LedgerError::Validation);
                },
            }
            k = k + 1;
        }
        let mut input: Vec<TXInput> = Vec::new();
        let mut k: usize = 0;
        while k < self.input.len()
            invariant
                k <= self.input@.len(),
                sigs@.len() == self.input@.len(),
                input@.len() == k,
                forall|j: int|
                    0 <= j < k ==> (#[trigger] input@[j])@ == (TxInputModel {
                        signature: sigs@[j]@,
                        ..self@.input[j]
                    }),
            decreases self.input@.len() - k,
        {
            let old_in = &self.input[k];
            input.push(TXInput {
                id: old_in.id.clone(),
                out: old_in.out,
                signature: copy_bytes(sigs[k].as_slice()),
                pub_key: copy_bytes(old_in.pub_key.as_slice()),
            });
            k = k + 1;
        }
        let ghost before = self@;
        self.input = input;
        assert(self@.input.len() == before.input.len());
        Ok(())
    }

    /// Checks every input's signature against the output it spends. A coinbase
    /// is valid; an input spending an output missing from `prev_txs` gives
    /// `NotFound`.
    pub fn verify(&self, prev_txs: &Vec<Transaction>) -> (r: Result<bool, LedgerError>)
        ensures
            is_coinbase_model(self@) ==> r == Ok::<bool, LedgerError>(true),
            !is_coinbase_model(self@) ==> (r is Err <==> !all_spent_found(self@, models(prev_txs@))),
            r is Err ==> r == Err::<bool, LedgerError>(LedgerError::NotFound),
            r is Ok ==> r->Ok_0 == tx_verifies(self@, models(prev_txs@)),
    {
        if self.is_coinbase() {
            return Ok(true);
        }
        let ghost prevs = models(prev_txs@);
        let msgs = match self.signing_messages(prev_txs) {
            Ok(m) => m,
            Err(e) => {
                return Err(e);
            },
        };
        let mut k: usize = 0;
        while k < self.input.len()
            invariant
                k <= self.input@.len(),
                prevs == models(prev_txs@),
                all_spent_found(self@, prevs),
                msgs@.len() == self@.input.len(),
                forall|j: int|
                    0 <= j < self@.input.len() ==> (#[trigger] msgs@[j])@ == signing_message(
                        self@,
                        j,
                        spent_output(prevs, self@.input[j])->Some_0.pub_key_hash,
                    ),
                forall|j: int| 0 <= j < k ==> #[trigger] input_verifies(self@, prevs, j),
            decreases self.input@.len() - k,
        {
            let input = &self.input[k];
            assert(self@.input[k as int] == input@);
            assert(spent_output(prevs, self@.input[k as int]) is Some);
            if !crate::scheme::fndsa_verify(input.pub_key.as_slice(), msgs[k].as_slice(), input.signature.as_slice()) {
                assert(!input_verifies(self@, prevs, k as int));
                return Ok(false);
            }
            k = k + 1;
        }
        Ok(true)
    }

    /// A coinbase paying the subsidy to `to`, carrying `data` (or a reward
    /// note when `data` is empty) in its input, with its id set to its hash.
    /// An address that does not decode gives `Validation`.
    pub fn new_coinbase(to: String, data: String) -> (r: Result<Transaction, LedgerError>)
        ensures
            match decoded_address(to@) {
                Some(b) => r is Ok && r->Ok_0@ == (TransactionModel {
                    id: tx_hash(coinbase_body(to@, data@, b)),
                    ..coinbase_body(to@, data@, b)
                }),
                None => r == Err::<Transaction, LedgerError>(LedgerError::Validation),
            },
    {
        let mut note = String::new();
        if data.as_str().unicode_len() == 0 {
            note.append("Reward to '");
            note.append(to.as_str());
            note.append("'");
        } else {
            note.append(data.as_str());
        }
        let txout = match TXOutput::new(SUBSIDY, to.as_str()) {
            Ok(o) => o,
            Err(e) => {
                return Err(e);
            },
        };
        let txin = TXInput { id: String::new(), out: -1, signature: Vec::new(), pub_key: copy_bytes(note.as_str().as_bytes()) };
        let mut tx = Transaction { id: String::new(), input: vec![txin], output: vec![txout] };
        assert(tx@.input =~= coinbase_body(to@, data@, txout@.pub_key_hash).input);
        assert(tx@.output =~= coinbase_body(to@, data@, txout@.pub_key_hash).output);
        tx.id = tx.hash();
        Ok(tx)
    }
}

} // verus!
