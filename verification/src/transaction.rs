//! The signable unit of value transfer. A `Transaction` carries an opaque
//! encoded payload (`data`) plus an optional detached signature, so the
//! signature always covers exactly the encoded payload and never itself.
//! `TransactionData` is the payload: sender, receiver, value and the input /
//! output transaction references, in the ledger's canonical binary format.
//! Decoding an encoding is proved to give back the value.

use vstd::prelude::*;
use vstd::slice::slice_to_vec;
use vstd::utf8::encode_utf8;
use crate::codec::{
    dec_bytes_at, dec_str_at, dec_u64_at, decode_bytes_at, decode_str_at, decode_u64_at,
    enc_bytes, enc_str, encode_bytes_into, encode_str_into, encode_u64_into,
    lemma_dec_bytes_frame, lemma_dec_str_frame, lemma_dec_u64_frame, u64_le_bytes,
};
use crate::cyphers::{Decoder, Encoder, Signature};

verus! {

/// The mathematical content of a `Transaction`.
pub ghost struct TxView {
    pub trx_id: Seq<char>,
    pub data: Seq<u8>,
    pub signature: Option<Seq<u8>>,
}

/// The mathematical content of a `TransactionData` payload.
pub ghost struct TxDataView {
    pub sender_addr: Seq<char>,
    pub receiver_addr: Seq<char>,
    pub value: u64,
    pub inputs: Seq<TxView>,
    pub outputs: Seq<TxView>,
}

/// The views of a sequence of transactions.
pub open spec fn txs_view(s: Seq<Transaction>) -> Seq<TxView> {
    s.map_values(|t: Transaction| t@)
}

pub open spec fn opt_sig_view(o: Option<Signature>) -> Option<Seq<u8>> {
    match o {
        Some(s) => Some(s@),
        None => None,
    }
}

/// An optional signature: a one-byte presence tag, then the signature bytes.
pub open spec fn enc_opt_sig(o: Option<Seq<u8>>) -> Seq<u8> {
    match o {
        None => seq![0u8],
        Some(b) => seq![1u8] + enc_bytes(b),
    }
}

pub open spec fn dec_opt_sig_at(s: Seq<u8>, i: int) -> Option<(Option<Seq<u8>>, int)> {
    if 0 <= i < s.len() {
        if s[i] == 0u8 {
            Some((None, i + 1))
        } else if s[i] == 1u8 {
            match dec_bytes_at(s, i + 1) {
                Some((b, j)) => Some((Some(b), j)),
                None => None,
            }
        } else {
            None
        }
    } else {
        None
    }
}

/// The value's components are small enough for the length-prefixed format.
/// Every transaction held in memory satisfies this.
pub open spec fn tx_wf(t: TxView) -> bool {
    &&& encode_utf8(t.trx_id).len() <= u64::MAX
    &&& t.data.len() <= u64::MAX
    &&& (t.signature matches Some(b) ==> b.len() <= u64::MAX)
}

/// The canonical encoding of a transaction: id, payload, optional signature.
pub open spec fn enc_tx(t: TxView) -> Seq<u8> {
    enc_str(t.trx_id) + enc_bytes(t.data) + enc_opt_sig(t.signature)
}

pub open spec fn dec_tx_at(s: Seq<u8>, i: int) -> Option<(TxView, int)> {
    match dec_str_at(s, i) {
        Some((id, j)) => match dec_bytes_at(s, j) {
            Some((d, k)) => match dec_opt_sig_at(s, k) {
                Some((sig, m)) => Some((TxView { trx_id: id, data: d, signature: sig }, m)),
                None => None,
            },
            None => None,
        },
        None => None,
    }
}

pub proof fn lemma_dec_opt_sig_frame(s: Seq<u8>, i: int, o: Option<Seq<u8>>)
    requires
        o matches Some(b) ==> b.len() <= u64::MAX,
        0 <= i,
        i + enc_opt_sig(o).len() <= s.len(),
        s.subrange(i, i + enc_opt_sig(o).len() as int) == enc_opt_sig(o),
    ensures
        dec_opt_sig_at(s, i) == Some((o, i + enc_opt_sig(o).len() as int)),
{
    let e = enc_opt_sig(o);
    assert(s[i] == s.subrange(i, i + e.len() as int)[0]);
    match o {
        None => {
        },
        Some(b) => {
            assert(s.subrange(i + 1, i + 1 + enc_bytes(b).len() as int) =~= e.subrange(
                1,
                e.len() as int,
            ));
            assert(e.subrange(1, e.len() as int) =~= enc_bytes(b));
            lemma_dec_bytes_frame(s, i + 1, b);
        },
    }
}

pub proof fn lemma_dec_tx_frame(s: Seq<u8>, i: int, t: TxView)
    requires
        tx_wf(t),
        0 <= i,
        i + enc_tx(t).len() <= s.len(),
        s.subrange(i, i + enc_tx(t).len() as int) == enc_tx(t),
    ensures
        dec_tx_at(s, i) == Some((t, i + enc_tx(t).len() as int)),
{
    let e = enc_tx(t);
    let e1 = enc_str(t.trx_id);
    let e2 = enc_bytes(t.data);
    let e3 = enc_opt_sig(t.signature);
    let n1 = e1.len() as int;
    let n2 = e2.len() as int;
    let n3 = e3.len() as int;
    assert forall|k: int| 0 <= k < e.len() implies s[i + k] == e[k] by {
        assert(e[k] == s.subrange(i, i + e.len() as int)[k]);
    }
    assert(e.len() == n1 + n2 + n3);
    assert(s.subrange(i, i + n1) =~= e1);
    lemma_dec_str_frame(s, i, t.trx_id);
    assert forall|k: int| 0 <= k < n2 implies s.subrange(i + n1, i + n1 + n2)[k] == e2[k] by {
        assert(s[i + n1 + k] == e[n1 + k]);
        assert((e1 + e2 + e3)[n1 + k] == (e1 + e2)[n1 + k]);
        assert((e1 + e2)[n1 + k] == e2[k]);
    }
    assert(s.subrange(i + n1, i + n1 + n2) =~= e2);
    lemma_dec_bytes_frame(s, i + n1, t.data);
    assert forall|k: int| 0 <= k < n3 implies s.subrange(i + n1 + n2, i + n1 + n2 + n3)[k]
        == e3[k] by {
        assert(s[i + n1 + n2 + k] == e[n1 + n2 + k]);
        assert((e1 + e2 + e3)[n1 + n2 + k] == e3[k]);
    }
    assert(s.subrange(i + n1 + n2, i + n1 + n2 + n3) =~= e3);
    lemma_dec_opt_sig_frame(s, i + n1 + n2, t.signature);
}

/// Decoding the encoding of a transaction gives back the transaction and
/// consumes exactly its bytes.
pub proof fn lemma_tx_round_trip(t: TxView)
    requires
        tx_wf(t),
    ensures
        dec_tx_at(enc_tx(t), 0) == Some((t, enc_tx(t).len() as int)),
{
    assert(enc_tx(t).subrange(0, enc_tx(t).len() as int) =~= enc_tx(t));
    lemma_dec_tx_frame(enc_tx(t), 0, t);
}

/// A transfer: an identifier, the encoded `TransactionData` payload, and an
/// optional signature over exactly those payload bytes.
#[derive(Debug)]
pub struct Transaction {
    pub trx_id: String,
    pub data: Vec<u8>,
    pub signature: Option<Signature>,
}

impl View for Transaction {
    type V = TxView;

    open spec fn view(&self) -> TxView {
        TxView {
            trx_id: self.trx_id@,
            data: self.data@,
            signature: opt_sig_view(self.signature),
        }
    }
}

impl Clone for Transaction {
    fn clone(&self) -> (r: Self)
        ensures
            r@ == self@,
    {
        Transaction {
            trx_id: self.trx_id.clone(),
            data: slice_to_vec(self.data.as_slice()),
            signature: match &self.signature {
                Some(s) => Some(s.clone()),
                None => None,
            },
        }
    }
}

/// Appends the canonical encoding of `sig` to `out`.
fn encode_opt_sig_into(out: &mut Vec<u8>, sig: &Option<Signature>)
    ensures
        final(out)@ == old(out)@ + enc_opt_sig(opt_sig_view(*sig)),
{
    match sig {
        None => {
            out.push(0u8);
            assert(out@ =~= old(out)@ + enc_opt_sig(opt_sig_view(*sig)));
        },
        Some(s) => {
            out.push(1u8);
            let b = s.as_bytes();
            encode_bytes_into(out, &b);
            assert(out@ =~= old(out)@ + enc_opt_sig(opt_sig_view(*sig)));
        },
    }
}

/// Appends the canonical encoding of `t` to `out`.
pub fn encode_tx_into(out: &mut Vec<u8>, t: &Transaction)
    ensures
        final(out)@ == old(out)@ + enc_tx(t@),
{
    encode_str_into(out, &t.trx_id);
    encode_bytes_into(out, &t.data);
    encode_opt_sig_into(out, &t.signature);
    assert(out@ =~= old(out)@ + enc_tx(t@));
}

/// Reads an optional signature. The signature bytes themselves are not
/// validated here — any byte string round-trips — well-formedness is
/// decided by `PublicKey::verify`, which rejects malformed bytes.
fn decode_opt_sig_at(s: &Vec<u8>, i: usize) -> (r: Option<(Option<Signature>, usize)>)
    ensures
        match r {
            Some((o, j)) => dec_opt_sig_at(s@, i as int) == Some((opt_sig_view(o), j as int)),
            None => dec_opt_sig_at(s@, i as int) is None,
        },
{
    if i < s.len() {
        let tag = s[i];
        if tag == 0 {
            Some((None, i + 1))
        } else if tag == 1 {
            match decode_bytes_at(s, i + 1) {
                Some((b, j)) => Some((Some(Signature::from_bytes(b)), j)),
                None => None,
            }
        } else {
            None
        }
    } else {
        None
    }
}

/// Reads one transaction at position `i` of the canonical format.
pub fn decode_tx_at(s: &Vec<u8>, i: usize) -> (r: Option<(Transaction, usize)>)
    ensures
        match r {
            Some((t, j)) => dec_tx_at(s@, i as int) == Some((t@, j as int)),
            None => dec_tx_at(s@, i as int) is None,
        },
{
    match decode_str_at(s, i) {
        None => None,
        Some((trx_id, j)) => match decode_bytes_at(s, j) {
            None => None,
            Some((data, k)) => match decode_opt_sig_at(s, k) {
                None => None,
                Some((signature, m)) => Some((Transaction { trx_id, data, signature }, m)),
            },
        },
    }
}

impl Encoder for Transaction {
    /// Encoding is total: the result is always `Ok` and holds the canonical
    /// encoding of the transaction.
    fn encode(&self) -> (r: Result<Vec<u8>, String>)
        ensures
            r is Ok,
            r matches Ok(v) ==> v@ == enc_tx(self@),
    {
        let mut out: Vec<u8> = Vec::new();
        encode_tx_into(&mut out, self);
        Ok(out)
    }
}

impl Decoder for Transaction {
    /// Succeeds exactly when the bytes begin with a well-formed transaction
    /// encoding, and returns the transaction those bytes encode.
    fn decode(&self, encoded: &Vec<u8>) -> (r: Result<Box<Self>, String>)
        ensures
            match dec_tx_at(encoded@, 0) {
                Some((tv, _)) => r matches Ok(t) && t@ == tv,
                None => r is Err,
            },
    {
        match decode_tx_at(encoded, 0) {
            Some((t, _)) => Ok(Box::new(t)),
            None => Err("unable to decode transaction".to_owned()),
        }
    }
}

/// The concatenated encodings of a sequence of transactions.
pub open spec fn enc_txs(l: Seq<TxView>) -> Seq<u8>
    decreases l.len(),
{
    if l.len() == 0 {
        Seq::empty()
    } else {
        enc_tx(l[0]) + enc_txs(l.drop_first())
    }
}

/// A transaction list: its length, then the transactions one after another.
pub open spec fn enc_tx_list(l: Seq<TxView>) -> Seq<u8> {
    u64_le_bytes(l.len() as u64) + enc_txs(l)
}

/// Reads `n` consecutive transactions starting at position `i`.
pub open spec fn dec_txs_at(s: Seq<u8>, i: int, n: nat) -> Option<(Seq<TxView>, int)>
    decreases n,
{
    if n == 0 {
        Some((Seq::empty(), i))
    } else {
        match dec_tx_at(s, i) {
            Some((t, j)) => match dec_txs_at(s, j, (n - 1) as nat) {
                Some((ts, k)) => Some((seq![t] + ts, k)),
                None => None,
            },
            None => None,
        }
    }
}

pub open spec fn dec_tx_list_at(s: Seq<u8>, i: int) -> Option<(Seq<TxView>, int)> {
    match dec_u64_at(s, i) {
        Some((n, j)) => dec_txs_at(s, j, n as nat),
        None => None,
    }
}

pub open spec fn txs_wf(l: Seq<TxView>) -> bool {
    &&& l.len() <= u64::MAX
    &&& forall|k: int| 0 <= k < l.len() ==> tx_wf(#[trigger] l[k])
}

/// Appending one transaction to a list appends its encoding.
pub proof fn lemma_enc_txs_snoc(l: Seq<TxView>, t: TxView)
    ensures
        enc_txs(l.push(t)) == enc_txs(l) + enc_tx(t),
    decreases l.len(),
{
    if l.len() == 0 {
        let lp = l.push(t);
        assert(lp[0] == t);
        assert(lp.drop_first() =~= Seq::<TxView>::empty());
        assert(enc_txs(lp.drop_first()) == Seq::<u8>::empty());
        assert(enc_txs(lp) == enc_tx(t) + Seq::<u8>::empty());
        assert(enc_txs(l.push(t)) =~= enc_txs(l) + enc_tx(t));
    } else {
        assert(l.push(t)[0] == l[0]);
        assert(l.push(t).drop_first() =~= l.drop_first().push(t));
        lemma_enc_txs_snoc(l.drop_first(), t);
        assert(enc_txs(l.push(t)) =~= enc_txs(l) + enc_tx(t));
    }
}

#[verifier::rlimit(50)]
pub proof fn lemma_dec_txs_frame(s: Seq<u8>, i: int, l: Seq<TxView>)
    requires
        txs_wf(l),
        0 <= i,
        i + enc_txs(l).len() <= s.len(),
        s.subrange(i, i + enc_txs(l).len() as int) == enc_txs(l),
    ensures
        dec_txs_at(s, i, l.len() as nat) == Some((l, i + enc_txs(l).len() as int)),
    decreases l.len(),
{
    if l.len() == 0 {
        assert(l =~= Seq::<TxView>::empty());
    } else {
        let t = l[0];
        let rest = l.drop_first();
        let e = enc_txs(l);
        let e1 = enc_tx(t);
        let e2 = enc_txs(rest);
        let n1 = e1.len() as int;
        let n2 = e2.len() as int;
        assert(e == e1 + e2);
        assert forall|k: int| 0 <= k < e.len() implies s[i + k] == e[k] by {
            assert(e[k] == s.subrange(i, i + e.len() as int)[k]);
        }
        assert(s.subrange(i, i + n1) =~= e1);
        lemma_dec_tx_frame(s, i, t);
        assert forall|k: int| 0 <= k < n2 implies s.subrange(i + n1, i + n1 + n2)[k] == e2[k] by {
            assert(s[i + n1 + k] == e[n1 + k]);
            assert((e1 + e2)[n1 + k] == e2[k]);
        }
        assert(s.subrange(i + n1, i + n1 + n2) =~= e2);
        assert(forall|k: int| 0 <= k < rest.len() ==> rest[k] == l[k + 1]);
        lemma_dec_txs_frame(s, i + n1, rest);
        assert(seq![t] + rest =~= l);
    }
}

pub proof fn lemma_dec_tx_list_frame(s: Seq<u8>, i: int, l: Seq<TxView>)
    requires
        txs_wf(l),
        0 <= i,
        i + enc_tx_list(l).len() <= s.len(),
        s.subrange(i, i + enc_tx_list(l).len() as int) == enc_tx_list(l),
    ensures
        dec_tx_list_at(s, i) == Some((l, i + enc_tx_list(l).len() as int)),
{
    let e = enc_tx_list(l);
    let e2 = enc_txs(l);
    let n2 = e2.len() as int;
    assert forall|k: int| 0 <= k < e.len() implies s[i + k] == e[k] by {
        assert(e[k] == s.subrange(i, i + e.len() as int)[k]);
    }
    assert(s.subrange(i, i + 8) =~= u64_le_bytes(l.len() as u64));
    lemma_dec_u64_frame(s, i, l.len() as u64);
    assert forall|k: int| 0 <= k < n2 implies s.subrange(i + 8, i + 8 + n2)[k] == e2[k] by {
        assert(s[i + 8 + k] == e[8 + k]);
        assert((u64_le_bytes(l.len() as u64) + e2)[8 + k] == e2[k]);
    }
    assert(s.subrange(i + 8, i + 8 + n2) =~= e2);
    lemma_dec_txs_frame(s, i + 8, l);
}

/// Appends the canonical encoding of the transaction list `l` to `out`.
pub fn encode_txs_into(out: &mut Vec<u8>, l: &Vec<Transaction>)
    ensures
        final(out)@ == old(out)@ + enc_tx_list(txs_view(l@)),
{
    encode_u64_into(out, l.len() as u64);
    let ghost full = txs_view(l@);
    let n = l.len();
    let mut k: usize = 0;
    while k < n
        invariant
            n == l.len(),
            k <= n,
            full == txs_view(l@),
            full.len() == n,
            out@ == old(out)@ + u64_le_bytes(n as u64) + enc_txs(full.take(k as int)),
        decreases n - k,
    {
        encode_tx_into(out, &l[k]);
        proof {
            assert(full.take(k as int).push(l@[k as int]@) =~= full.take(k as int + 1));
            lemma_enc_txs_snoc(full.take(k as int), l@[k as int]@);
        }
        k = k + 1;
    }
    proof {
        assert(full.take(n as int) =~= full);
    }
    assert(out@ =~= old(out)@ + enc_tx_list(txs_view(l@)));
}

/// Reads `n` consecutive transactions starting at position `i`.
pub fn decode_txs_at(s: &Vec<u8>, i: usize, n: u64) -> (r: Option<(Vec<Transaction>, usize)>)
    ensures
        match r {
            Some((l, j)) => dec_txs_at(s@, i as int, n as nat) == Some((txs_view(l@), j as int)),
            None => dec_txs_at(s@, i as int, n as nat) is None,
        },
{
    let mut acc: Vec<Transaction> = Vec::new();
    let mut pos: usize = i;
    let mut k: u64 = 0;
    while k < n
        invariant
            k <= n,
            dec_txs_at(s@, i as int, n as nat) == match dec_txs_at(
                s@,
                pos as int,
                (n - k) as nat,
            ) {
                Some((rest, end)) => Some((txs_view(acc@) + rest, end)),
                None => None::<(Seq<TxView>, int)>,
            },
        decreases n - k,
    {
        match decode_tx_at(s, pos) {
            None => {
                return None;
            },
            Some((t, j)) => {
                proof {
                    assert(txs_view(acc@.push(t)) =~= txs_view(acc@).push(t@));
                    assert forall|rest: Seq<TxView>|
                        txs_view(acc@) + (seq![t@] + rest) =~= txs_view(acc@.push(t)) + rest by {
                    }
                }
                acc.push(t);
                pos = j;
            },
        }
        k = k + 1;
    }
    proof {
        assert(txs_view(acc@) + Seq::<TxView>::empty() =~= txs_view(acc@));
    }
    Some((acc, pos))
}

/// Reads a length-prefixed transaction list at position `i`.
pub fn decode_tx_list_at(s: &Vec<u8>, i: usize) -> (r: Option<(Vec<Transaction>, usize)>)
    ensures
        match r {
            Some((l, j)) => dec_tx_list_at(s@, i as int) == Some((txs_view(l@), j as int)),
            None => dec_tx_list_at(s@, i as int) is None,
        },
{
    match decode_u64_at(s, i) {
        None => None,
        Some((n, j)) => decode_txs_at(s, j, n),
    }
}

/// A copy of a transaction list, element for element.
pub fn clone_txs(l: &Vec<Transaction>) -> (r: Vec<Transaction>)
    ensures
        txs_view(r@) == txs_view(l@),
{
    let mut r: Vec<Transaction> = Vec::new();
    let mut k: usize = 0;
    while k < l.len()
        invariant
            k <= l.len(),
            r@.len() == k,
            forall|j: int| 0 <= j < k ==> (#[trigger] r@[j])@ == l@[j]@,
        decreases l.len() - k,
    {
        let tx = l[k].clone();
        r.push(tx);
        k = k + 1;
    }
    proof {
        assert forall|j: int| 0 <= j < l@.len() implies #[trigger] txs_view(r@)[j] == txs_view(
            l@,
        )[j] by {
            assert(r@[j]@ == l@[j]@);
        }
        assert(txs_view(r@) =~= txs_view(l@));
    }
    r
}

/// The payload of a transaction: who pays whom how much, and the input /
/// output transaction references kept for a future balance-tracking scheme.
#[derive(Debug)]
pub struct TransactionData {
    pub sender_addr: String,
    pub receiver_addr: String,
    pub value: u64,
    pub inputs: Vec<Transaction>,
    pub outputs: Vec<Transaction>,
}

impl View for TransactionData {
    type V = TxDataView;

    open spec fn view(&self) -> TxDataView {
        TxDataView {
            sender_addr: self.sender_addr@,
            receiver_addr: self.receiver_addr@,
            value: self.value,
            inputs: txs_view(self.inputs@),
            outputs: txs_view(self.outputs@),
        }
    }
}

/// The canonical encoding of a payload: sender, receiver, value, inputs,
/// outputs, in that order and nothing else.
pub open spec fn enc_txdata(d: TxDataView) -> Seq<u8> {
    enc_str(d.sender_addr) + enc_str(d.receiver_addr) + u64_le_bytes(d.value) + enc_tx_list(
        d.inputs,
    ) + enc_tx_list(d.outputs)
}

pub open spec fn txdata_wf(d: TxDataView) -> bool {
    &&& encode_utf8(d.sender_addr).len() <= u64::MAX
    &&& encode_utf8(d.receiver_addr).len() <= u64::MAX
    &&& txs_wf(d.inputs)
    &&& txs_wf(d.outputs)
}

pub open spec fn dec_txdata_at(s: Seq<u8>, i: int) -> Option<(TxDataView, int)> {
    match dec_str_at(s, i) {
        Some((sender, j)) => match dec_str_at(s, j) {
            Some((receiver, k)) => match dec_u64_at(s, k) {
                Some((value, m)) => match dec_tx_list_at(s, m) {
                    Some((inputs, p)) => match dec_tx_list_at(s, p) {
                        Some((outputs, q)) => Some(
                            (
                                TxDataView {
                                    sender_addr: sender,
                                    receiver_addr: receiver,
                                    value,
                                    inputs,
                                    outputs,
                                },
                                q,
                            ),
                        ),
                        None => None,
                    },
                    None => None,
                },
                None => None,
            },
            None => None,
        },
        None => None,
    }
}

#[verifier::rlimit(100)]
pub proof fn lemma_dec_txdata_frame(s: Seq<u8>, i: int, d: TxDataView)
    requires
        txdata_wf(d),
        0 <= i,
        i + enc_txdata(d).len() <= s.len(),
        s.subrange(i, i + enc_txdata(d).len() as int) == enc_txdata(d),
    ensures
        dec_txdata_at(s, i) == Some((d, i + enc_txdata(d).len() as int)),
{
    let e = enc_txdata(d);
    let e1 = enc_str(d.sender_addr);
    let e2 = enc_str(d.receiver_addr);
    let e3 = u64_le_bytes(d.value);
    let e4 = enc_tx_list(d.inputs);
    let e5 = enc_tx_list(d.outputs);
    let n1 = e1.len() as int;
    let n2 = e2.len() as int;
    let n3 = e3.len() as int;
    let n4 = e4.len() as int;
    let n5 = e5.len() as int;
    assert(e.len() == n1 + n2 + n3 + n4 + n5);
    assert forall|k: int| 0 <= k < e.len() implies s[i + k] == e[k] by {
        assert(e[k] == s.subrange(i, i + e.len() as int)[k]);
    }
    assert forall|k: int| 0 <= k < n1 implies s.subrange(i, i + n1)[k] == e1[k] by {
        assert((e1 + e2 + e3 + e4 + e5)[k] == e1[k]);
    }
    assert(s.subrange(i, i + n1) =~= e1);
    lemma_dec_str_frame(s, i, d.sender_addr);
    let i2 = i + n1;
    assert forall|k: int| 0 <= k < n2 implies s.subrange(i2, i2 + n2)[k] == e2[k] by {
        assert((e1 + e2 + e3 + e4 + e5)[n1 + k] == e2[k]);
    }
    assert(s.subrange(i2, i2 + n2) =~= e2);
    lemma_dec_str_frame(s, i2, d.receiver_addr);
    let i3 = i2 + n2;
    assert forall|k: int| 0 <= k < n3 implies s.subrange(i3, i3 + n3)[k] == e3[k] by {
        assert((e1 + e2 + e3 + e4 + e5)[n1 + n2 + k] == e3[k]);
    }
    assert(s.subrange(i3, i3 + n3) =~= e3);
    lemma_dec_u64_frame(s, i3, d.value);
    let i4 = i3 + n3;
    assert forall|k: int| 0 <= k < n4 implies s.subrange(i4, i4 + n4)[k] == e4[k] by {
        assert((e1 + e2 + e3 + e4 + e5)[n1 + n2 + n3 + k] == e4[k]);
    }
    assert(s.subrange(i4, i4 + n4) =~= e4);
    lemma_dec_tx_list_frame(s, i4, d.inputs);
    let i5 = i4 + n4;
    assert forall|k: int| 0 <= k < n5 implies s.subrange(i5, i5 + n5)[k] == e5[k] by {
        assert((e1 + e2 + e3 + e4 + e5)[n1 + n2 + n3 + n4 + k] == e5[k]);
    }
    assert(s.subrange(i5, i5 + n5) =~= e5);
    lemma_dec_tx_list_frame(s, i5, d.outputs);
}

/// Decoding the encoding of a payload gives back the payload and consumes
/// exactly its bytes.
pub proof fn lemma_txdata_round_trip(d: TxDataView)
    requires
        txdata_wf(d),
    ensures
        dec_txdata_at(enc_txdata(d), 0) == Some((d, enc_txdata(d).len() as int)),
{
    assert(enc_txdata(d).subrange(0, enc_txdata(d).len() as int) =~= enc_txdata(d));
    lemma_dec_txdata_frame(enc_txdata(d), 0, d);
}

impl TransactionData {
    /// Produces the canonical encoding of this payload. Encoding is total.
    pub fn encode(&self) -> (r: Vec<u8>)
        ensures
            r@ == enc_txdata(self@),
    {
        let mut out: Vec<u8> = Vec::new();
        encode_str_into(&mut out, &self.sender_addr);
        encode_str_into(&mut out, &self.receiver_addr);
        encode_u64_into(&mut out, self.value);
        encode_txs_into(&mut out, &self.inputs);
        encode_txs_into(&mut out, &self.outputs);
        assert(out@ =~= enc_txdata(self@));
        out
    }

    /// Succeeds exactly when the bytes begin with a well-formed payload
    /// encoding, and returns the payload those bytes encode.
    pub fn decode(encoded: &Vec<u8>) -> (r: Option<TransactionData>)
        ensures
            match dec_txdata_at(encoded@, 0) {
                Some((dv, _)) => r matches Some(d) && d@ == dv,
                None => r is None,
            },
    {
        match decode_str_at(encoded, 0) {
            None => None,
            Some((sender_addr, j)) => match decode_str_at(encoded, j) {
                None => None,
                Some((receiver_addr, k)) => match decode_u64_at(encoded, k) {
                    None => None,
                    Some((value, m)) => match decode_tx_list_at(encoded, m) {
                        None => None,
                        Some((inputs, p)) => match decode_tx_list_at(encoded, p) {
                            None => None,
                            Some((outputs, _)) => Some(
                                TransactionData {
                                    sender_addr,
                                    receiver_addr,
                                    value,
                                    inputs,
                                    outputs,
                                },
                            ),
                        },
                    },
                },
            },
        }
    }
}

/// Why building a transaction failed.
#[derive(Debug, PartialEq, Eq, Structural)]
pub enum TxBuilderErr {
    /// The input references were never supplied.
    RequiredInputs,
    /// The output references were never supplied.
    RequiredOutputs,
    /// The payload could not be encoded. The canonical encoder is total, so
    /// a built payload never produces this.
    SerializeFail,
    /// Signing the built transaction failed.
    SignTxFail,
}

pub type TxBuilderResult = Result<Transaction, TxBuilderErr>;

/// The mathematical content of a `TxBuilder`.
pub ghost struct TxBuilderView {
    pub sender_addr: Seq<char>,
    pub receiver_addr: Seq<char>,
    pub value: u64,
    pub inputs: Option<Seq<TxView>>,
    pub outputs: Option<Seq<TxView>>,
    pub tx_id: Option<Seq<char>>,
}

/// Assembles an unsigned transaction. Inputs and outputs must be supplied
/// before building; an empty list counts as supplied.
pub struct TxBuilder {
    sender_addr: String,
    receiver_addr: String,
    value: u64,
    inputs: Option<Vec<Transaction>>,
    outputs: Option<Vec<Transaction>>,
    tx_id: Option<String>,
}

impl View for TxBuilder {
    type V = TxBuilderView;

    closed spec fn view(&self) -> TxBuilderView {
        TxBuilderView {
            sender_addr: self.sender_addr@,
            receiver_addr: self.receiver_addr@,
            value: self.value,
            inputs: match self.inputs {
                Some(l) => Some(txs_view(l@)),
                None => None,
            },
            outputs: match self.outputs {
                Some(l) => Some(txs_view(l@)),
                None => None,
            },
            tx_id: match self.tx_id {
                Some(t) => Some(t@),
                None => None,
            },
        }
    }
}

impl TxBuilder {
    pub fn new(sender_addr: String, receiver_addr: String, value: u64) -> (r: Self)
        ensures
            r@.sender_addr == sender_addr@,
            r@.receiver_addr == receiver_addr@,
            r@.value == value,
            r@.inputs is None,
            r@.outputs is None,
            r@.tx_id is None,
    {
        Self { sender_addr, receiver_addr, value, inputs: None, outputs: None, tx_id: None }
    }

    pub fn inputs(self, inputs: Vec<Transaction>) -> (r: Self)
        ensures
            r@ == (TxBuilderView { inputs: Some(txs_view(inputs@)), ..self@ }),
    {
        Self { inputs: Some(inputs), ..self }
    }

    pub fn outputs(self, outputs: Vec<Transaction>) -> (r: Self)
        ensures
            r@ == (TxBuilderView { outputs: Some(txs_view(outputs@)), ..self@ }),
    {
        Self { outputs: Some(outputs), ..self }
    }

    /// Yields an unsigned transaction whose payload encodes exactly the
    /// supplied fields; fails with `RequiredInputs` when inputs were never
    /// set, and with `RequiredOutputs` when outputs were never set.
    pub fn build(self) -> (r: TxBuilderResult)
        ensures
            self@.inputs is None ==> r == Err::<Transaction, TxBuilderErr>(
                TxBuilderErr::RequiredInputs,
            ),
            self@.inputs is Some && self@.outputs is None ==> r == Err::<
                Transaction,
                TxBuilderErr,
            >(TxBuilderErr::RequiredOutputs),
            self@.inputs is Some && self@.outputs is Some ==> (r matches Ok(t) && t@
                == (TxView {
                trx_id: Seq::<char>::empty(),
                data: enc_txdata(
                    TxDataView {
                        sender_addr: self@.sender_addr,
                        receiver_addr: self@.receiver_addr,
                        value: self@.value,
                        inputs: self@.inputs.unwrap(),
                        outputs: self@.outputs.unwrap(),
                    },
                ),
                signature: None,
            })),
    {
        if self.inputs.is_none() {
            return Err(TxBuilderErr::RequiredInputs);
        }
        if self.outputs.is_none() {
            return Err(TxBuilderErr::RequiredOutputs);
        }
        let tx_data = TransactionData {
            sender_addr: self.sender_addr,
            receiver_addr: self.receiver_addr,
            value: self.value,
            inputs: self.inputs.unwrap(),
            outputs: self.outputs.unwrap(),
        };
        let data = tx_data.encode();
        Ok(Transaction { trx_id: String::new(), data, signature: None })
    }
}

} // verus!
