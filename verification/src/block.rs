//! A block: a header (timestamp, previous hash, height, nonce, own hash)
//! plus the ordered transactions included at mining time. The block's hash
//! is SHA-256 over the canonical serialization of the header fields —
//! excluding the hash itself — hex-encoded; it is computed once after
//! construction and re-derived by the chain validator.

use vstd::prelude::*;
use vstd::utf8::encode_utf8;
use crate::codec::{
    dec_str_at, dec_u64_at, decode_str_at, decode_u64_at, enc_str, encode_str_into,
    encode_u64_into, lemma_dec_str_frame, lemma_dec_u64_frame, u64_le_bytes,
};
use crate::cyphers::{sha256_hex, sha256_hex_of, Decoder, Encoder};
use crate::transaction::{
    dec_tx_list_at, decode_tx_list_at, enc_tx_list, encode_txs_into, lemma_dec_tx_list_frame,
    txs_view, txs_wf, Transaction, TxView,
};

verus! {

/// The mathematical content of a `BlockHeader`.
pub ghost struct HeaderView {
    pub time_stamp: i64,
    pub hash: Seq<char>,
    pub prev_hash: Seq<char>,
    pub height: u64,
    pub nonce: u64,
}

/// The mathematical content of a `Block`.
pub ghost struct BlockView {
    pub header: HeaderView,
    pub transactions: Seq<TxView>,
}

/// The canonical serialization of the header fields the hash covers:
/// timestamp, previous hash, height and nonce, in that order, with fixed
/// widths. The hash field itself is excluded to avoid self-reference, and
/// the transaction list is excluded deliberately: the block hash is a
/// content hash of the header alone, so the integrity predicate the chain
/// validator re-derives covers header fields only. Proof-of-work still
/// varies with the pool contents indirectly — a candidate block is built
/// from the pool — but the pool does not enter the digest.
pub open spec fn header_bytes(
    time_stamp: i64,
    prev_hash: Seq<char>,
    height: u64,
    nonce: u64,
) -> Seq<u8> {
    u64_le_bytes(time_stamp as u64) + enc_str(prev_hash) + u64_le_bytes(height) + u64_le_bytes(
        nonce,
    )
}

/// The block hash those header fields determine: 64 lowercase hex
/// characters of SHA-256 over the canonical header serialization.
pub open spec fn header_hash(
    time_stamp: i64,
    prev_hash: Seq<char>,
    height: u64,
    nonce: u64,
) -> Seq<char> {
    sha256_hex_of(header_bytes(time_stamp, prev_hash, height, nonce))
}

/// The hash a header's current fields determine.
pub open spec fn hash_of_header(h: HeaderView) -> Seq<char> {
    header_hash(h.time_stamp, h.prev_hash, h.height, h.nonce)
}

/// Relies on `chrono::Utc::now`: the current wall-clock time in seconds
/// since the epoch. The value is metadata only; nothing is promised of it.
#[verifier::external_body]
pub(crate) fn now_timestamp() -> i64 {
    chrono::Utc::now().timestamp()
}

/// Builds the canonical header serialization for the given field values.
pub fn compute_header_bytes(time_stamp: i64, prev_hash: &String, height: u64, nonce: u64) -> (r:
    Vec<u8>)
    ensures
        r@ == header_bytes(time_stamp, prev_hash@, height, nonce),
{
    let mut out: Vec<u8> = Vec::new();
    encode_u64_into(&mut out, time_stamp as u64);
    encode_str_into(&mut out, prev_hash);
    encode_u64_into(&mut out, height);
    encode_u64_into(&mut out, nonce);
    assert(out@ =~= header_bytes(time_stamp, prev_hash@, height, nonce));
    out
}

/// A block header. The timestamp and nonce are freely inspectable and — for
/// tamper-detection exercises — mutable; the remaining fields are fixed at
/// construction.
#[derive(Debug)]
pub struct BlockHeader {
    pub time_stamp: i64,
    hash: String,
    prev_hash: String,
    height: u64,
    pub nonce: u64,
}

impl View for BlockHeader {
    type V = HeaderView;

    closed spec fn view(&self) -> HeaderView {
        HeaderView {
            time_stamp: self.time_stamp,
            hash: self.hash@,
            prev_hash: self.prev_hash@,
            height: self.height,
            nonce: self.nonce,
        }
    }
}

#[derive(Debug)]
pub struct Block {
    pub header: BlockHeader,
    pub transactions: Vec<Transaction>,
}

impl View for Block {
    type V = BlockView;

    open spec fn view(&self) -> BlockView {
        BlockView { header: self.header@, transactions: txs_view(self.transactions@) }
    }
}

impl Block {
    /// A block with the given header fields and transaction snapshot. The
    /// timestamp is captured from the wall clock; the hash starts empty and
    /// is filled in by `gen_hash`.
    pub fn new(prev_hash: String, nonce: u64, height: u64, transactions: Vec<Transaction>) -> (r:
        Block)
        ensures
            r@.header.hash == Seq::<char>::empty(),
            r@.header.prev_hash == prev_hash@,
            r@.header.height == height,
            r@.header.nonce == nonce,
            r@.transactions == txs_view(transactions@),
    {
        let header = BlockHeader {
            hash: String::new(),
            prev_hash,
            time_stamp: now_timestamp(),
            height,
            nonce,
        };
        Block { transactions, header }
    }

    /// The hash the block's current header fields determine, without
    /// touching the block. Deterministic: a pure function of those fields.
    pub fn computed_hash(&self) -> (r: String)
        ensures
            r@ == hash_of_header(self@.header),
    {
        let bytes = compute_header_bytes(
            self.header.time_stamp,
            &self.header.prev_hash,
            self.header.height,
            self.header.nonce,
        );
        sha256_hex(&bytes)
    }

    /// Recomputes the block's hash from its current header fields and
    /// stores it. Calling it twice without mutating the block yields the
    /// same value, since the hash is a function of the header fields alone.
    pub fn gen_hash(&mut self) -> (r: String)
        ensures
            r@ == hash_of_header(old(self)@.header),
            final(self)@.header == (HeaderView { hash: r@, ..old(self)@.header }),
            final(self)@.transactions == old(self)@.transactions,
            r@ == hash_of_header(final(self)@.header),
    {
        let hash = self.computed_hash();
        self.header.hash = hash.clone();
        hash
    }

    /// The stored hash, as recorded by the last `gen_hash` call.
    pub fn hash(&self) -> (r: String)
        ensures
            r@ == self@.header.hash,
    {
        self.header.hash.clone()
    }
}

/// The block's components are small enough for the length-prefixed format.
/// Every block held in memory satisfies this.
pub open spec fn block_wf(b: BlockView) -> bool {
    &&& encode_utf8(b.header.hash).len() <= u64::MAX
    &&& encode_utf8(b.header.prev_hash).len() <= u64::MAX
    &&& txs_wf(b.transactions)
}

/// The canonical encoding of a whole block: every header field — the stored
/// hash included — then the transaction list.
pub open spec fn enc_block(b: BlockView) -> Seq<u8> {
    u64_le_bytes(b.header.time_stamp as u64) + enc_str(b.header.hash) + enc_str(
        b.header.prev_hash,
    ) + u64_le_bytes(b.header.height) + u64_le_bytes(b.header.nonce) + enc_tx_list(b.transactions)
}

pub open spec fn dec_block_at(s: Seq<u8>, i: int) -> Option<(BlockView, int)> {
    match dec_u64_at(s, i) {
        Some((ts, j)) => match dec_str_at(s, j) {
            Some((hash, k)) => match dec_str_at(s, k) {
                Some((prev_hash, m)) => match dec_u64_at(s, m) {
                    Some((height, p)) => match dec_u64_at(s, p) {
                        Some((nonce, q)) => match dec_tx_list_at(s, q) {
                            Some((txs, z)) => Some(
                                (
                                    BlockView {
                                        header: HeaderView {
                                            time_stamp: ts as i64,
                                            hash,
                                            prev_hash,
                                            height,
                                            nonce,
                                        },
                                        transactions: txs,
                                    },
                                    z,
                                ),
                            ),
                            None => None,
                        },
                        None => None,
                    },
                    None => None,
                },
                None => None,
            },
            None => None,
        },
        None => None,
    }
}

/// Casting a 64-bit signed value through its unsigned form gives it back.
proof fn lemma_i64_cast_round_trip(x: i64)
    ensures
        (x as u64) as i64 == x,
{
    assert((x as u64) as i64 == x) by (bit_vector);
}

/// Decoding the encoding of a block gives back the block and consumes
/// exactly its bytes.
#[verifier::rlimit(100)]
pub proof fn lemma_block_round_trip(b: BlockView)
    requires
        block_wf(b),
    ensures
        dec_block_at(enc_block(b), 0) == Some((b, enc_block(b).len() as int)),
{
    let s = enc_block(b);
    let e1 = u64_le_bytes(b.header.time_stamp as u64);
    let e2 = enc_str(b.header.hash);
    let e3 = enc_str(b.header.prev_hash);
    let e4 = u64_le_bytes(b.header.height);
    let e5 = u64_le_bytes(b.header.nonce);
    let e6 = enc_tx_list(b.transactions);
    let n1 = e1.len() as int;
    let n2 = e2.len() as int;
    let n3 = e3.len() as int;
    let n4 = e4.len() as int;
    let n5 = e5.len() as int;
    let n6 = e6.len() as int;
    assert(s.len() == n1 + n2 + n3 + n4 + n5 + n6);
    assert forall|k: int| 0 <= k < n1 implies s.subrange(0, n1)[k] == e1[k] by {
        assert((e1 + e2 + e3 + e4 + e5 + e6)[k] == e1[k]);
    }
    assert(s.subrange(0, n1) =~= e1);
    lemma_dec_u64_frame(s, 0, b.header.time_stamp as u64);
    lemma_i64_cast_round_trip(b.header.time_stamp);
    let i2 = n1;
    assert forall|k: int| 0 <= k < n2 implies s.subrange(i2, i2 + n2)[k] == e2[k] by {
        assert((e1 + e2 + e3 + e4 + e5 + e6)[i2 + k] == e2[k]);
    }
    assert(s.subrange(i2, i2 + n2) =~= e2);
    lemma_dec_str_frame(s, i2, b.header.hash);
    let i3 = i2 + n2;
    assert forall|k: int| 0 <= k < n3 implies s.subrange(i3, i3 + n3)[k] == e3[k] by {
        assert((e1 + e2 + e3 + e4 + e5 + e6)[i3 + k] == e3[k]);
    }
    assert(s.subrange(i3, i3 + n3) =~= e3);
    lemma_dec_str_frame(s, i3, b.header.prev_hash);
    let i4 = i3 + n3;
    assert forall|k: int| 0 <= k < n4 implies s.subrange(i4, i4 + n4)[k] == e4[k] by {
        assert((e1 + e2 + e3 + e4 + e5 + e6)[i4 + k] == e4[k]);
    }
    assert(s.subrange(i4, i4 + n4) =~= e4);
    lemma_dec_u64_frame(s, i4, b.header.height);
    let i5 = i4 + n4;
    assert forall|k: int| 0 <= k < n5 implies s.subrange(i5, i5 + n5)[k] == e5[k] by {
        assert((e1 + e2 + e3 + e4 + e5 + e6)[i5 + k] == e5[k]);
    }
    assert(s.subrange(i5, i5 + n5) =~= e5);
    lemma_dec_u64_frame(s, i5, b.header.nonce);
    let i6 = i5 + n5;
    assert forall|k: int| 0 <= k < n6 implies s.subrange(i6, i6 + n6)[k] == e6[k] by {
        assert((e1 + e2 + e3 + e4 + e5 + e6)[i6 + k] == e6[k]);
    }
    assert(s.subrange(i6, i6 + n6) =~= e6);
    lemma_dec_tx_list_frame(s, i6, b.transactions);
}

impl Encoder for Block {
    /// Encoding is total: the result is always `Ok` and holds the canonical
    /// encoding of the block.
    fn encode(&self) -> (r: Result<Vec<u8>, String>)
        ensures
            r is Ok,
            r matches Ok(v) ==> v@ == enc_block(self@),
    {
        let mut out: Vec<u8> = Vec::new();
        encode_u64_into(&mut out, self.header.time_stamp as u64);
        encode_str_into(&mut out, &self.header.hash);
        encode_str_into(&mut out, &self.header.prev_hash);
        encode_u64_into(&mut out, self.header.height);
        encode_u64_into(&mut out, self.header.nonce);
        encode_txs_into(&mut out, &self.transactions);
        assert(out@ =~= enc_block(self@));
        Ok(out)
    }
}

impl Decoder for Block {
    /// Succeeds exactly when the bytes begin with a well-formed block
    /// encoding, and returns the block those bytes encode.
    fn decode(&self, encoded: &Vec<u8>) -> (r: Result<Box<Self>, String>)
        ensures
            match dec_block_at(encoded@, 0) {
                Some((bv, _)) => r matches Ok(b) && b@ == bv,
                None => r is Err,
            },
    {
        match decode_u64_at(encoded, 0) {
            None => Err("unable to decode block".to_owned()),
            Some((ts, j)) => match decode_str_at(encoded, j) {
                None => Err("unable to decode block".to_owned()),
                Some((hash, k)) => match decode_str_at(encoded, k) {
                    None => Err("unable to decode block".to_owned()),
                    Some((prev_hash, m)) => match decode_u64_at(encoded, m) {
                        None => Err("unable to decode block".to_owned()),
                        Some((height, p)) => match decode_u64_at(encoded, p) {
                            None => Err("unable to decode block".to_owned()),
                            Some((nonce, q)) => match decode_tx_list_at(encoded, q) {
                                None => Err("unable to decode block".to_owned()),
                                Some((transactions, _)) => Ok(
                                    Box::new(
                                        Block {
                                            header: BlockHeader {
                                                time_stamp: ts as i64,
                                                hash,
                                                prev_hash,
                                                height,
                                                nonce,
                                            },
                                            transactions,
                                        },
                                    ),
                                ),
                            },
                        },
                    },
                },
            },
        }
    }
}

} // verus!
