//! The canonical binary format shared by every structure the ledger stores or
//! transmits: fixed-width little-endian integers, length-prefixed byte
//! strings, and UTF-8 text. Encoders and decoders come in spec/exec pairs,
//! and decoding an encoding is proved to give back the value.

use vstd::prelude::*;
use vstd::slice::{slice_subrange, slice_to_vec};
use vstd::string::StrSliceExecFns;
use vstd::utf8::{decode_utf8, encode_utf8, valid_utf8};

verus! {

/// Little-endian bytes of a 64-bit value, least significant byte first.
pub open spec fn u64_le_bytes(x: u64) -> Seq<u8> {
    seq![
        (x & 0xff) as u8,
        ((x >> 8) & 0xff) as u8,
        ((x >> 16) & 0xff) as u8,
        ((x >> 24) & 0xff) as u8,
        ((x >> 32) & 0xff) as u8,
        ((x >> 40) & 0xff) as u8,
        ((x >> 48) & 0xff) as u8,
        ((x >> 56) & 0xff) as u8,
    ]
}

/// The 64-bit value held by 8 little-endian bytes.
pub open spec fn u64_from_le(b: Seq<u8>) -> u64
    recommends
        b.len() == 8,
{
    ((b[0] as u64) | (b[1] as u64) << 8 | (b[2] as u64) << 16 | (b[3] as u64) << 24
        | (b[4] as u64) << 32 | (b[5] as u64) << 40 | (b[6] as u64) << 48
        | (b[7] as u64) << 56) as u64
}

pub proof fn lemma_u64_le_round_trip(x: u64)
    ensures
        u64_le_bytes(x).len() == 8,
        u64_from_le(u64_le_bytes(x)) == x,
{
    let b0 = (x & 0xff) as u8;
    let b1 = ((x >> 8) & 0xff) as u8;
    let b2 = ((x >> 16) & 0xff) as u8;
    let b3 = ((x >> 24) & 0xff) as u8;
    let b4 = ((x >> 32) & 0xff) as u8;
    let b5 = ((x >> 40) & 0xff) as u8;
    let b6 = ((x >> 48) & 0xff) as u8;
    let b7 = ((x >> 56) & 0xff) as u8;
    assert(((b0 as u64) | (b1 as u64) << 8 | (b2 as u64) << 16 | (b3 as u64) << 24
        | (b4 as u64) << 32 | (b5 as u64) << 40 | (b6 as u64) << 48
        | (b7 as u64) << 56) == x) by (bit_vector)
        requires
            b0 == (x & 0xff) as u8,
            b1 == ((x >> 8) & 0xff) as u8,
            b2 == ((x >> 16) & 0xff) as u8,
            b3 == ((x >> 24) & 0xff) as u8,
            b4 == ((x >> 32) & 0xff) as u8,
            b5 == ((x >> 40) & 0xff) as u8,
            b6 == ((x >> 48) & 0xff) as u8,
            b7 == ((x >> 56) & 0xff) as u8,
    ;
}

/// Appends the 8 little-endian bytes of `x` to `out`.
pub fn encode_u64_into(out: &mut Vec<u8>, x: u64)
    ensures
        final(out)@ == old(out)@ + u64_le_bytes(x),
{
    out.push((x & 0xff) as u8);
    out.push(((x >> 8) & 0xff) as u8);
    out.push(((x >> 16) & 0xff) as u8);
    out.push(((x >> 24) & 0xff) as u8);
    out.push(((x >> 32) & 0xff) as u8);
    out.push(((x >> 40) & 0xff) as u8);
    out.push(((x >> 48) & 0xff) as u8);
    out.push(((x >> 56) & 0xff) as u8);
    assert(out@ =~= old(out)@ + u64_le_bytes(x));
}

/// Reads a 64-bit value at position `i`; `None` when fewer than 8 bytes remain.
pub open spec fn dec_u64_at(s: Seq<u8>, i: int) -> Option<(u64, int)> {
    if 0 <= i && i + 8 <= s.len() {
        Some((u64_from_le(s.subrange(i, i + 8)), i + 8))
    } else {
        None
    }
}

pub fn decode_u64_at(s: &Vec<u8>, i: usize) -> (r: Option<(u64, usize)>)
    ensures
        match r {
            Some((x, j)) => dec_u64_at(s@, i as int) == Some((x, j as int)),
            None => dec_u64_at(s@, i as int) is None,
        },
{
    if s.len() < 8 || i > s.len() - 8 {
        return None;
    }
    let x: u64 = (s[i] as u64) | (s[i + 1] as u64) << 8 | (s[i + 2] as u64) << 16
        | (s[i + 3] as u64) << 24 | (s[i + 4] as u64) << 32 | (s[i + 5] as u64) << 40
        | (s[i + 6] as u64) << 48 | (s[i + 7] as u64) << 56;
    proof {
        let sub = s@.subrange(i as int, i as int + 8);
        assert(sub[0] == s@[i as int]);
        assert(sub[1] == s@[i as int + 1]);
        assert(sub[2] == s@[i as int + 2]);
        assert(sub[3] == s@[i as int + 3]);
        assert(sub[4] == s@[i as int + 4]);
        assert(sub[5] == s@[i as int + 5]);
        assert(sub[6] == s@[i as int + 6]);
        assert(sub[7] == s@[i as int + 7]);
    }
    Some((x, i + 8))
}

/// Reads a 64-bit value at position `i`, decoding an encoding placed there.
pub proof fn lemma_dec_u64_frame(s: Seq<u8>, i: int, x: u64)
    requires
        0 <= i,
        i + 8 <= s.len(),
        s.subrange(i, i + 8) == u64_le_bytes(x),
    ensures
        dec_u64_at(s, i) == Some((x, i + 8)),
{
    lemma_u64_le_round_trip(x);
}

/// A byte string, prefixed by its length as a 64-bit value.
pub open spec fn enc_bytes(b: Seq<u8>) -> Seq<u8>
    recommends
        b.len() <= u64::MAX,
{
    u64_le_bytes(b.len() as u64) + b
}

/// Reads a length-prefixed byte string at position `i`.
pub open spec fn dec_bytes_at(s: Seq<u8>, i: int) -> Option<(Seq<u8>, int)> {
    match dec_u64_at(s, i) {
        Some((n, j)) => if j + n <= s.len() {
            Some((s.subrange(j, j + n), j + n))
        } else {
            None
        },
        None => None,
    }
}

pub proof fn lemma_dec_bytes_frame(s: Seq<u8>, i: int, b: Seq<u8>)
    requires
        b.len() <= u64::MAX,
        0 <= i,
        i + enc_bytes(b).len() <= s.len(),
        s.subrange(i, i + enc_bytes(b).len() as int) == enc_bytes(b),
    ensures
        dec_bytes_at(s, i) == Some((b, i + enc_bytes(b).len() as int)),
{
    let n = b.len() as u64;
    let e = enc_bytes(b);
    assert(s.subrange(i, i + 8) =~= e.subrange(0, 8));
    assert(e.subrange(0, 8) =~= u64_le_bytes(n));
    lemma_dec_u64_frame(s, i, n);
    assert(s.subrange(i + 8, i + 8 + n) =~= e.subrange(8, e.len() as int));
    assert(e.subrange(8, e.len() as int) =~= b);
}

/// Appends the length-prefixed encoding of `b` to `out`.
pub fn encode_bytes_into(out: &mut Vec<u8>, b: &Vec<u8>)
    ensures
        final(out)@ == old(out)@ + enc_bytes(b@),
{
    encode_u64_into(out, b.len() as u64);
    let mut copy = slice_to_vec(b.as_slice());
    out.append(&mut copy);
    assert(out@ =~= old(out)@ + enc_bytes(b@));
}

pub fn decode_bytes_at(s: &Vec<u8>, i: usize) -> (r: Option<(Vec<u8>, usize)>)
    ensures
        match r {
            Some((b, j)) => dec_bytes_at(s@, i as int) == Some((b@, j as int)),
            None => dec_bytes_at(s@, i as int) is None,
        },
{
    match decode_u64_at(s, i) {
        None => None,
        Some((n, j)) => {
            if n > (s.len() - j) as u64 {
                None
            } else {
                let end: usize = j + n as usize;
                let sub = slice_subrange(s.as_slice(), j, end);
                Some((slice_to_vec(sub), end))
            }
        },
    }
}

/// Text, as the length-prefixed UTF-8 bytes of its characters.
pub open spec fn enc_str(cs: Seq<char>) -> Seq<u8>
    recommends
        encode_utf8(cs).len() <= u64::MAX,
{
    enc_bytes(encode_utf8(cs))
}

/// Reads length-prefixed text at position `i`; `None` when the bytes are not
/// valid UTF-8.
pub open spec fn dec_str_at(s: Seq<u8>, i: int) -> Option<(Seq<char>, int)> {
    match dec_bytes_at(s, i) {
        Some((b, j)) => if valid_utf8(b) {
            Some((decode_utf8(b), j))
        } else {
            None
        },
        None => None,
    }
}

pub proof fn lemma_dec_str_frame(s: Seq<u8>, i: int, cs: Seq<char>)
    requires
        encode_utf8(cs).len() <= u64::MAX,
        0 <= i,
        i + enc_str(cs).len() <= s.len(),
        s.subrange(i, i + enc_str(cs).len() as int) == enc_str(cs),
    ensures
        dec_str_at(s, i) == Some((cs, i + enc_str(cs).len() as int)),
{
    broadcast use vstd::utf8::encode_utf8_valid_utf8, vstd::utf8::encode_utf8_decode_utf8;

    lemma_dec_bytes_frame(s, i, encode_utf8(cs));
}

/// Appends the length-prefixed UTF-8 encoding of `t` to `out`.
pub fn encode_str_into(out: &mut Vec<u8>, t: &String)
    ensures
        final(out)@ == old(out)@ + enc_str(t@),
{
    let bytes = t.as_str().as_bytes_vec();
    encode_bytes_into(out, &bytes);
}

/// Relies on `String::from_utf8`: it succeeds exactly on valid UTF-8 input
/// and returns the text those bytes encode.
#[verifier::external_body]
pub fn string_from_utf8(v: Vec<u8>) -> (r: Option<String>)
    ensures
        r is Some <==> valid_utf8(v@),
        r matches Some(t) ==> t@ == decode_utf8(v@),
{
    String::from_utf8(v).ok()
}

pub fn decode_str_at(s: &Vec<u8>, i: usize) -> (r: Option<(String, usize)>)
    ensures
        match r {
            Some((t, j)) => dec_str_at(s@, i as int) == Some((t@, j as int)),
            None => dec_str_at(s@, i as int) is None,
        },
{
    match decode_bytes_at(s, i) {
        None => None,
        Some((b, j)) => match string_from_utf8(b) {
            None => None,
            Some(t) => Some((t, j)),
        },
    }
}

} // verus!
