//! Key material and signatures for authenticating transactions: secp256k1
//! ECDSA key generation, signing and verification, together with the hashing
//! and hex helpers the rest of the ledger uses. The elliptic-curve and hash
//! computations are performed by outside crates behind small trusted
//! wrappers; everything around them is verified.

use vstd::prelude::*;
use vstd::slice::slice_to_vec;
use k256::ecdsa::signature::{Signer, Verifier};

verus! {

/// Anything the ledger can turn into its canonical byte form.
pub trait Encoder {
    fn encode(&self) -> Result<Vec<u8>, String>;
}

/// Anything the ledger can rebuild from its canonical byte form.
pub trait Decoder {
    fn decode(&self, encoded: &Vec<u8>) -> Result<Box<Self>, String>;
}

/// The lowercase hex digit for a value below 16.
pub open spec fn hex_digit(n: u8) -> char
    recommends
        n < 16,
{
    if n < 10 {
        (n + 48) as char
    } else {
        (n + 87) as char
    }
}

/// Lowercase hex text of a byte string: two digits per byte, high nibble
/// first.
pub open spec fn hex_of(b: Seq<u8>) -> Seq<char> {
    Seq::new(2 * b.len(), |i: int| if i % 2 == 0 {
        hex_digit(b[i / 2] / 16)
    } else {
        hex_digit(b[i / 2] % 16)
    })
}

/// Relies on `hex::encode`: lowercase hex, two digits per byte, high nibble
/// first.
#[verifier::external_body]
pub(crate) fn hex_encode(b: &[u8]) -> (r: String)
    ensures
        r@ == hex_of(b@),
{
    hex::encode(b)
}

/// The lowercase 64-character hex form of the SHA-256 digest of a byte
/// string; a function of the bytes alone.
pub uninterp spec fn sha256_hex_of(data: Seq<u8>) -> Seq<char>;

/// Relies on `sha256::digest`: the SHA-256 digest of the input bytes,
/// hex-encoded in lowercase, always 64 characters.
#[verifier::external_body]
pub(crate) fn sha256_hex(data: &Vec<u8>) -> (r: String)
    ensures
        r@ == sha256_hex_of(data@),
        r@.len() == 64,
{
    sha256::digest(data)
}

/// The SEC1 encoding of the public point derived from a 32-byte secret
/// scalar; empty when the bytes are not a valid non-zero scalar. A function
/// of the secret alone.
pub uninterp spec fn sec1_pubkey_of(sk: Seq<u8>) -> Seq<u8>;

/// The RFC 6979 deterministic ECDSA signature (64 bytes, `r || s`) that the
/// secret produces over a payload; a function of secret and payload alone.
pub uninterp spec fn ecdsa_sign_of(sk: Seq<u8>, data: Seq<u8>) -> Seq<u8>;

/// Whether a signature validates against a SEC1 public key and a payload; a
/// function of the three byte strings alone.
pub uninterp spec fn ecdsa_verifies(pk: Seq<u8>, sig: Seq<u8>, data: Seq<u8>) -> bool;

/// Whether 32 bytes form a valid secp256k1 secret: a canonical non-zero
/// scalar, exactly the set `SigningKey::from_slice` and
/// `SecretKey::from_slice` accept.
pub uninterp spec fn valid_secret(sk: Seq<u8>) -> bool;

/// Relies on `SecretKey::random` (k256): a fresh 32-byte secret scalar drawn
/// from the operating system's entropy source. Every draw is a non-zero
/// scalar in canonical form — the crate samples a `NonZeroScalar` — so the
/// result always satisfies `valid_secret`; nothing more is promised of it.
#[verifier::external_body]
fn random_secret_bytes() -> (r: [u8; 32])
    ensures
        valid_secret(r@),
{
    k256::SecretKey::random(&mut rand_core::OsRng).to_bytes().into()
}

/// Relies on `SecretKey::from_slice` and `PublicKey::to_sec1_bytes` (k256):
/// the SEC1 point of the derived public key, or the empty string when the
/// secret is not a valid non-zero scalar. k256 compresses points
/// (`COMPRESS_POINTS` is true), so for a valid secret the encoding is
/// exactly 33 bytes.
#[verifier::external_body]
fn sec1_pubkey(sk: &[u8; 32]) -> (r: Vec<u8>)
    ensures
        r@ == sec1_pubkey_of(sk@),
        valid_secret(sk@) ==> r@.len() == 33,
{
    match k256::SecretKey::from_slice(sk) {
        Ok(k) => k.public_key().to_sec1_bytes().to_vec(),
        Err(_) => Vec::new(),
    }
}

/// Relies on `SigningKey::from_slice` and `Signer::sign` (k256): RFC 6979
/// deterministic ECDSA over the payload, serialized as fixed-width
/// `r || s` (64 bytes), which the documentation promises verifies under the
/// verifying key derived from the same secret. `from_slice` succeeds exactly
/// on a valid non-zero scalar, so signing succeeds exactly on
/// `valid_secret`.
#[verifier::external_body]
fn ecdsa_sign(sk: &[u8; 32], data: &[u8]) -> (r: Option<Vec<u8>>)
    ensures
        r is Some <==> valid_secret(sk@),
        r matches Some(s) ==> s@ == ecdsa_sign_of(sk@, data@) && s@.len() == 64
            && ecdsa_verifies(sec1_pubkey_of(sk@), s@, data@),
{
    match k256::ecdsa::SigningKey::from_slice(sk) {
        Ok(k) => {
            let sig: k256::ecdsa::Signature = k.sign(data);
            Some(sig.to_bytes().to_vec())
        },
        Err(_) => None,
    }
}

/// Relies on `VerifyingKey::from_sec1_bytes`, `Signature::from_slice` and
/// `Verifier::verify` (k256): true exactly when the public key bytes are a
/// valid SEC1 point, the signature bytes are a valid 64-byte `r || s` pair,
/// and the signature validates against the payload.
#[verifier::external_body]
fn ecdsa_verify(pk: &[u8], sig: &[u8], data: &[u8]) -> (r: bool)
    ensures
        r == ecdsa_verifies(pk@, sig@, data@),
{
    match (k256::ecdsa::VerifyingKey::from_sec1_bytes(pk), k256::ecdsa::Signature::from_slice(sig)) {
        (Ok(k), Ok(s)) => k.verify(data, &s).is_ok(),
        _ => false,
    }
}

/// Errors from the key and signature subsystem.
#[derive(Debug, PartialEq, Eq, Structural)]
pub enum CypherErr {
    /// The secret bytes are not a valid non-zero curve scalar.
    InvalidSecretKey,
    /// The signature does not validate against the key and payload.
    InvalidSignature,
}

/// A 32-byte secp256k1 secret scalar. Created by random generation and never
/// serialized.
#[derive(Debug)]
pub struct PrivateKey {
    key_bytes: [u8; 32],
}

impl View for PrivateKey {
    type V = Seq<u8>;

    closed spec fn view(&self) -> Seq<u8> {
        self.key_bytes@
    }
}

impl PrivateKey {
    /// Draws a fresh random secret; always a valid non-zero scalar.
    pub fn generate() -> (r: Result<Self, String>)
        ensures
            r is Ok,
            r matches Ok(k) ==> k@.len() == 32 && valid_secret(k@),
    {
        let key_bytes = random_secret_bytes();
        Ok(PrivateKey { key_bytes })
    }

    /// The public key derived from this secret: 33 bytes of compressed SEC1
    /// point whenever the secret is valid.
    pub fn public_key(&self) -> (r: PublicKey)
        ensures
            r@ == sec1_pubkey_of(self@),
            valid_secret(self@) ==> r@.len() == 33,
    {
        PublicKey::from(self)
    }

    /// Signs a payload; the signature validates against the derived public
    /// key. Succeeds exactly when the secret bytes are a valid scalar —
    /// always, for a generated key.
    pub fn sign(&self, data: &[u8]) -> (r: Result<Signature, CypherErr>)
        ensures
            r is Ok <==> valid_secret(self@),
            r matches Ok(s) ==> s@ == ecdsa_sign_of(self@, data@) && s@.len() == 64
                && ecdsa_verifies(sec1_pubkey_of(self@), s@, data@),
            r matches Err(e) ==> e == CypherErr::InvalidSecretKey,
    {
        match ecdsa_sign(&self.key_bytes, data) {
            Some(bytes) => Ok(Signature { bytes }),
            None => Err(CypherErr::InvalidSecretKey),
        }
    }

    pub fn as_bytes(&self) -> (r: &[u8; 32])
        ensures
            r@ == self@,
    {
        &self.key_bytes
    }

    pub fn as_hex(&self) -> (r: String)
        ensures
            r@ == hex_of(self@),
    {
        hex_encode(self.key_bytes.as_slice())
    }
}

/// A secp256k1 public key in SEC1 point encoding; freely shareable.
#[derive(Debug)]
pub struct PublicKey {
    key_bytes: Vec<u8>,
}

impl View for PublicKey {
    type V = Seq<u8>;

    closed spec fn view(&self) -> Seq<u8> {
        self.key_bytes@
    }
}

impl PublicKey {
    /// Derives the public key of a secret; a pure function of the secret,
    /// 33 bytes of compressed SEC1 point whenever the secret is valid.
    pub fn from(private_key: &PrivateKey) -> (r: Self)
        ensures
            r@ == sec1_pubkey_of(private_key@),
            valid_secret(private_key@) ==> r@.len() == 33,
    {
        let key_bytes = sec1_pubkey(private_key.as_bytes());
        PublicKey { key_bytes }
    }

    /// Succeeds exactly when `signature` validates against this key and the
    /// payload.
    pub fn verify(&self, signature: &Signature, data: &[u8]) -> (r: Result<(), CypherErr>)
        ensures
            r is Ok <==> ecdsa_verifies(self@, signature@, data@),
            r matches Err(e) ==> e == CypherErr::InvalidSignature,
    {
        if ecdsa_verify(self.key_bytes.as_slice(), signature.bytes.as_slice(), data) {
            Ok(())
        } else {
            Err(CypherErr::InvalidSignature)
        }
    }

    pub fn as_bytes(&self) -> (r: Vec<u8>)
        ensures
            r@ == self@,
    {
        slice_to_vec(self.key_bytes.as_slice())
    }

    pub fn as_hex(&self) -> (r: String)
        ensures
            r@ == hex_of(self@),
    {
        hex_encode(self.key_bytes.as_slice())
    }
}

/// An ECDSA signature in the ledger's one stable serialization: the
/// fixed-width 64-byte `r || s` form.
#[derive(Debug)]
pub struct Signature {
    bytes: Vec<u8>,
}

impl View for Signature {
    type V = Seq<u8>;

    closed spec fn view(&self) -> Seq<u8> {
        self.bytes@
    }
}

impl Clone for Signature {
    fn clone(&self) -> (r: Self)
        ensures
            r@ == self@,
    {
        Signature { bytes: slice_to_vec(self.bytes.as_slice()) }
    }
}

impl Signature {
    /// Rebuilds a signature from its serialized form; the exact inverse of
    /// `as_bytes`. The bytes are not validated here: whether they form a
    /// well-formed signature is decided by `PublicKey::verify`, which
    /// reports malformed bytes as `InvalidSignature`.
    pub fn from_bytes(bytes: Vec<u8>) -> (r: Self)
        ensures
            r@ == bytes@,
    {
        Signature { bytes }
    }

    /// The stable byte serialization of this signature.
    pub fn as_bytes(&self) -> (r: Vec<u8>)
        ensures
            r@ == self@,
    {
        slice_to_vec(self.bytes.as_slice())
    }

    pub fn as_hex(&self) -> (r: String)
        ensures
            r@ == hex_of(self@),
    {
        hex_encode(self.bytes.as_slice())
    }
}

} // verus!
