//! A minimal in-memory ledger: an append-only chain of blocks mined by
//! proof-of-work, populated from a pool of pending transactions that are
//! authenticated with secp256k1 ECDSA signatures.

pub mod block;
pub mod block_chain;
pub mod codec;
pub mod cyphers;
pub mod transaction;
pub mod wallet;
