//! The ledger core: the ordered chain of blocks and the pool of pending
//! transactions, with block creation, the proof-of-work search, full-chain
//! validity re-derivation, and the address-indexed transaction lookup.

use vstd::prelude::*;
use vstd::string::StrSliceExecFns;
use crate::block::{compute_header_bytes, hash_of_header, header_hash, now_timestamp, Block, HeaderView};
use crate::cyphers::sha256_hex;
use crate::transaction::{
    clone_txs, dec_txdata_at, txs_view, Transaction, TransactionData, TxDataView, TxView,
};

verus! {

/// The number of leading zero hex characters a block hash must show to be
/// accepted; the single global acceptance policy, a tunable constant.
pub const DIFFICULTY: u8 = 3;

/// Whether a hash shows at least `d` leading `'0'` characters (all of it,
/// when the hash is shorter than `d`).
pub open spec fn meets_difficulty(h: Seq<char>, d: nat) -> bool {
    forall|k: int| 0 <= k < d && k < h.len() ==> h[k] == '0'
}

/// Checks the difficulty predicate on a hash string.
fn hash_meets(h: &String, d: u8) -> (r: bool)
    ensures
        r == meets_difficulty(h@, d as nat),
{
    let len = h.as_str().unicode_len();
    let mut k: usize = 0;
    while k < d as usize && k < len
        invariant
            len == h@.len(),
            forall|j: int| 0 <= j < k ==> h@[j] == '0',
        decreases len - k,
    {
        if h.as_str().get_char(k) != '0' {
            return false;
        }
        k = k + 1;
    }
    true
}

/// Chain integrity: every non-genesis block's stored hash equals the hash
/// its current header fields determine. A single mismatch anywhere makes
/// the whole chain invalid.
pub open spec fn chain_ok(s: Seq<Block>) -> bool {
    forall|i: int|
        1 <= i < s.len() ==> (#[trigger] s[i])@.header.hash == hash_of_header(s[i]@.header)
}

/// The payload a transaction's bytes decode to, when they decode at all.
pub open spec fn txdata_of(t: TxView) -> Option<TxDataView> {
    match dec_txdata_at(t.data, 0) {
        Some((d, _)) => Some(d),
        None => None,
    }
}

/// Whether a transaction names `addr` as sender or receiver.
pub open spec fn tx_matches(t: TxView, addr: Seq<char>) -> bool {
    match txdata_of(t) {
        Some(d) => d.sender_addr == addr || d.receiver_addr == addr,
        None => false,
    }
}

/// Scans one block's transactions in order for `addr`. Yields the matching
/// transactions seen before the first undecodable payload, and whether the
/// whole list decoded (false aborts the chain scan).
pub open spec fn scan_txs(txs: Seq<TxView>, addr: Seq<char>) -> (Seq<TxView>, bool)
    decreases txs.len(),
{
    if txs.len() == 0 {
        (Seq::empty(), true)
    } else {
        match txdata_of(txs[0]) {
            None => (Seq::empty(), false),
            Some(d) => {
                let rest = scan_txs(txs.drop_first(), addr);
                let head: Seq<TxView> = if d.sender_addr == addr || d.receiver_addr == addr {
                    seq![txs[0]]
                } else {
                    Seq::empty()
                };
                (head + rest.0, rest.1)
            },
        }
    }
}

/// Scans the chain block by block for `addr`, fail-fast: the first
/// undecodable transaction anywhere aborts the whole scan, keeping what was
/// collected up to that point.
pub open spec fn scan_chain(blocks: Seq<Block>, addr: Seq<char>) -> Seq<TxView>
    decreases blocks.len(),
{
    if blocks.len() == 0 {
        Seq::empty()
    } else {
        let first = scan_txs(blocks[0]@.transactions, addr);
        first.0 + (if first.1 {
            scan_chain(blocks.drop_first(), addr)
        } else {
            Seq::empty()
        })
    }
}

/// The search is hopeless for these header fields: no 64-bit nonce makes
/// the candidate meet the difficulty.
pub open spec fn pow_exhausted(
    prev_hash: Seq<char>,
    time_stamp: i64,
    height: u64,
    difficulty: nat,
) -> bool {
    forall|m: u64|
        !meets_difficulty(header_hash(time_stamp, prev_hash, height, m), difficulty)
}

/// The search succeeded at `n`: the candidate built from these header
/// fields meets the difficulty, and no smaller nonce does.
pub open spec fn pow_found(
    prev_hash: Seq<char>,
    time_stamp: i64,
    height: u64,
    difficulty: nat,
    n: u64,
) -> bool {
    &&& meets_difficulty(header_hash(time_stamp, prev_hash, height, n), difficulty)
    &&& forall|m: u64|
        m < n ==> !meets_difficulty(header_hash(time_stamp, prev_hash, height, m), difficulty)
}

/// Searches nonces from zero upward for one that makes the candidate
/// header meet the difficulty; returns the smallest such nonce, or `None`
/// when no 64-bit nonce works. With difficulty zero every candidate is
/// valid and the search returns zero immediately.
pub fn find_nonce(prev_hash: &String, time_stamp: i64, height: u64, difficulty: u8) -> (r: Option<
    u64,
>)
    ensures
        match r {
            Some(n) => pow_found(prev_hash@, time_stamp, height, difficulty as nat, n),
            None => pow_exhausted(prev_hash@, time_stamp, height, difficulty as nat),
        },
        difficulty == 0 ==> r == Some(0u64),
{
    let mut nonce: u64 = 0;
    loop
        invariant
            forall|m: u64|
                m < nonce ==> !meets_difficulty(
                    header_hash(time_stamp, prev_hash@, height, m),
                    difficulty as nat,
                ),
        decreases u64::MAX - nonce,
    {
        let bytes = compute_header_bytes(time_stamp, prev_hash, height, nonce);
        let h = sha256_hex(&bytes);
        if hash_meets(&h, difficulty) {
            if difficulty == 0 {
                proof {
                    assert(meets_difficulty(header_hash(time_stamp, prev_hash@, height, 0u64), 0));
                }
            }
            return Some(nonce);
        }
        if nonce == u64::MAX {
            return None;
        }
        nonce = nonce + 1;
    }
}

/// The in-memory ledger: the chain (index 0 is the genesis block) and the
/// pool of submitted, not-yet-mined transactions.
#[derive(Debug)]
pub struct BlockChain {
    pub mem_pool: Vec<Transaction>,
    pub chain: Vec<Block>,
    pub block_chain_address: Option<String>,
    pub difficulty: u8,
}

impl BlockChain {
    /// A fresh ledger: a hashed genesis block with the fixed placeholder
    /// previous hash, an empty pool, and the default difficulty.
    pub fn new() -> (r: Self)
        ensures
            r.chain@.len() == 1,
            r.chain@[0]@.header.prev_hash == "hash_0"@,
            (r.chain@[0]@.header.height as nat) == 1,
            r.chain@[0]@.header.nonce == 0,
            r.chain@[0]@.transactions == Seq::<TxView>::empty(),
            r.chain@[0]@.header.hash == hash_of_header(r.chain@[0]@.header),
            chain_ok(r.chain@),
            r.mem_pool@.len() == 0,
            r.block_chain_address is None,
            r.difficulty == DIFFICULTY,
    {
        let empty: Vec<Transaction> = Vec::new();
        proof {
            assert(txs_view(empty@) =~= Seq::<TxView>::empty());
        }
        let mut b = Block::new("hash_0".to_owned(), 0, 1, empty);
        b.gen_hash();
        let mut chain: Vec<Block> = Vec::new();
        chain.push(b);
        BlockChain { chain, mem_pool: Vec::new(), block_chain_address: None, difficulty: DIFFICULTY }
    }

    /// Appends a block built from the given previous hash and nonce, the
    /// current pool snapshot and the next height; computes and stores its
    /// hash; clears the pool. Whether the nonce really proves work is the
    /// caller's concern — search and commit are deliberately separate.
    pub fn create_block(&mut self, prev_hash: String, nonce: u64) -> (r: Option<&Block>)
        ensures
            final(self).chain@.len() == old(self).chain@.len() + 1,
            forall|i: int|
                0 <= i < old(self).chain@.len() ==> final(self).chain@[i] == old(self).chain@[i],
            ({
                let b = final(self).chain@.last()@;
                &&& b.header.prev_hash == prev_hash@
                &&& (b.header.height as nat) == old(self).chain@.len()
                &&& b.header.nonce == nonce
                &&& b.transactions == txs_view(old(self).mem_pool@)
                &&& b.header.hash == hash_of_header(b.header)
            }),
            final(self).mem_pool@.len() == 0,
            final(self).block_chain_address == old(self).block_chain_address,
            final(self).difficulty == old(self).difficulty,
            chain_ok(old(self).chain@) ==> chain_ok(final(self).chain@),
            r matches Some(b) && *b == final(self).chain@.last(),
    {
        let snapshot = clone_txs(&self.mem_pool);
        let mut b = Block::new(prev_hash, nonce, self.chain.len() as u64, snapshot);
        b.gen_hash();
        self.chain.push(b);
        self.mem_pool = Vec::new();
        proof {
            assert forall|i: int|
                1 <= i < final(self).chain@.len() && chain_ok(
                    old(self).chain@,
                ) implies (#[trigger] final(self).chain@[i])@.header.hash == hash_of_header(
                final(self).chain@[i]@.header,
            ) by {
                if i < old(self).chain@.len() {
                    assert(final(self).chain@[i] == old(self).chain@[i]);
                }
            }
        }
        let n = self.chain.len();
        Some(&self.chain[n - 1])
    }

    /// The most recently appended block, or `None` on an empty chain.
    pub fn latest_block(&self) -> (r: Option<&Block>)
        ensures
            match r {
                Some(b) => self.chain@.len() > 0 && *b == self.chain@.last(),
                None => self.chain@.len() == 0,
            },
    {
        let n = self.chain.len();
        if n == 0 {
            None
        } else {
            Some(&self.chain[n - 1])
        }
    }

    /// Appends a transaction to the pool and returns a reference to the
    /// stored copy. The chain is untouched.
    pub fn add_transaction(&mut self, tx: Transaction) -> (r: Option<&Transaction>)
        ensures
            final(self).mem_pool@ == old(self).mem_pool@.push(tx),
            final(self).chain@ == old(self).chain@,
            final(self).block_chain_address == old(self).block_chain_address,
            final(self).difficulty == old(self).difficulty,
            r matches Some(t) && *t == tx,
    {
        self.mem_pool.push(tx);
        let n = self.mem_pool.len();
        Some(&self.mem_pool[n - 1])
    }

    /// Recomputes the candidate's hash, stores it, and reports whether it
    /// meets the ledger's difficulty.
    pub fn valid_proof(&self, adding_block: &mut Block) -> (r: bool)
        ensures
            r == meets_difficulty(
                hash_of_header(old(adding_block)@.header),
                self.difficulty as nat,
            ),
            final(adding_block)@.header == (HeaderView {
                hash: hash_of_header(old(adding_block)@.header),
                ..old(adding_block)@.header
            }),
            final(adding_block)@.transactions == old(adding_block)@.transactions,
    {
        let h = adding_block.gen_hash();
        hash_meets(&h, self.difficulty)
    }

    /// Brute-force search for a nonce that makes a candidate block built
    /// from the latest hash and next height meet the difficulty. The
    /// candidate's timestamp is sampled once, at the start of the search;
    /// the returned nonce is the smallest that works for it.
    pub fn proof_of_work(&self) -> (r: Option<u64>)
        requires
            self.chain@.len() > 0,
        ensures
            r matches Some(n) ==> exists|ts: i64|
                #[trigger] pow_found(
                    self.chain@.last()@.header.hash,
                    ts,
                    self.chain@.len() as u64,
                    self.difficulty as nat,
                    n,
                ),
            r is None ==> exists|ts: i64|
                #[trigger] pow_exhausted(
                    self.chain@.last()@.header.hash,
                    ts,
                    self.chain@.len() as u64,
                    self.difficulty as nat,
                ),
            self.difficulty == 0 ==> r == Some(0u64),
    {
        let n = self.chain.len();
        let prev_hash = self.chain[n - 1].hash();
        let time_stamp = now_timestamp();
        let r = find_nonce(&prev_hash, time_stamp, n as u64, self.difficulty);
        proof {
            if r is Some {
                assert(pow_found(
                    self.chain@.last()@.header.hash,
                    time_stamp,
                    self.chain@.len() as u64,
                    self.difficulty as nat,
                    r.unwrap(),
                ));
            } else {
                assert(pow_exhausted(
                    self.chain@.last()@.header.hash,
                    time_stamp,
                    self.chain@.len() as u64,
                    self.difficulty as nat,
                ));
            }
        }
        r
    }

    /// Mines one block: searches for a proof over the pool as it stands,
    /// then commits it. On success the new block holds exactly the pool
    /// contents captured when mining began, linked to the previous latest
    /// block, its nonce is the proof-of-work result for those header
    /// fields, and the pool is cleared; when the whole nonce space is
    /// exhausted the ledger is unchanged. No mining reward is credited:
    /// the reward policy is deliberately absent here, as it is in the
    /// ledger's wire protocol; `block_chain_address` stands ready for one.
    pub fn minning(&mut self) -> (r: bool)
        requires
            old(self).chain@.len() > 0,
        ensures
            r ==> ({
                &&& final(self).chain@.len() == old(self).chain@.len() + 1
                &&& forall|i: int|
                    0 <= i < old(self).chain@.len() ==> final(self).chain@[i] == old(
                        self,
                    ).chain@[i]
                &&& final(self).mem_pool@.len() == 0
                &&& ({
                    let b = final(self).chain@.last()@;
                    &&& b.transactions == txs_view(old(self).mem_pool@)
                    &&& b.header.prev_hash == old(self).chain@.last()@.header.hash
                    &&& (b.header.height as nat) == old(self).chain@.len()
                    &&& b.header.hash == hash_of_header(b.header)
                })
                &&& (chain_ok(old(self).chain@) ==> chain_ok(final(self).chain@))
                &&& exists|ts: i64|
                    #[trigger] pow_found(
                        old(self).chain@.last()@.header.hash,
                        ts,
                        old(self).chain@.len() as u64,
                        old(self).difficulty as nat,
                        final(self).chain@.last()@.header.nonce,
                    )
            }),
            !r ==> *final(self) == *old(self),
            !r ==> exists|ts: i64|
                #[trigger] pow_exhausted(
                    old(self).chain@.last()@.header.hash,
                    ts,
                    old(self).chain@.len() as u64,
                    old(self).difficulty as nat,
                ),
            old(self).difficulty == 0 ==> r,
    {
        let n = self.chain.len();
        let prev_hash = self.chain[n - 1].hash();
        match self.proof_of_work() {
            Some(nonce) => {
                let ghost prev_hash_v = old(self).chain@.last()@.header.hash;
                let ghost height_v = old(self).chain@.len() as u64;
                let ghost diff_v = old(self).difficulty as nat;
                self.create_block(prev_hash, nonce);
                proof {
                    let ts = choose|ts: i64| pow_found(prev_hash_v, ts, height_v, diff_v, nonce);
                    assert(pow_found(
                        prev_hash_v,
                        ts,
                        height_v,
                        diff_v,
                        self.chain@.last()@.header.nonce,
                    ));
                }
                true
            },
            None => false,
        }
    }

    /// True exactly when every non-genesis block's stored hash matches the
    /// hash re-derived from its current header fields. Mutating any header
    /// field after creation is caught here.
    pub fn is_valid(&self) -> (r: bool)
        ensures
            r == chain_ok(self.chain@),
    {
        let n = self.chain.len();
        let mut i: usize = 1;
        while i < n
            invariant
                n == self.chain@.len(),
                1 <= i,
                forall|j: int|
                    1 <= j < i ==> (#[trigger] self.chain@[j])@.header.hash == hash_of_header(
                        self.chain@[j]@.header,
                    ),
            decreases n - i,
        {
            let stored = self.chain[i].hash();
            let computed = self.chain[i].computed_hash();
            if !(stored == computed) {
                return false;
            }
            i = i + 1;
        }
        true
    }

    /// Every transaction across all blocks in which `addr` is the sender or
    /// the receiver, in chain order. Fail-fast: the first transaction whose
    /// payload does not decode aborts the whole scan, returning what was
    /// collected so far.
    pub fn txs_of_addr(&self, addr: String) -> (r: Vec<Transaction>)
        ensures
            txs_view(r@) == scan_chain(self.chain@, addr@),
    {
        let mut acc: Vec<Transaction> = Vec::new();
        let nb = self.chain.len();
        let mut bi: usize = 0;
        proof {
            assert(txs_view(acc@) =~= Seq::<TxView>::empty());
            assert(self.chain@.skip(0) =~= self.chain@);
        }
        while bi < nb
            invariant
                nb == self.chain@.len(),
                bi <= nb,
                scan_chain(self.chain@, addr@) == txs_view(acc@) + scan_chain(
                    self.chain@.skip(bi as int),
                    addr@,
                ),
            decreases nb - bi,
        {
            let block = &self.chain[bi];
            let nt = block.transactions.len();
            let mut ti: usize = 0;
            proof {
                assert(self.chain@.skip(bi as int)[0] == self.chain@[bi as int]);
                assert(self.chain@.skip(bi as int).drop_first() =~= self.chain@.skip(
                    bi as int + 1,
                ));
                assert(block@.transactions.skip(0) =~= block@.transactions);
            }
            while ti < nt
                invariant
                    nb == self.chain@.len(),
                    bi < nb,
                    block == &self.chain@[bi as int],
                    nt == block@.transactions.len(),
                    ti <= nt,
                    scan_chain(self.chain@, addr@) == txs_view(acc@) + ({
                        let rest = scan_txs(block@.transactions.skip(ti as int), addr@);
                        rest.0 + (if rest.1 {
                            scan_chain(self.chain@.skip(bi as int + 1), addr@)
                        } else {
                            Seq::<TxView>::empty()
                        })
                    }),
                decreases nt - ti,
            {
                let tx = &block.transactions[ti];
                proof {
                    assert(block@.transactions.skip(ti as int)[0] == tx@);
                    assert(block@.transactions.skip(ti as int).drop_first()
                        =~= block@.transactions.skip(ti as int + 1));
                }
                match TransactionData::decode(&tx.data) {
                    None => {
                        return acc;
                    },
                    Some(d) => {
                        if d.sender_addr.eq(&addr) || d.receiver_addr.eq(&addr) {
                            proof {
                                assert(txs_view(acc@.push(*tx)) =~= txs_view(acc@).push(tx@));
                            }
                            acc.push(tx.clone());
                        }
                    },
                }
                ti = ti + 1;
            }
            bi = bi + 1;
        }
        proof {
            assert(scan_chain(self.chain@.skip(nb as int), addr@) == Seq::<TxView>::empty());
            assert(txs_view(acc@) + Seq::<TxView>::empty() =~= txs_view(acc@));
        }
        acc
    }
}

} // verus!
