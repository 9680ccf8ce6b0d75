//! A wallet: a key pair plus the address derived from the public key (the
//! lowercase hex of its first 20 bytes — a deliberately simple scheme kept
//! behind this one derivation point). It builds transactions from its own
//! address and signs raw bytes; it never touches chain or pool state.

use vstd::prelude::*;
use vstd::slice::slice_subrange;
use crate::cyphers::{
    ecdsa_sign_of, ecdsa_verifies, hex_encode, hex_of, sec1_pubkey_of, valid_secret, CypherErr,
    PrivateKey, PublicKey, Signature,
};
use crate::transaction::{enc_txdata, txs_view, TxBuilder, TxBuilderResult, TxDataView, TxView};

verus! {

pub struct Wallet {
    data: Vec<u8>,
    pub address: String,
    private_key: PrivateKey,
    public_key: PublicKey,
}

impl Wallet {
    /// The wallet's secret scalar.
    pub closed spec fn spec_private_key(&self) -> Seq<u8> {
        self.private_key@
    }

    /// The wallet's SEC1 public key bytes.
    pub closed spec fn spec_public_key(&self) -> Seq<u8> {
        self.public_key@
    }

    /// The seed bytes the wallet was created with.
    pub closed spec fn spec_data(&self) -> Seq<u8> {
        self.data@
    }

    /// The wallet's address text.
    pub closed spec fn spec_address(&self) -> Seq<char> {
        self.address@
    }

    /// A wallet around a freshly generated key pair: generation always
    /// yields a valid secret, its public key is always long enough for the
    /// address scheme, so construction always succeeds.
    pub fn new(data: Vec<u8>) -> (r: Result<Self, String>)
        ensures
            r is Ok,
            r matches Ok(w) ==> ({
                &&& valid_secret(w.spec_private_key())
                &&& w.spec_public_key() == sec1_pubkey_of(w.spec_private_key())
                &&& w.spec_public_key().len() == 33
                &&& w.spec_address() == hex_of(w.spec_public_key().subrange(0, 20))
                &&& w.spec_data() == data@
            }),
    {
        let private_key = match PrivateKey::generate() {
            Ok(k) => k,
            Err(e) => {
                return Err(e);
            },
        };
        let public_key = private_key.public_key();
        let pk_bytes = public_key.as_bytes();
        let prefix = slice_subrange(pk_bytes.as_slice(), 0, 20);
        let address = hex_encode(prefix);
        Ok(Wallet { data, address, private_key, public_key })
    }

    /// The wallet's public key, for verifying what the wallet signed.
    pub fn public_key(&self) -> (r: &PublicKey)
        ensures
            r@ == self.spec_public_key(),
    {
        &self.public_key
    }

    /// An unsigned transaction from this wallet's address, with empty input
    /// and output lists (a placeholder until balance tracking exists).
    pub fn create_transaction(&self, receiver_addr: String, value: u64) -> (r: TxBuilderResult)
        ensures
            r is Ok,
            r matches Ok(t) ==> t@ == (TxView {
                trx_id: Seq::<char>::empty(),
                data: enc_txdata(
                    TxDataView {
                        sender_addr: self.spec_address(),
                        receiver_addr: receiver_addr@,
                        value: value,
                        inputs: Seq::<TxView>::empty(),
                        outputs: Seq::<TxView>::empty(),
                    },
                ),
                signature: None,
            }),
    {
        let empty_inputs: Vec<crate::transaction::Transaction> = Vec::new();
        let empty_outputs: Vec<crate::transaction::Transaction> = Vec::new();
        proof {
            assert(txs_view(empty_inputs@) =~= Seq::<TxView>::empty());
            assert(txs_view(empty_outputs@) =~= Seq::<TxView>::empty());
        }
        TxBuilder::new(self.address.clone(), receiver_addr, value).inputs(empty_inputs).outputs(
            empty_outputs,
        ).build()
    }

    /// Signs raw bytes with the wallet's secret; succeeds exactly when the
    /// secret is a valid scalar — always, for a wallet from `new`. A
    /// produced signature validates against the wallet's own public key and
    /// exactly these bytes.
    pub fn sign_data(&self, data: &[u8]) -> (r: Result<Signature, CypherErr>)
        ensures
            r is Ok <==> valid_secret(self.spec_private_key()),
            r matches Ok(s) ==> ({
                &&& s@ == ecdsa_sign_of(self.spec_private_key(), data@)
                &&& s@.len() == 64
                &&& ecdsa_verifies(sec1_pubkey_of(self.spec_private_key()), s@, data@)
            }),
            r matches Err(e) ==> e == CypherErr::InvalidSecretKey,
    {
        self.private_key.sign(data)
    }
}

} // verus!
