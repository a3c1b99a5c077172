//! What the validation reads of a Bitcoin transaction, and the chain's hash.

use sha2::{Digest, Sha256};
use vstd::prelude::*;

verus! {

/// Fewest confirmations that a time-locked exit may ask for.
pub const MIN_BTC_TIME_LOCK_AFTER: u32 = 6;

/// An input of a Bitcoin transaction: the out point it spends, as the id of the
/// transaction that made it and the index of the output there.
#[derive(Clone, Copy, Debug, PartialEq, Eq)]
pub struct TxIn {
    pub previous_output: ([u8; 32], u32),
}

/// What a `TxIn` holds, as plain values.
pub struct TxInView {
    pub previous_output: (Seq<u8>, u32),
}

impl View for TxIn {
    type V = TxInView;

    open spec fn view(&self) -> TxInView {
        TxInView { previous_output: (self.previous_output.0@, self.previous_output.1) }
    }
}

/// A parsed Bitcoin transaction: its id and its inputs in order.
#[derive(Clone, Debug, PartialEq, Eq)]
pub struct BTCTx {
    pub txid: [u8; 32],
    pub inputs: Vec<TxIn>,
}

/// What a `BTCTx` holds, as plain values.
pub struct BTCTxView {
    pub txid: Seq<u8>,
    pub inputs: Seq<TxInView>,
}

impl View for BTCTx {
    type V = BTCTxView;

    open spec fn view(&self) -> BTCTxView {
        BTCTxView { txid: self.txid@, inputs: self.inputs@.map_values(|i: TxIn| i@) }
    }
}

/// The SHA-256 digest of `data`.
pub uninterp spec fn sha256_digest(data: Seq<u8>) -> Seq<u8>;

/// The digest of the digest, as Bitcoin commits to data.
pub open spec fn double_sha256(data: Seq<u8>) -> Seq<u8> {
    sha256_digest(sha256_digest(data))
}

/// Calls `Sha256::digest` of the `sha2` crate (the `Digest` trait's one-shot
/// function). The result is the SHA-256 digest of the bytes handed in, a
/// function of those bytes alone.
#[verifier::external_body]
pub(crate) fn sha2(data: &[u8]) -> (digest: [u8; 32])
    ensures
        digest@ == sha256_digest(data@),
{
    Sha256::digest(data).into()
}

/// Hashes `data` twice.
pub fn sha2_twice(data: &[u8]) -> (digest: [u8; 32])
    ensures
        digest@ == double_sha256(data@),
{
    let once = sha2(data);
    sha2(once.as_slice())
}

} // verus!
