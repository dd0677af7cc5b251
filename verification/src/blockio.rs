//! Decoding a fetched block into its transaction list.
use vstd::prelude::*;

verus! {

/// A consensus transaction, opaque to the library: it is decoded from a
/// fetched block and handed to the wallet unchanged.
#[verifier::external_type_specification]
#[verifier::external_body]
pub struct ExTransaction(bitcoin::Transaction);

/// What `bitcoin::consensus::encode::deserialize::<Block>` yields on
/// `raw`: the decoded block's transactions in block order, or `None`
/// where the bytes do not parse as exactly one block. A function of the
/// bytes alone.
pub uninterp spec fn decoded_block_txs(raw: Seq<u8>) -> Option<Vec<bitcoin::Transaction>>;

/// Relies on `bitcoin::consensus::encode::deserialize`: consensus
/// decoding of a block is deterministic in the input bytes and fails on
/// anything but a whole well-formed block.
#[verifier::external_body]
pub fn decode_block_txs(raw: &Vec<u8>) -> (r: Option<Vec<bitcoin::Transaction>>)
    ensures
        r == decoded_block_txs(raw@),
{
    match bitcoin::consensus::encode::deserialize::<bitcoin::Block>(raw.as_slice()) {
        Ok(b) => Some(b.txdata),
        Err(_) => None,
    }
}

} // verus!
