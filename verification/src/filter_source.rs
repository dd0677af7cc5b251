//! Transport shape of a filter-header batch as a source returns it.
use vstd::prelude::*;

verus! {

/// A batch of per-block filter digests returned by a source.
pub struct CfHeadersBatch {
    /// Height of the first digest in `headers`.
    pub start_height: u32,
    /// Consecutive 32-byte per-block filter digests; element `i` belongs
    /// to height `start_height + i`.
    pub headers: Vec<[u8; 32]>,
}

} // verus!
