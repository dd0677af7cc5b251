//! Compact-block-filter sync engine for light wallets.
//!
//! The engine keeps a rolling chain of filter headers, checks it against
//! trusted checkpoints, matches per-block filters against a wallet
//! watchlist, and tracks restart-safe scan progress.
pub mod blockio;
pub mod cfheaders;
pub mod checkpoints;
pub mod engine;
pub mod filter_source;
pub mod hashes;
pub mod matcher;

use vstd::prelude::*;

verus! {

/// Saturating successor of a height: the contiguity check expresses
/// overflow at `u32::MAX` as a start mismatch rather than a wrap.
pub open spec fn succ_height(h: u32) -> u32 {
    if h == u32::MAX {
        u32::MAX
    } else {
        (h + 1) as u32
    }
}

/// Saturating successor of a height, as the contiguity check uses it.
pub fn next_height(h: u32) -> (r: u32)
    ensures
        r == succ_height(h),
{
    if h == u32::MAX {
        u32::MAX
    } else {
        h + 1
    }
}

} // verus!
