//! Pinned rolling filter-header checkpoints per network. No vetted list
//! ships with the library, so every set is empty; populate a list here
//! when one has been audited, as `(height, rolling_header_hash)` pairs.
use vstd::prelude::*;

verus! {

/// Rolling cfheader checkpoints for the main network.
pub fn mainnet_checkpoints() -> (r: Vec<(u32, [u8; 32])>)
    ensures
        r@.len() == 0,
{
    Vec::new()
}

/// Rolling cfheader checkpoints for the test network.
pub fn testnet_checkpoints() -> (r: Vec<(u32, [u8; 32])>)
    ensures
        r@.len() == 0,
{
    Vec::new()
}

/// Rolling cfheader checkpoints for the signet network.
pub fn signet_checkpoints() -> (r: Vec<(u32, [u8; 32])>)
    ensures
        r@.len() == 0,
{
    Vec::new()
}

} // verus!
