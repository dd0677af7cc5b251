use bitcoin::hashes::Hash as _;
use niebla_158::cfheaders::{CfHeaderChain, ChainError};
use niebla_158::checkpoints::{mainnet_checkpoints, signet_checkpoints, testnet_checkpoints};

/// One step of the rolling recurrence, computed independently of the
/// library: HASH256(prev || digest).
fn reference_step(prev: [u8; 32], digest: [u8; 32]) -> [u8; 32] {
    let mut data = Vec::with_capacity(64);
    data.extend_from_slice(&prev);
    data.extend_from_slice(&digest);
    bitcoin::hashes::sha256d::Hash::hash(&data).to_byte_array()
}

#[test]
fn fresh_chain_starts_at_zero() {
    let c = CfHeaderChain::new_from_store(None);
    assert_eq!(c.tip_height, 0);
    assert_eq!(c.tip_hash, [0u8; 32]);
}

#[test]
fn stored_tip_is_adopted() {
    let c = CfHeaderChain::new_from_store(Some((9, [3u8; 32])));
    assert_eq!(c.tip_height, 9);
    assert_eq!(c.tip_hash, [3u8; 32]);
}

#[test]
fn stored_tip_at_height_zero_counts_as_fresh() {
    let c = CfHeaderChain::new_from_store(Some((0, [3u8; 32])));
    assert_eq!(c.tip_height, 0);
    assert_eq!(c.tip_hash, [0u8; 32]);
}

#[test]
fn single_header_fold_matches_reference_hash256() {
    let mut c = CfHeaderChain::new_from_store(None);
    let r = c.apply_batch(1, &vec![[0u8; 32]], &Vec::new());
    assert!(r.is_ok());
    assert_eq!(c.tip_height, 1);
    // HASH256(0x00 x 32 || 0x00 x 32), bit-exact against the reference.
    assert_eq!(c.tip_hash, reference_step([0u8; 32], [0u8; 32]));
}

#[test]
fn empty_batch_is_a_noop_regardless_of_start() {
    let mut c = CfHeaderChain::new_from_store(Some((5, [1u8; 32])));
    for start in [0u32, 1, 6, 1000] {
        let r = c.apply_batch(start, &Vec::new(), &Vec::new());
        assert!(r.is_ok());
        assert_eq!(c.tip_height, 5);
        assert_eq!(c.tip_hash, [1u8; 32]);
    }
}

#[test]
fn start_zero_on_fresh_chain_is_a_start_mismatch() {
    let mut c = CfHeaderChain::new_from_store(None);
    let r = c.apply_batch(0, &vec![[9u8; 32]], &Vec::new());
    assert_eq!(r, Err(ChainError::BatchStartMismatch { got: 0, expected: 1 }));
    assert_eq!(c.tip_height, 0);
}

#[test]
fn gap_in_heights_is_a_start_mismatch() {
    let mut c = CfHeaderChain::new_from_store(Some((7, [1u8; 32])));
    let r = c.apply_batch(9, &vec![[9u8; 32]], &Vec::new());
    assert_eq!(r, Err(ChainError::BatchStartMismatch { got: 9, expected: 8 }));
    assert_eq!(c.tip_height, 7);
    assert_eq!(c.tip_hash, [1u8; 32]);
}

#[test]
fn batches_cover_heights_contiguously() {
    let mut c = CfHeaderChain::new_from_store(None);
    assert!(c.apply_batch(1, &vec![[1u8; 32], [2u8; 32]], &Vec::new()).is_ok());
    assert_eq!(c.tip_height, 2);
    assert!(c.apply_batch(3, &vec![[3u8; 32], [4u8; 32], [5u8; 32]], &Vec::new()).is_ok());
    assert_eq!(c.tip_height, 5);
    // The folded hash equals the reference recurrence over all five digests.
    let mut expect = [0u8; 32];
    for d in [[1u8; 32], [2u8; 32], [3u8; 32], [4u8; 32], [5u8; 32]] {
        expect = reference_step(expect, d);
    }
    assert_eq!(c.tip_hash, expect);
}

#[test]
fn checkpoint_pass_advances_to_batch_end() {
    let f1 = [0xabu8; 32];
    let f2 = [0xcdu8; 32];
    let h1 = reference_step([0u8; 32], f1);
    let h2 = reference_step(h1, f2);
    let mut c = CfHeaderChain::new_from_store(None);
    let r = c.apply_batch(1, &vec![f1, f2], &vec![(2, h2)]);
    assert!(r.is_ok());
    assert_eq!(c.tip_height, 2);
    assert_eq!(c.tip_hash, h2);
}

#[test]
fn checkpoint_fail_reports_height_and_stops_short() {
    let f1 = [0xabu8; 32];
    let f2 = [0xcdu8; 32];
    let h1 = reference_step([0u8; 32], f1);
    let h2 = reference_step(h1, f2);
    let mut wrong = h2;
    wrong[0] ^= 0x01;
    let mut c = CfHeaderChain::new_from_store(None);
    let r = c.apply_batch(1, &vec![f1, f2], &vec![(2, wrong)]);
    assert_eq!(r, Err(ChainError::CheckpointMismatch { height: 2 }));
    // The tip did not advance to the rejected height.
    assert_eq!(c.tip_height, 1);
    assert_eq!(c.tip_hash, h1);
}

#[test]
fn checkpoint_outside_batch_contributes_nothing() {
    let mut c = CfHeaderChain::new_from_store(None);
    let r = c.apply_batch(1, &vec![[1u8; 32]], &vec![(5, [0xffu8; 32])]);
    assert!(r.is_ok());
    assert_eq!(c.tip_height, 1);
}

#[test]
fn one_by_one_equals_single_batch() {
    let digests = [[10u8; 32], [20u8; 32], [30u8; 32], [40u8; 32], [50u8; 32]];

    let mut whole = CfHeaderChain::new_from_store(None);
    assert!(whole.apply_batch(1, &digests.to_vec(), &Vec::new()).is_ok());

    let mut singly = CfHeaderChain::new_from_store(None);
    for (i, d) in digests.iter().enumerate() {
        assert!(singly.apply_batch(1 + i as u32, &vec![*d], &Vec::new()).is_ok());
    }

    assert_eq!(whole.tip_height, singly.tip_height);
    assert_eq!(whole.tip_hash, singly.tip_hash);
}

#[test]
fn shipped_checkpoint_lists_are_empty() {
    assert!(mainnet_checkpoints().is_empty());
    assert!(testnet_checkpoints().is_empty());
    assert!(signet_checkpoints().is_empty());
}
