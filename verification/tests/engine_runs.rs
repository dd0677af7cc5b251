use bitcoin::bip158::{BlockFilter, Error as BfError};
use bitcoin::block::{Header as BlockHeader, Version as BlockVersion};
use bitcoin::hash_types::TxMerkleNode;
use bitcoin::hashes::Hash as _;
use bitcoin::pow::CompactTarget;
use bitcoin::{
    Amount, Block, BlockHash, OutPoint, ScriptBuf, Sequence, Transaction, TxIn, TxOut, Txid,
    WPubkeyHash, Witness,
};
use niebla_158::cfheaders::ChainError;
use niebla_158::engine::{Action, Event, SyncError, SyncSession, SyncState};
use niebla_158::filter_source::CfHeadersBatch;

fn reference_step(prev: [u8; 32], digest: [u8; 32]) -> [u8; 32] {
    let mut data = Vec::with_capacity(64);
    data.extend_from_slice(&prev);
    data.extend_from_slice(&digest);
    bitcoin::hashes::sha256d::Hash::hash(&data).to_byte_array()
}

fn make_block_with_output(watch_script: &ScriptBuf) -> Block {
    let coinbase_in = TxIn {
        previous_output: OutPoint { txid: Txid::from_byte_array([0u8; 32]), vout: u32::MAX },
        script_sig: ScriptBuf::new(),
        sequence: Sequence::MAX,
        witness: Witness::new(),
    };
    let out = TxOut { value: Amount::from_sat(50_000), script_pubkey: watch_script.clone() };
    let tx = Transaction {
        version: bitcoin::transaction::Version::TWO,
        lock_time: bitcoin::absolute::LockTime::ZERO,
        input: vec![coinbase_in],
        output: vec![out],
    };
    let header = BlockHeader {
        version: BlockVersion::from_consensus(2),
        prev_blockhash: BlockHash::all_zeros(),
        merkle_root: TxMerkleNode::all_zeros(),
        time: 0,
        bits: CompactTarget::from_consensus(0x207fffff),
        nonce: 0,
    };
    Block { header, txdata: vec![tx] }
}

#[test]
fn empty_catchup_run_touches_nothing() {
    // Chain tip 0, empty store, empty watchlist: the run only reads the
    // stored state, fast-forwards last-scanned to 0, and finishes.
    let s = SyncSession::new(Vec::new());
    let (s, a) = s.step(Event::CfTipLoaded(None));
    assert!(matches!(a, Action::QueryChainTip));
    let (s, a) = s.step(Event::ChainTipIs(0));
    assert!(matches!(a, Action::QueryLastScanned));
    let (s, a) = s.step(Event::LastScannedIs(0));
    assert!(matches!(a, Action::QueryWatchlist));
    let (s, a) = s.step(Event::WatchlistIs(Vec::new()));
    assert!(matches!(a, Action::PersistScanned { height: 0 }));
    let (s, a) = s.step(Event::ScanSaved);
    assert!(matches!(a, Action::Finished));
    assert!(matches!(s.state, SyncState::Done));
}

#[test]
fn hit_flow_delivers_block_before_persisting() {
    // One block at height 1 whose compact filter contains the watched
    // script; the wallet is notified once, before the height is persisted.
    let wpkh = WPubkeyHash::from_byte_array([7u8; 20]);
    let watch_script = ScriptBuf::new_p2wpkh(&wpkh);
    let block = make_block_with_output(&watch_script);
    let bh = block.block_hash().to_byte_array();
    let block_bytes = bitcoin::consensus::encode::serialize(&block);
    let bf = BlockFilter::new_script_filter(&block, |_op: &OutPoint| -> Result<ScriptBuf, BfError> {
        Ok(ScriptBuf::new())
    })
    .expect("filter construction");
    let filter_bytes = bf.content.clone();
    let digest = [0u8; 32];
    let h1 = reference_step([0u8; 32], digest);

    let s = SyncSession::new(Vec::new());
    let (s, a) = s.step(Event::CfTipLoaded(None));
    assert!(matches!(a, Action::QueryChainTip));
    let (s, a) = s.step(Event::ChainTipIs(1));
    assert!(matches!(a, Action::QueryBlockHash(1)));
    let (s, a) = s.step(Event::BlockHashIs(bh));
    match a {
        Action::FetchCfHeaders { start_height, stop_hash } => {
            assert_eq!(start_height, 1);
            assert_eq!(stop_hash, bh);
        },
        other => panic!("expected a cfheaders fetch, got {:?}", other),
    }
    let (s, a) = s.step(Event::CfHeadersBatchIs(CfHeadersBatch {
        start_height: 1,
        headers: vec![digest],
    }));
    match a {
        Action::SaveCfTip { height, hash } => {
            assert_eq!(height, 1);
            assert_eq!(hash, h1);
        },
        other => panic!("expected a tip save, got {:?}", other),
    }
    let (s, a) = s.step(Event::CfTipSaved);
    assert!(matches!(a, Action::QueryLastScanned));
    let (s, a) = s.step(Event::LastScannedIs(0));
    assert!(matches!(a, Action::QueryWatchlist));
    let (s, a) = s.step(Event::WatchlistIs(vec![watch_script.as_bytes().to_vec()]));
    assert!(matches!(a, Action::QueryBlockHash(1)));
    let (s, a) = s.step(Event::BlockHashIs(bh));
    assert!(matches!(a, Action::FetchFilter { height: 1, .. }));
    let (s, a) = s.step(Event::FilterIs(filter_bytes));
    assert!(matches!(a, Action::FetchBlock { height: 1, .. }));
    let (s, a) = s.step(Event::BlockIs(block_bytes));
    match a {
        Action::NotifyMatch { height, block_hash, txs } => {
            assert_eq!(height, 1);
            assert_eq!(block_hash, bh);
            assert_eq!(txs.len(), 1);
        },
        other => panic!("expected one matching block, got {:?}", other),
    }
    let (s, a) = s.step(Event::MatchDelivered);
    assert!(matches!(a, Action::PersistScanned { height: 1 }));
    let (s, a) = s.step(Event::ScanSaved);
    assert!(matches!(a, Action::Finished));
    assert!(matches!(s.state, SyncState::Done));
}

#[test]
fn rerun_after_completed_sync_fetches_nothing() {
    // Same store state as after the hit flow: tip (1, H1), last scanned 1.
    let h1 = reference_step([0u8; 32], [0u8; 32]);
    let s = SyncSession::new(Vec::new());
    let (s, a) = s.step(Event::CfTipLoaded(Some((1, h1))));
    assert!(matches!(a, Action::QueryChainTip));
    let (s, a) = s.step(Event::ChainTipIs(1));
    assert!(matches!(a, Action::QueryLastScanned));
    let (s, a) = s.step(Event::LastScannedIs(1));
    assert!(matches!(a, Action::QueryWatchlist));
    let (s, a) = s.step(Event::WatchlistIs(vec![vec![0x51u8]]));
    assert!(matches!(a, Action::Finished));
    assert!(matches!(s.state, SyncState::Done));
}

#[test]
fn missed_filter_persists_and_moves_on() {
    let h1 = reference_step([0u8; 32], [0u8; 32]);
    let s = SyncSession::new(Vec::new());
    let (s, _) = s.step(Event::CfTipLoaded(Some((2, [4u8; 32]))));
    let (s, a) = s.step(Event::ChainTipIs(2));
    assert!(matches!(a, Action::QueryLastScanned));
    let (s, a) = s.step(Event::LastScannedIs(0));
    assert!(matches!(a, Action::QueryWatchlist));
    let (s, a) = s.step(Event::WatchlistIs(vec![vec![0x51u8]]));
    assert!(matches!(a, Action::QueryBlockHash(1)));
    let (s, a) = s.step(Event::BlockHashIs(h1));
    assert!(matches!(a, Action::FetchFilter { height: 1, .. }));
    // An empty filter matches nothing: the height is persisted, no block
    // is fetched.
    let (s, a) = s.step(Event::FilterIs(Vec::new()));
    assert!(matches!(a, Action::PersistScanned { height: 1 }));
    let (_, a) = s.step(Event::ScanSaved);
    assert!(matches!(a, Action::QueryBlockHash(2)));
}

#[test]
fn batch_windows_straddle_the_batch_size() {
    // chain tip 2500: the first window stops at 2000, the second at 2500.
    let s = SyncSession::new(Vec::new());
    let (s, _) = s.step(Event::CfTipLoaded(None));
    let (s, a) = s.step(Event::ChainTipIs(2500));
    assert!(matches!(a, Action::QueryBlockHash(2000)));
    let (s, a) = s.step(Event::BlockHashIs([1u8; 32]));
    assert!(matches!(a, Action::FetchCfHeaders { start_height: 1, .. }));
    let (s, a) = s.step(Event::CfHeadersBatchIs(CfHeadersBatch {
        start_height: 1,
        headers: vec![[0u8; 32]; 2000],
    }));
    assert!(matches!(a, Action::SaveCfTip { height: 2000, .. }));
    let (s, a) = s.step(Event::CfTipSaved);
    assert!(matches!(a, Action::QueryBlockHash(2500)));
    let (s, a) = s.step(Event::BlockHashIs([2u8; 32]));
    assert!(matches!(a, Action::FetchCfHeaders { start_height: 2001, .. }));
    let (s, a) = s.step(Event::CfHeadersBatchIs(CfHeadersBatch {
        start_height: 2001,
        headers: vec![[0u8; 32]; 500],
    }));
    assert!(matches!(a, Action::SaveCfTip { height: 2500, .. }));
    let (_, a) = s.step(Event::CfTipSaved);
    assert!(matches!(a, Action::QueryLastScanned));
}

#[test]
fn short_batches_from_the_source_are_accepted() {
    // The source may return fewer headers than the window asked for; the
    // engine simply asks again from the new tip.
    let s = SyncSession::new(Vec::new());
    let (s, _) = s.step(Event::CfTipLoaded(None));
    let (s, a) = s.step(Event::ChainTipIs(10));
    assert!(matches!(a, Action::QueryBlockHash(10)));
    let (s, _) = s.step(Event::BlockHashIs([1u8; 32]));
    let (s, a) = s.step(Event::CfHeadersBatchIs(CfHeadersBatch {
        start_height: 1,
        headers: vec![[0u8; 32]; 4],
    }));
    assert!(matches!(a, Action::SaveCfTip { height: 4, .. }));
    let (_, a) = s.step(Event::CfTipSaved);
    assert!(matches!(a, Action::QueryBlockHash(10)));
}

#[test]
fn non_contiguous_batch_aborts_the_run() {
    let s = SyncSession::new(Vec::new());
    let (s, _) = s.step(Event::CfTipLoaded(None));
    let (s, _) = s.step(Event::ChainTipIs(5));
    let (s, _) = s.step(Event::BlockHashIs([1u8; 32]));
    let (s, a) = s.step(Event::CfHeadersBatchIs(CfHeadersBatch {
        start_height: 3,
        headers: vec![[0u8; 32]],
    }));
    match a {
        Action::Abort(SyncError::Chain(e)) => {
            assert_eq!(e, ChainError::BatchStartMismatch { got: 3, expected: 1 });
        },
        other => panic!("expected an abort, got {:?}", other),
    }
    assert!(matches!(s.state, SyncState::Failed));
}

#[test]
fn checkpoint_mismatch_aborts_the_run() {
    let f1 = [0xabu8; 32];
    let h1 = reference_step([0u8; 32], f1);
    let mut wrong = h1;
    wrong[3] ^= 0x40;
    let s = SyncSession::new(vec![(1, wrong)]);
    let (s, _) = s.step(Event::CfTipLoaded(None));
    let (s, _) = s.step(Event::ChainTipIs(1));
    let (s, _) = s.step(Event::BlockHashIs([1u8; 32]));
    let (s, a) = s.step(Event::CfHeadersBatchIs(CfHeadersBatch {
        start_height: 1,
        headers: vec![f1],
    }));
    match a {
        Action::Abort(SyncError::Chain(e)) => {
            assert_eq!(e, ChainError::CheckpointMismatch { height: 1 });
        },
        other => panic!("expected an abort, got {:?}", other),
    }
    assert!(matches!(s.state, SyncState::Failed));
}

#[test]
fn malformed_filter_aborts_the_run() {
    let s = SyncSession::new(Vec::new());
    let (s, _) = s.step(Event::CfTipLoaded(Some((1, [4u8; 32]))));
    let (s, _) = s.step(Event::ChainTipIs(1));
    let (s, _) = s.step(Event::LastScannedIs(0));
    let (s, _) = s.step(Event::WatchlistIs(vec![vec![0x51u8]]));
    let (s, _) = s.step(Event::BlockHashIs([9u8; 32]));
    let (s, a) = s.step(Event::FilterIs(vec![0x01u8]));
    assert!(matches!(a, Action::Abort(SyncError::Filter { height: 1 })));
    assert!(matches!(s.state, SyncState::Failed));
}

#[test]
fn undecodable_block_aborts_the_run() {
    let wpkh = WPubkeyHash::from_byte_array([7u8; 20]);
    let watch_script = ScriptBuf::new_p2wpkh(&wpkh);
    let block = make_block_with_output(&watch_script);
    let bh = block.block_hash().to_byte_array();
    let bf = BlockFilter::new_script_filter(&block, |_op: &OutPoint| -> Result<ScriptBuf, BfError> {
        Ok(ScriptBuf::new())
    })
    .expect("filter construction");

    let s = SyncSession::new(Vec::new());
    let (s, _) = s.step(Event::CfTipLoaded(Some((1, [4u8; 32]))));
    let (s, _) = s.step(Event::ChainTipIs(1));
    let (s, _) = s.step(Event::LastScannedIs(0));
    let (s, _) = s.step(Event::WatchlistIs(vec![watch_script.as_bytes().to_vec()]));
    let (s, _) = s.step(Event::BlockHashIs(bh));
    let (s, a) = s.step(Event::FilterIs(bf.content.clone()));
    assert!(matches!(a, Action::FetchBlock { height: 1, .. }));
    let (s, a) = s.step(Event::BlockIs(vec![0x00u8, 0x01]));
    assert!(matches!(a, Action::Abort(SyncError::Decode { height: 1 })));
    assert!(matches!(s.state, SyncState::Failed));
}

#[test]
fn fast_forward_skips_every_height_when_watchlist_is_empty() {
    let s = SyncSession::new(Vec::new());
    let (s, _) = s.step(Event::CfTipLoaded(Some((42, [4u8; 32]))));
    let (s, a) = s.step(Event::ChainTipIs(42));
    assert!(matches!(a, Action::QueryLastScanned));
    let (s, a) = s.step(Event::LastScannedIs(7));
    assert!(matches!(a, Action::QueryWatchlist));
    let (s, a) = s.step(Event::WatchlistIs(Vec::new()));
    assert!(matches!(a, Action::PersistScanned { height: 42 }));
    let (s, a) = s.step(Event::ScanSaved);
    assert!(matches!(a, Action::Finished));
    assert!(matches!(s.state, SyncState::Done));
}

#[test]
fn unexpected_event_fails_the_session() {
    let s = SyncSession::new(Vec::new());
    let (s, a) = s.step(Event::ChainTipIs(5));
    assert!(matches!(a, Action::Abort(SyncError::UnexpectedEvent)));
    assert!(matches!(s.state, SyncState::Failed));
}
