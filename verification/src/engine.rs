//! The sync orchestrator as a pure state machine.
//!
//! A run drives two phases: filter-header catch-up (fetch a cfheaders
//! batch, fold it into the chain, persist the tip, repeat until the tip
//! reaches the chain tip) and the filter scan (fetch each block's filter,
//! match it against the watchlist, on a hit fetch and decode the block and
//! notify the wallet, then persist the scanned height).
//!
//! Every collaborator call suspends, so the machine is driven from
//! outside: `step` consumes the answer to the previous [`Action`] as an
//! [`Event`] and says what to do next. The driver performs the action
//! (store read or write, header query, network fetch, wallet callback)
//! and feeds the answer back. All decisions live here and are verified;
//! the driver only moves bytes.
use vstd::prelude::*;
use crate::cfheaders::{
    apply_model, batch_entry_ok, initial_chain, lemma_violation_from,
    lemma_violation_from_at_least, CfHeaderChain, ChainError,
};
use crate::filter_source::CfHeadersBatch;
use crate::hashes::{fold_headers, lemma_fold_headers_append};
use crate::matcher::{filter_matches_any, match_verdict};
use crate::blockio::{decode_block_txs, decoded_block_txs};

verus! {

/// How many cfheaders to advance per request window.
pub const BATCH_SIZE: u32 = 2000;

/// An error that aborts the run.
#[derive(Debug)]
pub enum SyncError {
    /// The filter-header chain rejected a batch.
    Chain(ChainError),
    /// The block fetched for `height` did not parse.
    Decode { height: u32 },
    /// The filter content fetched for `height` could not be read.
    Filter { height: u32 },
    /// The driver handed the session an event it was not awaiting.
    UnexpectedEvent,
}

/// What the session awaits; the payload is the progress made so far.
pub enum SyncState {
    /// Awaiting the persisted cf-tip from the store.
    AwaitCfTip,
    /// Awaiting the best header height.
    AwaitChainTip { chain: CfHeaderChain },
    /// Awaiting the block hash at the batch window's stop height.
    AwaitStopHash { chain: CfHeaderChain, chain_tip: u32, next: u32 },
    /// Awaiting the cfheaders batch starting at `next`.
    AwaitBatch { chain: CfHeaderChain, chain_tip: u32 },
    /// Awaiting the store's acknowledgement of the saved cf-tip.
    AwaitTipSaved { chain: CfHeaderChain, chain_tip: u32 },
    /// Awaiting the persisted last-scanned height; `end` is where the
    /// catch-up phase left the verified tip.
    AwaitLastScanned { end: u32 },
    /// Awaiting the wallet's watchlist.
    AwaitWatchlist { end: u32, last: u32 },
    /// Awaiting the block hash at the next height to scan.
    AwaitScanHash { end: u32, watch: Vec<Vec<u8>>, height: u32 },
    /// Awaiting the compact filter of the block at `height`.
    AwaitFilter { end: u32, watch: Vec<Vec<u8>>, height: u32, block_hash: [u8; 32] },
    /// Awaiting the raw block after a filter hit at `height`.
    AwaitBlock { end: u32, watch: Vec<Vec<u8>>, height: u32, block_hash: [u8; 32] },
    /// Awaiting the wallet's acknowledgement of the delivered match.
    AwaitMatchAck { end: u32, watch: Vec<Vec<u8>>, height: u32 },
    /// Awaiting the store's acknowledgement of the scanned height.
    AwaitScanSaved { end: u32, watch: Vec<Vec<u8>>, height: u32 },
    /// Awaiting the store's acknowledgement of the fast-forwarded
    /// last-scanned height (the watchlist was empty).
    AwaitFastForwardSaved,
    /// The run finished.
    Done,
    /// The run aborted.
    Failed,
}

/// A collaborator's answer to the previous action.
pub enum Event {
    /// The persisted cf-tip, from the store.
    CfTipLoaded(Option<(u32, [u8; 32])>),
    /// The best header height.
    ChainTipIs(u32),
    /// The block hash asked for.
    BlockHashIs([u8; 32]),
    /// The cfheaders batch asked for.
    CfHeadersBatchIs(CfHeadersBatch),
    /// The cf-tip was durably saved.
    CfTipSaved,
    /// The persisted last-scanned height.
    LastScannedIs(u32),
    /// The wallet's watchlist of script byte-strings.
    WatchlistIs(Vec<Vec<u8>>),
    /// The compact filter asked for.
    FilterIs(Vec<u8>),
    /// The raw block asked for.
    BlockIs(Vec<u8>),
    /// The wallet finished handling the delivered match.
    MatchDelivered,
    /// The last-scanned height was durably saved.
    ScanSaved,
}

/// What the driver must do next.
#[derive(Debug)]
pub enum Action {
    /// Ask the header source for its tip height.
    QueryChainTip,
    /// Ask the header source for the hash at this height.
    QueryBlockHash(u32),
    /// Fetch a cfheaders batch from the filter source.
    FetchCfHeaders { start_height: u32, stop_hash: [u8; 32] },
    /// Persist the verified cf-tip.
    SaveCfTip { height: u32, hash: [u8; 32] },
    /// Read the persisted last-scanned height.
    QueryLastScanned,
    /// Ask the wallet for its watchlist.
    QueryWatchlist,
    /// Fetch the compact filter of the block at `height`.
    FetchFilter { height: u32, block_hash: [u8; 32] },
    /// Fetch the raw block at `height` after a filter hit.
    FetchBlock { height: u32, block_hash: [u8; 32] },
    /// Deliver the decoded transactions of the matching block, in block
    /// order, before the height is persisted as scanned.
    NotifyMatch { height: u32, block_hash: [u8; 32], txs: Vec<bitcoin::Transaction> },
    /// Persist `height` as the last scanned height.
    PersistScanned { height: u32 },
    /// The run is complete.
    Finished,
    /// The run aborted with this error.
    Abort(SyncError),
}

/// A sync run: the state of the two-phase machine plus the checkpoint
/// list, which is immutable for the duration of the run.
pub struct SyncSession {
    /// What the session awaits.
    pub state: SyncState,
    /// Pinned `(height, rolling hash)` checkpoints.
    pub checkpoints: Vec<(u32, [u8; 32])>,
}

/// The reaction to an event the session was not awaiting.
pub open spec fn rejected_model(cps: Vec<(u32, [u8; 32])>) -> (SyncSession, Action) {
    (
        SyncSession { state: SyncState::Failed, checkpoints: cps },
        Action::Abort(SyncError::UnexpectedEvent),
    )
}

/// The stop height of the next batch window: `BATCH_SIZE` heights from
/// `next`, clipped to the chain tip.
pub open spec fn stop_height(next: u32, chain_tip: u32) -> u32 {
    let cap = if next as int + (BATCH_SIZE - 1) as int <= u32::MAX as int {
        (next + (BATCH_SIZE - 1)) as u32
    } else {
        u32::MAX
    };
    if cap <= chain_tip {
        cap
    } else {
        chain_tip
    }
}

/// The catch-up decision: while the verified tip is short of the chain
/// tip, request the hash at the next window's stop height; once caught
/// up, move to the scan phase by reading the last scanned height.
pub open spec fn catchup_model(
    cps: Vec<(u32, [u8; 32])>,
    chain: CfHeaderChain,
    chain_tip: u32,
) -> (SyncSession, Action) {
    if chain.tip_height < chain_tip {
        let next = (chain.tip_height + 1) as u32;
        (
            SyncSession {
                state: SyncState::AwaitStopHash { chain, chain_tip, next },
                checkpoints: cps,
            },
            Action::QueryBlockHash(stop_height(next, chain_tip)),
        )
    } else {
        (
            SyncSession {
                state: SyncState::AwaitLastScanned { end: chain.tip_height },
                checkpoints: cps,
            },
            Action::QueryLastScanned,
        )
    }
}

/// The scan decision: with heights `last + 1 ..= end` still unscanned,
/// request the next block hash; otherwise the run is complete.
pub open spec fn scan_model(
    cps: Vec<(u32, [u8; 32])>,
    end: u32,
    watch: Vec<Vec<u8>>,
    last: u32,
) -> (SyncSession, Action) {
    if last < end {
        let h = (last + 1) as u32;
        (
            SyncSession {
                state: SyncState::AwaitScanHash { end, watch, height: h },
                checkpoints: cps,
            },
            Action::QueryBlockHash(h),
        )
    } else {
        (SyncSession { state: SyncState::Done, checkpoints: cps }, Action::Finished)
    }
}

/// The transition relation of the machine, one event at a time: the next
/// session and the action the driver must perform.
pub open spec fn next_model(pre: SyncSession, ev: Event) -> (SyncSession, Action) {
    let cps = pre.checkpoints;
    match pre.state {
        SyncState::AwaitCfTip => match ev {
            Event::CfTipLoaded(prev) => (
                SyncSession {
                    state: SyncState::AwaitChainTip { chain: initial_chain(prev) },
                    checkpoints: cps,
                },
                Action::QueryChainTip,
            ),
            _ => rejected_model(cps),
        },
        SyncState::AwaitChainTip { chain } => match ev {
            Event::ChainTipIs(ct) => catchup_model(cps, chain, ct),
            _ => rejected_model(cps),
        },
        SyncState::AwaitStopHash { chain, chain_tip, next } => match ev {
            Event::BlockHashIs(h) => (
                SyncSession {
                    state: SyncState::AwaitBatch { chain, chain_tip },
                    checkpoints: cps,
                },
                Action::FetchCfHeaders { start_height: next, stop_hash: h },
            ),
            _ => rejected_model(cps),
        },
        SyncState::AwaitBatch { chain, chain_tip } => match ev {
            Event::CfHeadersBatchIs(batch) => {
                let outcome = apply_model(chain, batch.start_height, batch.headers@, cps@);
                match outcome.1 {
                    Ok(_) => (
                        SyncSession {
                            state: SyncState::AwaitTipSaved { chain: outcome.0, chain_tip },
                            checkpoints: cps,
                        },
                        Action::SaveCfTip {
                            height: outcome.0.tip_height,
                            hash: outcome.0.tip_hash,
                        },
                    ),
                    Err(e) => (
                        SyncSession { state: SyncState::Failed, checkpoints: cps },
                        Action::Abort(SyncError::Chain(e)),
                    ),
                }
            },
            _ => rejected_model(cps),
        },
        SyncState::AwaitTipSaved { chain, chain_tip } => match ev {
            Event::CfTipSaved => catchup_model(cps, chain, chain_tip),
            _ => rejected_model(cps),
        },
        SyncState::AwaitLastScanned { end } => match ev {
            Event::LastScannedIs(last) => (
                SyncSession {
                    state: SyncState::AwaitWatchlist { end, last },
                    checkpoints: cps,
                },
                Action::QueryWatchlist,
            ),
            _ => rejected_model(cps),
        },
        SyncState::AwaitWatchlist { end, last } => match ev {
            Event::WatchlistIs(watch) => if watch@.len() == 0 {
                (
                    SyncSession { state: SyncState::AwaitFastForwardSaved, checkpoints: cps },
                    Action::PersistScanned { height: end },
                )
            } else {
                scan_model(cps, end, watch, last)
            },
            _ => rejected_model(cps),
        },
        SyncState::AwaitScanHash { end, watch, height } => match ev {
            Event::BlockHashIs(bh) => (
                SyncSession {
                    state: SyncState::AwaitFilter { end, watch, height, block_hash: bh },
                    checkpoints: cps,
                },
                Action::FetchFilter { height, block_hash: bh },
            ),
            _ => rejected_model(cps),
        },
        SyncState::AwaitFilter { end, watch, height, block_hash } => match ev {
            Event::FilterIs(raw) => match match_verdict(block_hash, raw@, watch.deep_view()) {
                None => (
                    SyncSession { state: SyncState::Failed, checkpoints: cps },
                    Action::Abort(SyncError::Filter { height }),
                ),
                Some(true) => (
                    SyncSession {
                        state: SyncState::AwaitBlock { end, watch, height, block_hash },
                        checkpoints: cps,
                    },
                    Action::FetchBlock { height, block_hash },
                ),
                Some(false) => (
                    SyncSession {
                        state: SyncState::AwaitScanSaved { end, watch, height },
                        checkpoints: cps,
                    },
                    Action::PersistScanned { height },
                ),
            },
            _ => rejected_model(cps),
        },
        SyncState::AwaitBlock { end, watch, height, block_hash } => match ev {
            Event::BlockIs(raw) => match decoded_block_txs(raw@) {
                None => (
                    SyncSession { state: SyncState::Failed, checkpoints: cps },
                    Action::Abort(SyncError::Decode { height }),
                ),
                Some(txs) => (
                    SyncSession {
                        state: SyncState::AwaitMatchAck { end, watch, height },
                        checkpoints: cps,
                    },
                    Action::NotifyMatch { height, block_hash, txs },
                ),
            },
            _ => rejected_model(cps),
        },
        SyncState::AwaitMatchAck { end, watch, height } => match ev {
            Event::MatchDelivered => (
                SyncSession {
                    state: SyncState::AwaitScanSaved { end, watch, height },
                    checkpoints: cps,
                },
                Action::PersistScanned { height },
            ),
            _ => rejected_model(cps),
        },
        SyncState::AwaitScanSaved { end, watch, height } => match ev {
            Event::ScanSaved => scan_model(cps, end, watch, height),
            _ => rejected_model(cps),
        },
        SyncState::AwaitFastForwardSaved => match ev {
            Event::ScanSaved => (
                SyncSession { state: SyncState::Done, checkpoints: cps },
                Action::Finished,
            ),
            _ => rejected_model(cps),
        },
        SyncState::Done => rejected_model(cps),
        SyncState::Failed => rejected_model(cps),
    }
}

/// The reaction to an event the session was not awaiting.
fn reject(checkpoints: Vec<(u32, [u8; 32])>) -> (r: (SyncSession, Action))
    ensures
        r == rejected_model(checkpoints),
{
    (
        SyncSession { state: SyncState::Failed, checkpoints },
        Action::Abort(SyncError::UnexpectedEvent),
    )
}

/// The stop height of the next batch window.
fn stop_height_exec(next: u32, chain_tip: u32) -> (r: u32)
    ensures
        r == stop_height(next, chain_tip),
{
    let cap = if next <= u32::MAX - (BATCH_SIZE - 1) {
        next + (BATCH_SIZE - 1)
    } else {
        u32::MAX
    };
    if cap <= chain_tip {
        cap
    } else {
        chain_tip
    }
}

/// The catch-up decision.
fn catchup_decide(
    checkpoints: Vec<(u32, [u8; 32])>,
    chain: CfHeaderChain,
    chain_tip: u32,
) -> (r: (SyncSession, Action))
    ensures
        r == catchup_model(checkpoints, chain, chain_tip),
{
    if chain.tip_height < chain_tip {
        let next = chain.tip_height + 1;
        let stop = stop_height_exec(next, chain_tip);
        (
            SyncSession {
                state: SyncState::AwaitStopHash { chain, chain_tip, next },
                checkpoints,
            },
            Action::QueryBlockHash(stop),
        )
    } else {
        (
            SyncSession {
                state: SyncState::AwaitLastScanned { end: chain.tip_height },
                checkpoints,
            },
            Action::QueryLastScanned,
        )
    }
}

/// The scan decision.
fn scan_decide(
    checkpoints: Vec<(u32, [u8; 32])>,
    end: u32,
    watch: Vec<Vec<u8>>,
    last: u32,
) -> (r: (SyncSession, Action))
    ensures
        r == scan_model(checkpoints, end, watch, last),
{
    if last < end {
        let h = last + 1;
        (
            SyncSession {
                state: SyncState::AwaitScanHash { end, watch, height: h },
                checkpoints,
            },
            Action::QueryBlockHash(h),
        )
    } else {
        (SyncSession { state: SyncState::Done, checkpoints }, Action::Finished)
    }
}

impl SyncSession {
    /// A fresh run: the session first awaits the persisted cf-tip, which
    /// the driver loads from the store.
    pub fn new(checkpoints: Vec<(u32, [u8; 32])>) -> (r: SyncSession)
        ensures
            r.state == SyncState::AwaitCfTip,
            r.checkpoints == checkpoints,
    {
        SyncSession { state: SyncState::AwaitCfTip, checkpoints }
    }

    /// Feeds the session the answer to the previous action and returns
    /// the advanced session together with the next action, exactly as the
    /// transition relation [`next_model`] prescribes.
    pub fn step(self, ev: Event) -> (r: (SyncSession, Action))
        ensures
            r == next_model(self, ev),
    {
        let SyncSession { state, checkpoints } = self;
        match state {
            SyncState::AwaitCfTip => match ev {
                Event::CfTipLoaded(prev) => (
                    SyncSession {
                        state: SyncState::AwaitChainTip {
                            chain: CfHeaderChain::new_from_store(prev),
                        },
                        checkpoints,
                    },
                    Action::QueryChainTip,
                ),
                _ => reject(checkpoints),
            },
            SyncState::AwaitChainTip { chain } => match ev {
                Event::ChainTipIs(ct) => catchup_decide(checkpoints, chain, ct),
                _ => reject(checkpoints),
            },
            SyncState::AwaitStopHash { chain, chain_tip, next } => match ev {
                Event::BlockHashIs(h) => (
                    SyncSession {
                        state: SyncState::AwaitBatch { chain, chain_tip },
                        checkpoints,
                    },
                    Action::FetchCfHeaders { start_height: next, stop_hash: h },
                ),
                _ => reject(checkpoints),
            },
            SyncState::AwaitBatch { chain, chain_tip } => match ev {
                Event::CfHeadersBatchIs(batch) => {
                    let mut advanced = chain;
                    let res = advanced.apply_batch(
                        batch.start_height,
                        &batch.headers,
                        &checkpoints,
                    );
                    match res {
                        Ok(()) => (
                            SyncSession {
                                state: SyncState::AwaitTipSaved { chain: advanced, chain_tip },
                                checkpoints,
                            },
                            Action::SaveCfTip {
                                height: advanced.tip_height,
                                hash: advanced.tip_hash,
                            },
                        ),
                        Err(e) => (
                            SyncSession { state: SyncState::Failed, checkpoints },
                            Action::Abort(SyncError::Chain(e)),
                        ),
                    }
                },
                _ => reject(checkpoints),
            },
            SyncState::AwaitTipSaved { chain, chain_tip } => match ev {
                Event::CfTipSaved => catchup_decide(checkpoints, chain, chain_tip),
                _ => reject(checkpoints),
            },
            SyncState::AwaitLastScanned { end } => match ev {
                Event::LastScannedIs(last) => (
                    SyncSession {
                        state: SyncState::AwaitWatchlist { end, last },
                        checkpoints,
                    },
                    Action::QueryWatchlist,
                ),
                _ => reject(checkpoints),
            },
            SyncState::AwaitWatchlist { end, last } => match ev {
                Event::WatchlistIs(watch) => {
                    if watch.len() == 0 {
                        (
                            SyncSession {
                                state: SyncState::AwaitFastForwardSaved,
                                checkpoints,
                            },
                            Action::PersistScanned { height: end },
                        )
                    } else {
                        scan_decide(checkpoints, end, watch, last)
                    }
                },
                _ => reject(checkpoints),
            },
            SyncState::AwaitScanHash { end, watch, height } => match ev {
                Event::BlockHashIs(bh) => (
                    SyncSession {
                        state: SyncState::AwaitFilter { end, watch, height, block_hash: bh },
                        checkpoints,
                    },
                    Action::FetchFilter { height, block_hash: bh },
                ),
                _ => reject(checkpoints),
            },
            SyncState::AwaitFilter { end, watch, height, block_hash } => match ev {
                Event::FilterIs(raw) => match filter_matches_any(&block_hash, &raw, &watch) {
                    Err(_) => (
                        SyncSession { state: SyncState::Failed, checkpoints },
                        Action::Abort(SyncError::Filter { height }),
                    ),
                    Ok(true) => (
                        SyncSession {
                            state: SyncState::AwaitBlock { end, watch, height, block_hash },
                            checkpoints,
                        },
                        Action::FetchBlock { height, block_hash },
                    ),
                    Ok(false) => (
                        SyncSession {
                            state: SyncState::AwaitScanSaved { end, watch, height },
                            checkpoints,
                        },
                        Action::PersistScanned { height },
                    ),
                },
                _ => reject(checkpoints),
            },
            SyncState::AwaitBlock { end, watch, height, block_hash } => match ev {
                Event::BlockIs(raw) => match decode_block_txs(&raw) {
                    None => (
                        SyncSession { state: SyncState::Failed, checkpoints },
                        Action::Abort(SyncError::Decode { height }),
                    ),
                    Some(txs) => (
                        SyncSession {
                            state: SyncState::AwaitMatchAck { end, watch, height },
                            checkpoints,
                        },
                        Action::NotifyMatch { height, block_hash, txs },
                    ),
                },
                _ => reject(checkpoints),
            },
            SyncState::AwaitMatchAck { end, watch, height } => match ev {
                Event::MatchDelivered => (
                    SyncSession {
                        state: SyncState::AwaitScanSaved { end, watch, height },
                        checkpoints,
                    },
                    Action::PersistScanned { height },
                ),
                _ => reject(checkpoints),
            },
            SyncState::AwaitScanSaved { end, watch, height } => match ev {
                Event::ScanSaved => scan_decide(checkpoints, end, watch, height),
                _ => reject(checkpoints),
            },
            SyncState::AwaitFastForwardSaved => match ev {
                Event::ScanSaved => (
                    SyncSession { state: SyncState::Done, checkpoints },
                    Action::Finished,
                ),
                _ => reject(checkpoints),
            },
            SyncState::Done => reject(checkpoints),
            SyncState::Failed => reject(checkpoints),
        }
    }
}

/// The height a match notification carries, if the action is one.
pub open spec fn notify_height(a: Action) -> Option<u32> {
    match a {
        Action::NotifyMatch { height, .. } => Some(height),
        _ => None,
    }
}

/// The height a scanned-persist carries, if the action is one.
pub open spec fn persist_height(a: Action) -> Option<u32> {
    match a {
        Action::PersistScanned { height } => Some(height),
        _ => None,
    }
}

/// A lower bound on the height of every match notification the session
/// can still emit.
pub open spec fn notify_floor(s: SyncState) -> int {
    match s {
        SyncState::AwaitScanHash { height, .. } => height as int,
        SyncState::AwaitFilter { height, .. } => height as int,
        SyncState::AwaitBlock { height, .. } => height as int,
        SyncState::AwaitMatchAck { height, .. } => height as int + 1,
        SyncState::AwaitScanSaved { height, .. } => height as int + 1,
        SyncState::AwaitFastForwardSaved => u32::MAX as int + 1,
        SyncState::Done => u32::MAX as int + 1,
        SyncState::Failed => u32::MAX as int + 1,
        _ => 0,
    }
}

/// A lower bound on the height of every scanned-persist the session can
/// still emit.
pub open spec fn persist_floor(s: SyncState) -> int {
    match s {
        SyncState::AwaitScanHash { height, .. } => height as int,
        SyncState::AwaitFilter { height, .. } => height as int,
        SyncState::AwaitBlock { height, .. } => height as int,
        SyncState::AwaitMatchAck { height, .. } => height as int,
        SyncState::AwaitScanSaved { height, .. } => height as int + 1,
        SyncState::AwaitFastForwardSaved => u32::MAX as int + 1,
        SyncState::Done => u32::MAX as int + 1,
        SyncState::Failed => u32::MAX as int + 1,
        _ => 0,
    }
}

/// The actions a run emits when the driver feeds it `evs`, in order.
pub open spec fn run_actions(s: SyncSession, evs: Seq<Event>) -> Seq<Action>
    decreases evs.len(),
{
    if evs.len() == 0 {
        Seq::empty()
    } else {
        let stepped = next_model(s, evs[0]);
        seq![stepped.1] + run_actions(stepped.0, evs.drop_first())
    }
}

/// The session a run reaches when the driver feeds it `evs`.
pub open spec fn run_state(s: SyncSession, evs: Seq<Event>) -> SyncSession
    decreases evs.len(),
{
    if evs.len() == 0 {
        s
    } else {
        run_state(next_model(s, evs[0]).0, evs.drop_first())
    }
}

/// How many full batch windows the catch-up needs from tip `t` to chain
/// tip `ct`: one per `BATCH_SIZE` heights, the last one shorter where the
/// distance is no exact multiple.
pub open spec fn windows_left(t: u32, ct: u32) -> int
    decreases ct - t,
{
    if t >= ct {
        0
    } else {
        1 + windows_left(
            if t as int + BATCH_SIZE as int <= ct as int {
                (t + BATCH_SIZE) as u32
            } else {
                ct
            },
            ct,
        )
    }
}

/// All the filter digests a conforming catch-up supplies, window after
/// window in order: every round's second event carries its batch.
pub open spec fn window_digests(evs: Seq<Event>) -> Seq<[u8; 32]>
    decreases evs.len(),
{
    if evs.len() < 3 {
        Seq::empty()
    } else {
        (match evs[1] {
            Event::CfHeadersBatchIs(b) => b.headers@,
            _ => Seq::empty(),
        }) + window_digests(evs.skip(3))
    }
}

/// A driver's answers for a full-window catch-up from `chain` to `ct`:
/// each round supplies some stop hash, then a batch that starts right
/// where the chain expects it, spans its whole window, and crosses no
/// disagreeing checkpoint, then the store's save acknowledgement — and
/// nothing after the tip has reached `ct`.
pub open spec fn full_window_events(
    cps: Seq<(u32, [u8; 32])>,
    chain: CfHeaderChain,
    ct: u32,
    evs: Seq<Event>,
) -> bool
    decreases evs.len(),
{
    if chain.tip_height >= ct {
        evs.len() == 0
    } else {
        &&& evs.len() >= 3
        &&& evs[0] matches Event::BlockHashIs(_)
        &&& evs[1] matches Event::CfHeadersBatchIs(b) && {
            let want = if chain.tip_height as int + BATCH_SIZE as int <= ct as int {
                BATCH_SIZE as int
            } else {
                ct - chain.tip_height
            };
            &&& b.start_height == chain.tip_height + 1
            &&& b.headers@.len() == want
            &&& forall|i: int| 0 <= i < b.headers@.len()
                ==> batch_entry_ok(chain.tip_hash, b.start_height, b.headers@, cps, i)
            &&& evs[2] matches Event::CfTipSaved
            &&& full_window_events(
                cps,
                apply_model(chain, b.start_height, b.headers@, cps).0,
                ct,
                evs.skip(3),
            )
        }
    }
}

/// A whole catch-up phase composed across its windows: entering the
/// catch-up decision with verified tip at most the chain tip and feeding
/// full-window answers, the run takes exactly `windows_left` rounds of
/// three events — so `windows_left` cfheaders requests, the last window
/// shorter where the distance straddles `BATCH_SIZE` — and ends awaiting
/// the last scanned height with `end == ct`; the round before, it
/// persisted the tip `ct` with the fold of every window's digests.
pub proof fn lemma_full_windows_reach_chain_tip(
    cps: Vec<(u32, [u8; 32])>,
    chain: CfHeaderChain,
    ct: u32,
    evs: Seq<Event>,
)
    requires
        chain.tip_height <= ct,
        full_window_events(cps@, chain, ct, evs),
    ensures
        ({
            let start = catchup_model(cps, chain, ct);
            let w = windows_left(chain.tip_height, ct);
            &&& evs.len() == 3 * w
            &&& run_state(start.0, evs).state == (SyncState::AwaitLastScanned { end: ct })
            &&& w == 0 ==> start.1 == Action::QueryLastScanned
            &&& w > 0 ==> run_actions(start.0, evs)[3 * w - 2] == (Action::SaveCfTip {
                height: ct,
                hash: fold_headers(chain.tip_hash, window_digests(evs)),
            })
        }),
    decreases evs.len(),
{
    let start = catchup_model(cps, chain, ct);
    if chain.tip_height < ct {
        let b = evs[1]->CfHeadersBatchIs_0;
        let hs = b.headers@;
        let n = hs.len() as int;
        let s1 = next_model(start.0, evs[0]);
        let s2 = next_model(s1.0, evs[1]);
        let s3 = next_model(s2.0, evs[2]);
        lemma_violation_from_at_least(chain.tip_hash, b.start_height, hs, cps@, 0, n);
        lemma_violation_from(chain.tip_hash, b.start_height, hs, cps@, 0);
        let chain2 = apply_model(chain, b.start_height, hs, cps@).0;
        assert(chain2.tip_height == if chain.tip_height as int + BATCH_SIZE as int <= ct as int {
            (chain.tip_height + BATCH_SIZE) as u32
        } else {
            ct
        });
        assert(s3 == catchup_model(cps, chain2, ct));
        lemma_full_windows_reach_chain_tip(cps, chain2, ct, evs.skip(3));
        let d1 = evs.drop_first();
        let d2 = d1.drop_first();
        let d3 = d2.drop_first();
        assert(d1[0] == evs[1]);
        assert(d2[0] == evs[2]);
        assert(d3 =~= evs.skip(3));
        let w = windows_left(chain.tip_height, ct);
        assert(w == 1 + windows_left(chain2.tip_height, ct));
        let rest = run_actions(s3.0, evs.skip(3));
        let acts = run_actions(start.0, evs);
        assert(run_state(start.0, evs) == run_state(s1.0, d1));
        assert(run_state(s1.0, d1) == run_state(s2.0, d2));
        assert(run_state(s2.0, d2) == run_state(s3.0, d3));
        assert(acts == seq![s1.1] + run_actions(s1.0, d1));
        assert(run_actions(s1.0, d1) == seq![s2.1] + run_actions(s2.0, d2));
        assert(run_actions(s2.0, d2) == seq![s3.1] + rest);
        lemma_fold_headers_append(chain.tip_hash, hs, window_digests(evs.skip(3)));
        if windows_left(chain2.tip_height, ct) == 0 {
            assert(window_digests(evs.skip(3)).len() == 0);
            assert(hs + window_digests(evs.skip(3)) =~= hs);
            assert(acts[1] == s2.1);
        } else {
            lemma_run_actions_len(s1.0, d1);
            lemma_run_actions_len(s2.0, d2);
            lemma_run_actions_len(s3.0, evs.skip(3));
            assert((seq![s1.1] + run_actions(s1.0, d1))[3 * w - 2]
                == run_actions(s1.0, d1)[3 * w - 3]);
            assert((seq![s2.1] + run_actions(s2.0, d2))[3 * w - 3]
                == run_actions(s2.0, d2)[3 * w - 4]);
            assert((seq![s3.1] + rest)[3 * w - 4] == rest[3 * (w - 1) - 2]);
        }
    }
}

/// A run emits exactly one action per event.
pub proof fn lemma_run_actions_len(s: SyncSession, evs: Seq<Event>)
    ensures
        run_actions(s, evs).len() == evs.len(),
    decreases evs.len(),
{
    if evs.len() > 0 {
        lemma_run_actions_len(next_model(s, evs[0]).0, evs.drop_first());
    }
}

/// One step keeps both height floors from falling, emits notifications
/// only at or above the notify floor, persists only at or above the
/// persist floor, and raises both floors past every height it notifies
/// or persists (the notify floor already past a height it only persists).
pub proof fn lemma_step_floors(pre: SyncSession, ev: Event)
    ensures
        ({
            let stepped = next_model(pre, ev);
            &&& notify_floor(stepped.0.state) >= notify_floor(pre.state)
            &&& persist_floor(stepped.0.state) >= persist_floor(pre.state)
            &&& notify_height(stepped.1) matches Some(h) ==> h as int >= notify_floor(pre.state)
                && notify_floor(stepped.0.state) > h as int
            &&& persist_height(stepped.1) matches Some(h) ==> h as int >= persist_floor(pre.state)
                && notify_floor(stepped.0.state) > h as int
                && persist_floor(stepped.0.state) > h as int
        }),
{
}

/// Scan order, over every event sequence a driver could feed a run: match
/// notifications carry strictly ascending heights, persisted scan heights
/// strictly ascend too, and once a height has been persisted as scanned,
/// no notification at or below it can follow — so a notification for a
/// height always precedes the persist of that height.
pub proof fn lemma_scan_order(s: SyncSession, evs: Seq<Event>)
    ensures
        ({
            let acts = run_actions(s, evs);
            &&& forall|i: int| 0 <= i < acts.len()
                && (notify_height(#[trigger] acts[i]) matches Some(_))
                ==> notify_height(acts[i]).unwrap() as int >= notify_floor(s.state)
            &&& forall|i: int| 0 <= i < acts.len()
                && (persist_height(#[trigger] acts[i]) matches Some(_))
                ==> persist_height(acts[i]).unwrap() as int >= persist_floor(s.state)
            &&& forall|i: int, j: int| 0 <= i < j < acts.len()
                && (notify_height(#[trigger] acts[i]) matches Some(_))
                && (notify_height(#[trigger] acts[j]) matches Some(_))
                ==> notify_height(acts[i]).unwrap() < notify_height(acts[j]).unwrap()
            &&& forall|i: int, j: int| 0 <= i < j < acts.len()
                && (persist_height(#[trigger] acts[i]) matches Some(_))
                && (persist_height(#[trigger] acts[j]) matches Some(_))
                ==> persist_height(acts[i]).unwrap() < persist_height(acts[j]).unwrap()
            &&& forall|i: int, j: int| 0 <= i < j < acts.len()
                && (persist_height(#[trigger] acts[i]) matches Some(_))
                && (notify_height(#[trigger] acts[j]) matches Some(_))
                ==> persist_height(acts[i]).unwrap() < notify_height(acts[j]).unwrap()
        }),
    decreases evs.len(),
{
    if evs.len() > 0 {
        let stepped = next_model(s, evs[0]);
        let rest = run_actions(stepped.0, evs.drop_first());
        let acts = run_actions(s, evs);
        lemma_step_floors(s, evs[0]);
        lemma_scan_order(stepped.0, evs.drop_first());
        assert(acts[0] == stepped.1);
        assert(forall|k: int| 1 <= k < acts.len() ==> acts[k] == #[trigger] rest[k - 1]);
    }
}

/// A state from which the session only ever acknowledges, finishes, or
/// aborts: nothing is fetched and nothing is delivered any more.
pub open spec fn quiescent(s: SyncState) -> bool {
    ||| s is AwaitFastForwardSaved
    ||| s is Done
    ||| s is Failed
}

/// True of the actions that reach out for chain data or deliver a match.
pub open spec fn works_outward(a: Action) -> bool {
    ||| a matches Action::FetchCfHeaders { .. }
    ||| a matches Action::FetchFilter { .. }
    ||| a matches Action::FetchBlock { .. }
    ||| a matches Action::NotifyMatch { .. }
}

/// From a quiescent state, no continuation of the run fetches headers,
/// filters or blocks, and none delivers a match.
pub proof fn lemma_quiescent_run(s: SyncSession, evs: Seq<Event>)
    requires
        quiescent(s.state),
    ensures
        forall|k: int| 0 <= k < run_actions(s, evs).len()
            ==> !works_outward(#[trigger] run_actions(s, evs)[k]),
    decreases evs.len(),
{
    if evs.len() > 0 {
        let stepped = next_model(s, evs[0]);
        lemma_quiescent_run(stepped.0, evs.drop_first());
        let rest = run_actions(stepped.0, evs.drop_first());
        let acts = run_actions(s, evs);
        assert(acts[0] == stepped.1);
        assert(forall|k: int| 1 <= k < acts.len() ==> acts[k] == #[trigger] rest[k - 1]);
    }
}

/// Fast-forward on an empty watchlist: the session immediately persists
/// the catch-up end height as scanned, and however the driver continues,
/// it never delivers a match and never fetches again.
pub proof fn lemma_empty_watchlist_fast_forward(
    s: SyncSession,
    watch: Vec<Vec<u8>>,
    evs: Seq<Event>,
)
    requires
        s.state matches SyncState::AwaitWatchlist { .. },
        watch@.len() == 0,
    ensures
        ({
            let stepped = next_model(s, Event::WatchlistIs(watch));
            let end = s.state->AwaitWatchlist_end;
            &&& stepped.1 == Action::PersistScanned { height: end }
            &&& stepped.0.state is AwaitFastForwardSaved
            &&& forall|k: int| 0 <= k < run_actions(stepped.0, evs).len()
                ==> !works_outward(#[trigger] run_actions(stepped.0, evs)[k])
        }),
{
    let stepped = next_model(s, Event::WatchlistIs(watch));
    lemma_quiescent_run(stepped.0, evs);
}

/// Idempotence across restarts: a rerun that finds the persisted tip
/// already at the chain tip and the scan caught up only reads back the
/// stored state — it fetches no cfheaders batch (so nothing is applied to
/// the chain) and never delivers a match, whatever events follow.
pub proof fn lemma_rerun_is_noop(
    cps: Vec<(u32, [u8; 32])>,
    tip: u32,
    tip_hash: [u8; 32],
    watch: Vec<Vec<u8>>,
    evs: Seq<Event>,
)
    requires
        tip > 0,
    ensures
        ({
            let s0 = SyncSession { state: SyncState::AwaitCfTip, checkpoints: cps };
            let s1 = next_model(s0, Event::CfTipLoaded(Some((tip, tip_hash))));
            let s2 = next_model(s1.0, Event::ChainTipIs(tip));
            let s3 = next_model(s2.0, Event::LastScannedIs(tip));
            let s4 = next_model(s3.0, Event::WatchlistIs(watch));
            &&& s1.1 == Action::QueryChainTip
            &&& s2.1 == Action::QueryLastScanned
            &&& s3.1 == Action::QueryWatchlist
            &&& !works_outward(s4.1)
            &&& forall|k: int| 0 <= k < run_actions(s4.0, evs).len()
                ==> !works_outward(#[trigger] run_actions(s4.0, evs)[k])
        }),
{
    let s0 = SyncSession { state: SyncState::AwaitCfTip, checkpoints: cps };
    let s1 = next_model(s0, Event::CfTipLoaded(Some((tip, tip_hash))));
    let s2 = next_model(s1.0, Event::ChainTipIs(tip));
    let s3 = next_model(s2.0, Event::LastScannedIs(tip));
    let s4 = next_model(s3.0, Event::WatchlistIs(watch));
    assert(quiescent(s4.0.state));
    lemma_quiescent_run(s4.0, evs);
}

} // verus!
