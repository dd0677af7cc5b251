//! Rolling filter-header chain: a pure verifier that folds contiguous
//! batches of per-block filter digests into a cumulative hash and checks
//! the result against pinned checkpoints.
use vstd::prelude::*;
use crate::hashes::{fold_headers, hash256_pair_exec, hash_eq, zero_hash, zero_hash_exec, lemma_fold_headers_append, lemma_fold_headers_take_step};
use crate::succ_height;
use crate::next_height;

verus! {

/// Errors from the rolling filter-header verifier.
#[derive(Debug, Clone, Copy, PartialEq, Eq, Structural)]
pub enum ChainError {
    /// The batch does not begin at the next contiguous height. A batch
    /// whose heights would run past `u32::MAX` cannot be the next
    /// contiguous chunk either and is rejected the same way.
    BatchStartMismatch { got: u32, expected: u32 },
    /// The rolling hash computed at `height` differs from the checkpoint
    /// pinned there.
    CheckpointMismatch { height: u32 },
}

/// Rolling filter-header chain state.
#[derive(Debug, Clone, Copy)]
pub struct CfHeaderChain {
    /// Height of the most recent filter digest applied.
    pub tip_height: u32,
    /// The rolling hash after applying the digest at `tip_height`.
    pub tip_hash: [u8; 32],
}

/// The chain state adopted from a persisted tip. A stored tip at height 0
/// counts as no tip: the chain starts at height 0 with the all-zero hash.
pub open spec fn initial_chain(prev: Option<(u32, [u8; 32])>) -> CfHeaderChain {
    match prev {
        Some((h, hh)) => if h > 0 {
            CfHeaderChain { tip_height: h, tip_hash: hh }
        } else {
            CfHeaderChain { tip_height: 0, tip_hash: zero_hash() }
        },
        None => CfHeaderChain { tip_height: 0, tip_hash: zero_hash() },
    }
}

/// The expected rolling hash pinned at height `h`, if any: the first entry
/// of `cps` whose height is `h`.
pub open spec fn checkpoint_at(cps: Seq<(u32, [u8; 32])>, h: u32) -> Option<[u8; 32]>
    decreases cps.len(),
{
    if cps.len() == 0 {
        None
    } else if cps[0].0 == h {
        Some(cps[0].1)
    } else {
        checkpoint_at(cps.drop_first(), h)
    }
}

/// True when the rolling hash `v` agrees with whatever checkpoint is
/// pinned at height `h` (no checkpoint there accepts any hash).
pub open spec fn checkpoint_ok(cps: Seq<(u32, [u8; 32])>, h: u32, v: [u8; 32]) -> bool {
    match checkpoint_at(cps, h) {
        None => true,
        Some(e) => e == v,
    }
}

/// All heights `start .. start + n - 1` of an `n`-header batch stay
/// within `u32`.
pub open spec fn heights_fit(start: u32, n: int) -> bool {
    start as int + n - 1 <= u32::MAX as int
}

/// The rolling hash after the batch entry at index `i`: `h0` with the
/// first `i + 1` digests folded on.
pub open spec fn rolling_at(h0: [u8; 32], headers: Seq<[u8; 32]>, i: int) -> [u8; 32] {
    fold_headers(h0, headers.take(i + 1))
}

/// The checkpoints accept the rolling hash produced by batch entry `i`,
/// which lands at height `start + i`.
pub open spec fn batch_entry_ok(
    h0: [u8; 32],
    start: u32,
    headers: Seq<[u8; 32]>,
    cps: Seq<(u32, [u8; 32])>,
    i: int,
) -> bool {
    checkpoint_ok(cps, (start + i) as u32, rolling_at(h0, headers, i))
}

/// The index of the first batch entry at or after `i` that a checkpoint
/// rejects; `headers.len()` when every entry from `i` on is accepted.
pub open spec fn violation_from(
    h0: [u8; 32],
    start: u32,
    headers: Seq<[u8; 32]>,
    cps: Seq<(u32, [u8; 32])>,
    i: int,
) -> int
    decreases headers.len() - i when 0 <= i <= headers.len()
{
    if i >= headers.len() {
        headers.len() as int
    } else if !batch_entry_ok(h0, start, headers, cps, i) {
        i
    } else {
        violation_from(h0, start, headers, cps, i + 1)
    }
}

/// What the first violation index means: every entry before it is
/// accepted, and the entry at it (if any) is rejected.
pub proof fn lemma_violation_from(
    h0: [u8; 32],
    start: u32,
    headers: Seq<[u8; 32]>,
    cps: Seq<(u32, [u8; 32])>,
    i: int,
)
    requires
        0 <= i <= headers.len(),
    ensures
        ({
            let v = violation_from(h0, start, headers, cps, i);
            &&& i <= v <= headers.len()
            &&& forall|j: int| i <= j < v ==> batch_entry_ok(h0, start, headers, cps, j)
            &&& v < headers.len() ==> !batch_entry_ok(h0, start, headers, cps, v)
        }),
    decreases headers.len() - i,
{
    if i < headers.len() && batch_entry_ok(h0, start, headers, cps, i) {
        lemma_violation_from(h0, start, headers, cps, i + 1);
    }
}

/// Entries accepted up to `k` push the first violation to `k` or beyond.
pub proof fn lemma_violation_from_at_least(
    h0: [u8; 32],
    start: u32,
    headers: Seq<[u8; 32]>,
    cps: Seq<(u32, [u8; 32])>,
    i: int,
    k: int,
)
    requires
        0 <= i <= k <= headers.len(),
        forall|j: int| i <= j < k ==> batch_entry_ok(h0, start, headers, cps, j),
    ensures
        violation_from(h0, start, headers, cps, i) >= k,
    decreases k - i,
{
    if i < k {
        assert(batch_entry_ok(h0, start, headers, cps, i));
        lemma_violation_from_at_least(h0, start, headers, cps, i + 1, k);
        assert(violation_from(h0, start, headers, cps, i)
            == violation_from(h0, start, headers, cps, i + 1));
    } else {
        lemma_violation_from(h0, start, headers, cps, i);
    }
}

/// The exact outcome of applying a batch to a chain state: the new state
/// and the result. An empty batch is a no-op. A non-empty batch must start
/// at the saturating successor of the tip and fit in `u32` heights, else
/// it is rejected unapplied. Otherwise digests fold on in order; the first
/// checkpoint violation stops the fold right before its entry, so an error
/// leaves the state at the last accepted entry.
pub open spec fn apply_model(
    c: CfHeaderChain,
    start: u32,
    headers: Seq<[u8; 32]>,
    cps: Seq<(u32, [u8; 32])>,
) -> (CfHeaderChain, Result<(), ChainError>) {
    let n = headers.len() as int;
    if n == 0 {
        (c, Ok(()))
    } else if start != succ_height(c.tip_height) || !heights_fit(start, n) {
        (c, Err(ChainError::BatchStartMismatch { got: start, expected: succ_height(c.tip_height) }))
    } else {
        let v = violation_from(c.tip_hash, start, headers, cps, 0);
        if v == n {
            (
                CfHeaderChain {
                    tip_height: (start + n - 1) as u32,
                    tip_hash: fold_headers(c.tip_hash, headers),
                },
                Ok(()),
            )
        } else {
            (
                CfHeaderChain {
                    tip_height: if v == 0 { c.tip_height } else { (start + v - 1) as u32 },
                    tip_hash: fold_headers(c.tip_hash, headers.take(v)),
                },
                Err(ChainError::CheckpointMismatch { height: (start + v) as u32 }),
            )
        }
    }
}

/// The chain tracks a digest history when its tip counts the digests and
/// its hash is the full fold from the all-zero root: the digest at index
/// `i` of the history sits at height `i + 1`, so the heights covered are
/// exactly `1 ..= tip_height` with no gap.
pub open spec fn tracks(c: CfHeaderChain, digests: Seq<[u8; 32]>) -> bool {
    &&& c.tip_height == digests.len()
    &&& c.tip_hash == fold_headers(zero_hash(), digests)
}

/// Looks up the first checkpoint pinned at height `h`.
fn find_checkpoint(cps: &Vec<(u32, [u8; 32])>, h: u32) -> (r: Option<[u8; 32]>)
    ensures
        r == checkpoint_at(cps@, h),
{
    let mut i: usize = 0;
    proof {
        assert(cps@.skip(0) =~= cps@);
    }
    while i < cps.len()
        invariant
            0 <= i <= cps@.len(),
            checkpoint_at(cps@, h) == checkpoint_at(cps@.skip(i as int), h),
        decreases cps@.len() - i,
    {
        proof {
            assert(cps@.skip(i as int)[0] == cps@[i as int]);
            assert(cps@.skip(i as int).drop_first() =~= cps@.skip(i as int + 1));
        }
        if cps[i].0 == h {
            return Some(cps[i].1);
        }
        i += 1;
    }
    None
}

impl CfHeaderChain {
    /// Initializes the chain from a persisted tip, or from the all-zero
    /// root at height 0 when none (or one at height 0) was stored.
    pub fn new_from_store(prev: Option<(u32, [u8; 32])>) -> (r: CfHeaderChain)
        ensures
            r == initial_chain(prev),
    {
        match prev {
            Some((h, hh)) => {
                if h > 0 {
                    CfHeaderChain { tip_height: h, tip_hash: hh }
                } else {
                    CfHeaderChain { tip_height: 0, tip_hash: zero_hash_exec() }
                }
            },
            None => CfHeaderChain { tip_height: 0, tip_hash: zero_hash_exec() },
        }
    }

    /// Applies a batch of per-block filter digests, `headers[i]` at height
    /// `start_height + i`, folding each into the rolling hash and checking
    /// every pinned checkpoint the batch crosses. On an error the state
    /// stays at the last entry accepted before it, so the caller either
    /// persists a fully verified batch or discards the in-memory progress.
    pub fn apply_batch(
        &mut self,
        start_height: u32,
        headers: &Vec<[u8; 32]>,
        checkpoints: &Vec<(u32, [u8; 32])>,
    ) -> (r: Result<(), ChainError>)
        ensures
            (*final(self), r) == apply_model(*old(self), start_height, headers@, checkpoints@),
    {
        let n = headers.len();
        if n == 0 {
            return Ok(());
        }
        let expected = next_height(self.tip_height);
        if start_height != expected {
            return Err(ChainError::BatchStartMismatch { got: start_height, expected });
        }
        if n - 1 > (u32::MAX - start_height) as usize {
            assert(!heights_fit(start_height, headers@.len() as int));
            return Err(ChainError::BatchStartMismatch { got: start_height, expected });
        }
        let ghost h0 = self.tip_hash;
        let mut rolling = self.tip_hash;
        let mut i: usize = 0;
        while i < n
            invariant
                0 <= i <= n,
                n == headers@.len(),
                n - 1 <= (u32::MAX - start_height) as usize,
                start_height == succ_height(old(self).tip_height),
                h0 == old(self).tip_hash,
                rolling == fold_headers(h0, headers@.take(i as int)),
                self.tip_hash == rolling,
                self.tip_height == if i == 0 { old(self).tip_height } else {
                    (start_height + i - 1) as u32
                },
                forall|j: int| 0 <= j < i ==> batch_entry_ok(h0, start_height, headers@, checkpoints@, j),
            decreases n - i,
        {
            let h = start_height + i as u32;
            let cur = hash256_pair_exec(&rolling, &headers[i]);
            proof {
                lemma_fold_headers_take_step(h0, headers@, i as int);
            }
            match find_checkpoint(checkpoints, h) {
                Some(chk) => {
                    if !hash_eq(&cur, &chk) {
                        proof {
                            assert(!batch_entry_ok(h0, start_height, headers@, checkpoints@, i as int));
                            lemma_violation_from_at_least(h0, start_height, headers@, checkpoints@, 0, i as int);
                            lemma_violation_from(h0, start_height, headers@, checkpoints@, 0);
                            assert(violation_from(h0, start_height, headers@, checkpoints@, 0) == i as int);
                        }
                        return Err(ChainError::CheckpointMismatch { height: h });
                    }
                },
                None => {},
            }
            rolling = cur;
            self.tip_height = h;
            self.tip_hash = rolling;
            i += 1;
        }
        proof {
            assert(headers@.take(n as int) =~= headers@);
            lemma_violation_from_at_least(h0, start_height, headers@, checkpoints@, 0, n as int);
            lemma_violation_from(h0, start_height, headers@, checkpoints@, 0);
        }
        Ok(())
    }
}

/// Contiguity and recurrence of the chain: a successfully applied non-empty
/// batch extends the tracked digest history exactly at the next heights,
/// leaving the heights covered gap-free at `1 ..= tip_height` and the tip
/// hash equal to the full fold of all digests from the all-zero root.
pub proof fn lemma_apply_batch_extends_history(
    pre: CfHeaderChain,
    post: CfHeaderChain,
    start_height: u32,
    headers: Seq<[u8; 32]>,
    cps: Seq<(u32, [u8; 32])>,
    digests: Seq<[u8; 32]>,
)
    requires
        tracks(pre, digests),
        pre.tip_height < u32::MAX,
        headers.len() > 0,
        (post, Ok::<(), ChainError>(())) == apply_model(pre, start_height, headers, cps),
    ensures
        start_height == digests.len() + 1,
        tracks(post, digests + headers),
{
    lemma_fold_headers_append(zero_hash(), digests, headers);
}

/// A batch is accepted exactly when it is empty, or it is contiguous,
/// its heights fit in `u32`, and every checkpoint it crosses agrees with
/// the rolling hash computed there.
pub proof fn lemma_batch_accepted_iff(
    c: CfHeaderChain,
    start: u32,
    headers: Seq<[u8; 32]>,
    cps: Seq<(u32, [u8; 32])>,
)
    ensures
        apply_model(c, start, headers, cps).1 is Ok <==> (headers.len() == 0 || (
            start == succ_height(c.tip_height)
            && heights_fit(start, headers.len() as int)
            && forall|i: int| 0 <= i < headers.len()
                ==> batch_entry_ok(c.tip_hash, start, headers, cps, i)
        )),
{
    let n = headers.len() as int;
    if n > 0 && start == succ_height(c.tip_height) && heights_fit(start, n) {
        lemma_violation_from(c.tip_hash, start, headers, cps, 0);
        if forall|i: int| 0 <= i < n ==> batch_entry_ok(c.tip_hash, start, headers, cps, i) {
            lemma_violation_from_at_least(c.tip_hash, start, headers, cps, 0, n);
        }
    }
}

/// Checkpoint soundness: when the rolling hash computed at the first
/// disagreeing checkpointed height `start + k` differs from the pinned
/// hash, the batch fails with `CheckpointMismatch` at exactly that
/// height, and the chain stops at the height right before it — the
/// mismatching hash is never adopted, so it is never persisted either.
pub proof fn lemma_checkpoint_soundness(
    c: CfHeaderChain,
    start: u32,
    headers: Seq<[u8; 32]>,
    cps: Seq<(u32, [u8; 32])>,
    k: int,
)
    requires
        c.tip_height < u32::MAX,
        start == succ_height(c.tip_height),
        heights_fit(start, headers.len() as int),
        0 <= k < headers.len(),
        forall|j: int| 0 <= j < k ==> batch_entry_ok(c.tip_hash, start, headers, cps, j),
        !batch_entry_ok(c.tip_hash, start, headers, cps, k),
    ensures
        ({
            let (post, r) = apply_model(c, start, headers, cps);
            &&& r == Err::<(), ChainError>(ChainError::CheckpointMismatch {
                height: (start + k) as u32,
            })
            &&& post.tip_height as int == start + k - 1
            &&& post.tip_hash == fold_headers(c.tip_hash, headers.take(k))
        }),
{
    lemma_violation_from_at_least(c.tip_hash, start, headers, cps, 0, k);
    lemma_violation_from(c.tip_hash, start, headers, cps, 0);
    assert(violation_from(c.tip_hash, start, headers, cps, 0) == k);
    assert(headers.take(0) =~= Seq::<[u8; 32]>::empty());
}

/// The outcome of applying the same digests one at a time, each as its
/// own single-header batch at the next contiguous height, stopping at the
/// first error.
pub open spec fn apply_one_by_one(
    c: CfHeaderChain,
    start: u32,
    headers: Seq<[u8; 32]>,
    cps: Seq<(u32, [u8; 32])>,
) -> (CfHeaderChain, Result<(), ChainError>)
    decreases headers.len(),
{
    if headers.len() == 0 {
        (c, Ok(()))
    } else {
        let first = apply_model(c, start, headers.take(1), cps);
        match first.1 {
            Err(e) => first,
            Ok(_) => apply_one_by_one(
                first.0,
                succ_height(first.0.tip_height),
                headers.drop_first(),
                cps,
            ),
        }
    }
}

/// Once the first digest of a batch has been folded on and accepted, the
/// rest of the batch behaves exactly like a batch of its own on the
/// advanced chain.
proof fn lemma_apply_model_shift(
    c: CfHeaderChain,
    start: u32,
    headers: Seq<[u8; 32]>,
    cps: Seq<(u32, [u8; 32])>,
)
    requires
        headers.len() >= 1,
        start == succ_height(c.tip_height),
        heights_fit(start, headers.len() as int),
        batch_entry_ok(c.tip_hash, start, headers, cps, 0),
    ensures
        ({
            let c1 = CfHeaderChain {
                tip_height: start,
                tip_hash: fold_headers(c.tip_hash, headers.take(1)),
            };
            apply_model(c, start, headers, cps)
                == apply_model(c1, succ_height(start), headers.drop_first(), cps)
        }),
{
    let h0 = c.tip_hash;
    let n = headers.len() as int;
    let c1 = CfHeaderChain { tip_height: start, tip_hash: fold_headers(h0, headers.take(1)) };
    let h1 = c1.tip_hash;
    let tail = headers.drop_first();
    assert(headers.take(1) + tail =~= headers);
    lemma_fold_headers_append(h0, headers.take(1), tail);
    if n == 1 {
        lemma_violation_from_at_least(h0, start, headers, cps, 0, 1);
        lemma_violation_from(h0, start, headers, cps, 0);
        return ;
    }
    assert(succ_height(start) == start + 1);
    assert forall|j: int| 0 <= j < n - 1 implies #[trigger] batch_entry_ok(
        h1,
        (start + 1) as u32,
        tail,
        cps,
        j,
    ) == batch_entry_ok(h0, start, headers, cps, j + 1) by {
        lemma_fold_headers_append(h0, headers.take(1), tail.take(j + 1));
        assert(headers.take(1) + tail.take(j + 1) =~= headers.take(j + 2));
    }
    let v = violation_from(h0, start, headers, cps, 0);
    let w = violation_from(h1, (start + 1) as u32, tail, cps, 0);
    lemma_violation_from(h0, start, headers, cps, 0);
    lemma_violation_from(h1, (start + 1) as u32, tail, cps, 0);
    lemma_violation_from_at_least(h0, start, headers, cps, 0, 1);
    lemma_violation_from_at_least(h1, (start + 1) as u32, tail, cps, 0, v - 1);
    if v < n {
        assert(!batch_entry_ok(h1, (start + 1) as u32, tail, cps, v - 1));
        assert(w == v - 1);
        lemma_fold_headers_append(h0, headers.take(1), tail.take(v - 1));
        assert(headers.take(1) + tail.take(v - 1) =~= headers.take(v));
    } else {
        assert(w == n - 1);
        assert(tail.take(n - 1) =~= tail);
    }
}

/// Applying headers one by one, in single-header batches at the next
/// contiguous heights, gives exactly the outcome of applying them all in
/// one batch: the same final `(tip_height, tip_hash)` and the same
/// verdict, error included. A batch whose heights would run past
/// `u32::MAX` is rejected whole rather than applied, so those inputs are
/// excluded here.
pub proof fn lemma_one_by_one_matches_batch(
    c: CfHeaderChain,
    start: u32,
    headers: Seq<[u8; 32]>,
    cps: Seq<(u32, [u8; 32])>,
)
    requires
        start == succ_height(c.tip_height),
        heights_fit(start, headers.len() as int),
    ensures
        apply_one_by_one(c, start, headers, cps) == apply_model(c, start, headers, cps),
    decreases headers.len(),
{
    let n = headers.len() as int;
    if n == 0 {
        return ;
    }
    let h0 = c.tip_hash;
    let first = apply_model(c, start, headers.take(1), cps);
    assert(headers.take(1).take(1) =~= headers.take(1));
    assert(batch_entry_ok(h0, start, headers.take(1), cps, 0)
        == batch_entry_ok(h0, start, headers, cps, 0));
    if batch_entry_ok(h0, start, headers, cps, 0) {
        lemma_violation_from_at_least(h0, start, headers.take(1), cps, 0, 1);
        lemma_violation_from(h0, start, headers.take(1), cps, 0);
        let c1 = CfHeaderChain {
            tip_height: start,
            tip_hash: fold_headers(h0, headers.take(1)),
        };
        assert(first == (c1, Ok::<(), ChainError>(())));
        lemma_apply_model_shift(c, start, headers, cps);
        if n == 1 {
            assert(headers.drop_first().len() == 0);
        } else {
            assert(heights_fit(succ_height(start), n - 1));
        }
        lemma_one_by_one_matches_batch(c1, succ_height(start), headers.drop_first(), cps);
    } else {
        assert(violation_from(h0, start, headers.take(1), cps, 0) == 0);
        assert(violation_from(h0, start, headers, cps, 0) == 0);
        assert(headers.take(1).take(0) =~= headers.take(0));
        assert(c == CfHeaderChain { tip_height: c.tip_height, tip_hash: c.tip_hash });
    }
}

} // verus!
