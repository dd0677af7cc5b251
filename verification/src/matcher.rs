//! The filter matcher: does any watched script byte-string belong to a
//! block's compact filter?
//!
//! The membership test itself is the outside routine's; this module keeps
//! out of it the content it cannot read without its `u64` arithmetic
//! overflowing — an absurd leading element count, or content too large
//! for its Golomb-Rice delta accumulation — and treats such content as
//! malformed.
use vstd::prelude::*;

verus! {

broadcast use vstd::seq_lib::group_to_multiset_ensures;

/// The BIP-158 basic filter's hash-range parameter `M`: the match routine
/// maps hashes into `[0, element_count * M)`.
pub const FILTER_RANGE_M: u64 = 784931;

/// The largest filter content the matcher will read. Far beyond any real
/// filter, yet small enough that the match routine's Golomb-Rice delta
/// arithmetic stays within `u64` on every input of this size: content of
/// `n` bytes holds fewer than `8n` unary quotient bits, so with `n` at
/// this cap every quotient, shifted by the 19-bit remainder width, and
/// the running sum of all decoded deltas stay below `2^63`.
pub const MAX_FILTER_BYTES: u64 = 0x100_0000_0000;

/// Malformed filter content: the compact filter's encoding could not be
/// read against the watchlist.
#[derive(Debug, Clone, Copy, PartialEq, Eq, Structural)]
pub struct FilterError;

/// The little-endian value of the `k` bytes of `raw` starting at `off`.
pub open spec fn le_bytes(raw: Seq<u8>, off: int, k: int) -> int
    decreases k,
{
    if k <= 0 {
        0
    } else {
        raw[off] + 256 * le_bytes(raw, off + 1, k - 1)
    }
}

/// `256^k`.
pub open spec fn pow256(k: int) -> int
    decreases k,
{
    if k <= 0 {
        1
    } else {
        256 * pow256(k - 1)
    }
}

proof fn lemma_pow256_pos(k: int)
    ensures
        pow256(k) >= 1,
    decreases k,
{
    if k > 0 {
        lemma_pow256_pos(k - 1);
    }
}

proof fn lemma_pow256_mono(a: int, b: int)
    requires
        a <= b,
    ensures
        pow256(a) <= pow256(b),
    decreases b - a,
{
    if a < b {
        lemma_pow256_mono(a, b - 1);
        lemma_pow256_pos(b - 1);
    }
}

/// Reads the `k`-byte little-endian integer at offset `off`.
fn le_bytes_exec(raw: &Vec<u8>, off: usize, k: usize) -> (r: u64)
    requires
        off + k <= raw@.len(),
        k <= 8,
    ensures
        r as int == le_bytes(raw@, off as int, k as int),
{
    proof {
        reveal_with_fuel(pow256, 9);
    }
    let n = raw.len();
    let mut acc: u64 = 0;
    let mut j: usize = k;
    while j > 0
        invariant
            n == raw@.len(),
            off + k <= n,
            k <= 8,
            j <= k,
            acc as int == le_bytes(raw@, off as int + j, (k - j) as int),
            (acc as int) < pow256((k - j) as int),
        decreases j,
    {
        proof {
            reveal_with_fuel(pow256, 9);
            lemma_pow256_mono((k - j) as int, 7);
        }
        acc = acc * 256 + raw[off + j - 1] as u64;
        j -= 1;
    }
    acc
}

/// The element count the filter's match routine reads from the head of
/// the content: a Bitcoin consensus varint, where a short read and a
/// non-minimal encoding both count as zero, exactly as that routine
/// treats a failed decode.
pub open spec fn filter_element_count(raw: Seq<u8>) -> int {
    if raw.len() == 0 {
        0
    } else if raw[0] < 0xFD {
        raw[0] as int
    } else if raw[0] == 0xFD {
        if raw.len() < 3 {
            0
        } else {
            let x = le_bytes(raw, 1, 2);
            if x < 0xFD {
                0
            } else {
                x
            }
        }
    } else if raw[0] == 0xFE {
        if raw.len() < 5 {
            0
        } else {
            let x = le_bytes(raw, 1, 4);
            if x < 0x10000 {
                0
            } else {
                x
            }
        }
    } else {
        if raw.len() < 9 {
            0
        } else {
            let x = le_bytes(raw, 1, 8);
            if x < 0x1_0000_0000 {
                0
            } else {
                x
            }
        }
    }
}

/// Reads the leading element count as the match routine would.
fn read_element_count(raw: &Vec<u8>) -> (r: u64)
    ensures
        r as int == filter_element_count(raw@),
{
    if raw.len() == 0 {
        return 0;
    }
    let tag = raw[0];
    if tag < 0xFD {
        tag as u64
    } else if tag == 0xFD {
        if raw.len() < 3 {
            0
        } else {
            let x = le_bytes_exec(raw, 1, 2);
            if x < 0xFD {
                0
            } else {
                x
            }
        }
    } else if tag == 0xFE {
        if raw.len() < 5 {
            0
        } else {
            let x = le_bytes_exec(raw, 1, 4);
            if x < 0x10000 {
                0
            } else {
                x
            }
        }
    } else {
        if raw.len() < 9 {
            0
        } else {
            let x = le_bytes_exec(raw, 1, 8);
            if x < 0x1_0000_0000 {
                0
            } else {
                x
            }
        }
    }
}

/// Filter content the match routine can read with its arithmetic staying
/// in `u64`: the leading element count times `M` fits, and the content is
/// no larger than [`MAX_FILTER_BYTES`]. Anything else is treated as
/// malformed without being handed to the routine.
pub open spec fn filter_readable(raw: Seq<u8>) -> bool {
    &&& raw.len() <= MAX_FILTER_BYTES
    &&& filter_element_count(raw) * (FILTER_RANGE_M as int) <= u64::MAX as int
}

/// Decides [`filter_readable`].
fn filter_readable_exec(raw: &Vec<u8>) -> (b: bool)
    ensures
        b == filter_readable(raw@),
{
    if (raw.len() as u64) > MAX_FILTER_BYTES {
        return false;
    }
    let count = read_element_count(raw);
    count <= u64::MAX / FILTER_RANGE_M
}

/// What `bitcoin::bip158::BlockFilter::match_any` returns for readable
/// filter content `raw`, keyed on `block_hash`, against the query set
/// `watch`: `Some(hit)` when the content could be read, `None` when it is
/// malformed. The outcome is a function of these three inputs alone.
pub uninterp spec fn filter_match(block_hash: [u8; 32], raw: Seq<u8>, watch: Seq<Seq<u8>>) -> Option<bool>;

/// Relies on `bitcoin::bip158::BlockFilter::match_any`: membership of any
/// query in the Golomb-coded set, keyed on the block hash. Its source
/// returns `Ok(false)` outright for an empty query set and for content
/// whose element count cannot be read (which covers empty content), and
/// it maps every query's hash into a range and sorts before one ordered
/// walk, so the outcome depends on the queries as a multiset, not on
/// their order. The `requires` keeps out content on which the routine's
/// `count * M` range product or its Golomb-Rice delta accumulation could
/// leave `u64` and abort instead of returning.
#[verifier::external_body]
fn match_any_exec(block_hash: &[u8; 32], raw: &Vec<u8>, watch: &Vec<Vec<u8>>) -> (r: Option<bool>)
    requires
        filter_readable(raw@),
    ensures
        r == filter_match(*block_hash, raw@, watch.deep_view()),
        watch@.len() == 0 ==> r == Some(false),
        raw@.len() == 0 ==> r == Some(false),
        forall|other: Seq<Seq<u8>>|
            #[trigger] other.to_multiset() == watch.deep_view().to_multiset()
                ==> filter_match(*block_hash, raw@, other) == r,
{
    let filter = bitcoin::bip158::BlockFilter::new(raw.as_slice());
    let bh = <bitcoin::BlockHash as bitcoin::hashes::Hash>::from_byte_array(*block_hash);
    match filter.match_any(&bh, watch.iter().map(|q| q.as_slice())) {
        Ok(b) => Some(b),
        Err(_) => None,
    }
}

/// The verdict of the matcher: an empty watchlist matches nothing without
/// the filter being read at all; unreadable content is malformed; else
/// the named outcome of the membership test decides.
pub open spec fn match_verdict(block_hash: [u8; 32], raw: Seq<u8>, watch: Seq<Seq<u8>>) -> Option<bool> {
    if watch.len() == 0 {
        Some(false)
    } else if !filter_readable(raw) {
        None
    } else {
        filter_match(block_hash, raw, watch)
    }
}

/// Tests whether any element of `watch` is contained in the compact
/// filter `raw_filter` of the block with hash `block_hash`. An empty
/// watchlist and an empty filter match nothing; malformed filter content
/// is an error. The watchlist is a multiset: its order and duplication do
/// not change the verdict. A `true` result may be a false positive of the
/// filter design; the caller confirms by fetching the block itself.
pub fn filter_matches_any(
    block_hash: &[u8; 32],
    raw_filter: &Vec<u8>,
    watch: &Vec<Vec<u8>>,
) -> (r: Result<bool, FilterError>)
    ensures
        r == match match_verdict(*block_hash, raw_filter@, watch.deep_view()) {
            Some(b) => Ok::<bool, FilterError>(b),
            None => Err::<bool, FilterError>(FilterError),
        },
        raw_filter@.len() == 0 ==> r == Ok::<bool, FilterError>(false),
        watch@.len() == 0 ==> r == Ok::<bool, FilterError>(false),
        forall|other: Seq<Seq<u8>>|
            #[trigger] other.to_multiset() == watch.deep_view().to_multiset()
                ==> match_verdict(*block_hash, raw_filter@, other)
                    == match_verdict(*block_hash, raw_filter@, watch.deep_view()),
{
    let ghost wd = watch.deep_view();
    if watch.len() == 0 {
        proof {
            assert forall|other: Seq<Seq<u8>>|
                #[trigger] other.to_multiset() == wd.to_multiset()
                    implies match_verdict(*block_hash, raw_filter@, other)
                        == match_verdict(*block_hash, raw_filter@, wd) by {
                vstd::seq_lib::to_multiset_len::<Seq<u8>>(other);
                vstd::seq_lib::to_multiset_len::<Seq<u8>>(wd);
                assert(other.len() == wd.len());
            }
        }
        return Ok(false);
    }
    if !filter_readable_exec(raw_filter) {
        proof {
            assert(raw_filter@.len() > 0);
            assert forall|other: Seq<Seq<u8>>|
                #[trigger] other.to_multiset() == wd.to_multiset()
                    implies match_verdict(*block_hash, raw_filter@, other)
                        == match_verdict(*block_hash, raw_filter@, wd) by {
                vstd::seq_lib::to_multiset_len::<Seq<u8>>(other);
                vstd::seq_lib::to_multiset_len::<Seq<u8>>(wd);
                assert(other.len() == wd.len());
            }
        }
        return Err(FilterError);
    }
    let res = match_any_exec(block_hash, raw_filter, watch);
    proof {
        assert forall|other: Seq<Seq<u8>>|
            #[trigger] other.to_multiset() == wd.to_multiset()
                implies match_verdict(*block_hash, raw_filter@, other)
                    == match_verdict(*block_hash, raw_filter@, wd) by {
            vstd::seq_lib::to_multiset_len::<Seq<u8>>(other);
            vstd::seq_lib::to_multiset_len::<Seq<u8>>(wd);
            assert(other.len() == wd.len());
        }
    }
    match res {
        Some(b) => Ok(b),
        None => Err(FilterError),
    }
}

} // verus!
