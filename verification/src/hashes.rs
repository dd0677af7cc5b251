//! The rolling-hash primitive of the filter-header chain.
//!
//! Each block contributes a 32-byte filter digest `F_n`; the chain keeps
//! the cumulative value `H_n = HASH256(H_{n-1} || F_n)` with `H_0` all
//! zero, where `HASH256` is double SHA-256.
use vstd::prelude::*;
use bitcoin::hashes::Hash as _;

verus! {

/// What `bitcoin::hashes::sha256d::Hash::hash` returns on the 64-byte
/// concatenation `prev || digest`: one step of the rolling recurrence.
/// The result is a function of the two inputs alone.
pub uninterp spec fn hash256_pair(prev: [u8; 32], digest: [u8; 32]) -> [u8; 32];

/// Relies on `bitcoin::hashes::sha256d::Hash::hash`: double SHA-256 of the
/// input bytes, 32 bytes out, determined by the input alone. Called here on
/// the 64-byte concatenation of `prev` and `digest`.
#[verifier::external_body]
pub(crate) fn hash256_pair_exec(prev: &[u8; 32], digest: &[u8; 32]) -> (r: [u8; 32])
    ensures
        r == hash256_pair(*prev, *digest),
{
    let mut data = Vec::with_capacity(64);
    data.extend_from_slice(prev);
    data.extend_from_slice(digest);
    bitcoin::hashes::sha256d::Hash::hash(&data).to_byte_array()
}

/// The all-zero 32-byte value `H_0`, the root of the rolling chain.
pub open spec fn zero_hash() -> [u8; 32] {
    vstd::array::spec_array_fill_for_copy_type::<u8, 32>(0u8)
}

/// The rolling hash after folding `digests` onto `start`, oldest first:
/// `fold_headers(H, [F_1, .., F_k]) = HASH256(.. HASH256(H || F_1) .. || F_k)`.
pub open spec fn fold_headers(start: [u8; 32], digests: Seq<[u8; 32]>) -> [u8; 32]
    decreases digests.len(),
{
    if digests.len() == 0 {
        start
    } else {
        hash256_pair(fold_headers(start, digests.drop_last()), digests.last())
    }
}

/// Folding a split batch in two steps gives the same rolling hash as
/// folding it whole; hence applying headers one by one, or in batches cut
/// anywhere, yields the same final tip hash.
pub proof fn lemma_fold_headers_append(start: [u8; 32], xs: Seq<[u8; 32]>, ys: Seq<[u8; 32]>)
    ensures
        fold_headers(start, xs + ys) == fold_headers(fold_headers(start, xs), ys),
    decreases ys.len(),
{
    if ys.len() == 0 {
        assert(xs + ys =~= xs);
    } else {
        lemma_fold_headers_append(start, xs, ys.drop_last());
        assert((xs + ys).drop_last() =~= xs + ys.drop_last());
        assert((xs + ys).last() == ys.last());
    }
}

/// One more digest folds on as a single recurrence step.
pub proof fn lemma_fold_headers_take_step(start: [u8; 32], digests: Seq<[u8; 32]>, i: int)
    requires
        0 <= i < digests.len(),
    ensures
        fold_headers(start, digests.take(i + 1))
            == hash256_pair(fold_headers(start, digests.take(i)), digests[i]),
{
    assert(digests.take(i + 1).drop_last() =~= digests.take(i));
    assert(digests.take(i + 1).last() == digests[i]);
}

/// Byte-for-byte equality of two 32-byte values.
pub fn hash_eq(a: &[u8; 32], b: &[u8; 32]) -> (r: bool)
    ensures
        r == (*a == *b),
{
    let mut i: usize = 0;
    while i < 32
        invariant
            0 <= i <= 32,
            forall|j: int| 0 <= j < i ==> a@[j] == b@[j],
        decreases 32 - i,
    {
        if a[i] != b[i] {
            assert(*a != *b);
            return false;
        }
        i += 1;
    }
    assert(*a =~= *b);
    true
}

/// The all-zero root as an executable value.
pub fn zero_hash_exec() -> (r: [u8; 32])
    ensures
        r == zero_hash(),
{
    [0u8; 32]
}

} // verus!
