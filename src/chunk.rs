//! Partitioning of a run of items into bounded, consecutive batches.
use vstd::prelude::*;

verus! {

/// The largest number of items that one storage statement handles.
pub const CHUNK_SIZE: usize = 100;

/// `r` splits `0..n` into consecutive half-open ranges of at most `k` items,
/// every range but the last holding exactly `k`.
#[verifier::opaque]
pub open spec fn is_chunking(r: Seq<(usize, usize)>, n: nat, k: nat) -> bool {
    &&& (r.len() == 0 <==> n == 0)
    &&& r.len() > 0 ==> r[0].0 == 0 && r.last().1 == n
    &&& forall|i: int| 0 <= i < r.len() ==> #[trigger] r[i].0 < r[i].1 && r[i].1 <= r[i].0 + k
    &&& forall|i: int|
        0 <= i < r.len() - 1 ==> #[trigger] r[i].1 == r[i].0 + k && r[i].1 == r[i + 1].0
}

/// The ranges `(start, end)` of the consecutive batches of at most `chunk_size`
/// items that cover `0..len`; none when `len` is zero.
pub fn chunk_ranges(len: usize, chunk_size: usize) -> (r: Vec<(usize, usize)>)
    requires
        chunk_size > 0,
    ensures
        is_chunking(r@, len as nat, chunk_size as nat),
{
    let mut r: Vec<(usize, usize)> = Vec::new();
    let mut lo: usize = 0;
    while lo < len
        invariant
            chunk_size > 0,
            lo <= len,
            r@.len() == 0 <==> lo == 0,
            r@.len() > 0 ==> r@[0].0 == 0 && r@.last().1 == lo,
            r@.len() > 0 ==> r@.last().1 == r@.last().0 + chunk_size || r@.last().1 == len,
            forall|i: int|
                0 <= i < r@.len() ==> #[trigger] r@[i].0 < r@[i].1 && r@[i].1 <= r@[i].0
                    + chunk_size,
            forall|i: int|
                0 <= i < r@.len() - 1 ==> #[trigger] r@[i].1 == r@[i].0 + chunk_size && r@[i].1
                    == r@[i + 1].0,
        decreases len - lo,
    {
        let hi: usize = if len - lo > chunk_size {
            lo + chunk_size
        } else {
            len
        };
        let ghost prev = r@;
        r.push((lo, hi));
        proof {
            assert forall|i: int| 0 <= i < r@.len() - 1 implies #[trigger] r@[i].1 == r@[i].0
                + chunk_size && r@[i].1 == r@[i + 1].0 by {
                if i < prev.len() - 1 {
                    assert(r@[i] == prev[i] && r@[i + 1] == prev[i + 1]);
                } else {
                    assert(r@[i] == prev.last());
                }
            }
        }
        if hi == len {
            assert(r@.last().1 == len);
        }
        lo = hi;
    }
    proof {
        reveal(is_chunking);
    }
    r
}

/// Range `j` of a chunking starts where the previous one ends (at zero for the
/// first), is not empty, and ends within `n`; the last one ends at `n`.
pub proof fn lemma_chunk_step(r: Seq<(usize, usize)>, n: nat, k: nat, j: int)
    requires
        is_chunking(r, n, k),
        0 <= j < r.len(),
    ensures
        j == 0 ==> r[j].0 == 0,
        j > 0 ==> r[j].0 == r[j - 1].1,
        r[j].0 < r[j].1 <= n,
        r[j].1 <= r[j].0 + k,
        j == r.len() - 1 ==> r[j].1 == n,
    decreases r.len() - j,
{
    reveal(is_chunking);
    if j < r.len() - 1 {
        lemma_chunk_step(r, n, k, j + 1);
    }
    if j > 0 {
        assert(r[j - 1].1 == r[j].0);
    }
}

/// A chunking has no range exactly when there is nothing to split.
pub proof fn lemma_chunking_empty(r: Seq<(usize, usize)>, n: nat, k: nat)
    requires
        is_chunking(r, n, k),
    ensures
        r.len() == 0 <==> n == 0,
{
    reveal(is_chunking);
}

} // verus!
