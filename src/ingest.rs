use vstd::prelude::*;
use crate::error::StoreError;

verus! {

/// The largest number of texts sent to the embedding service in one request.
pub const DEFAULT_BATCH_SIZE: usize = 100;

/// The `a`-th batch of `n` items cut into batches of `size`: its first
/// position and the position after its last.
pub open spec fn batch_range(n: nat, size: nat, a: nat) -> (nat, nat) {
    (a * size, if a * size + size <= n { a * size + size } else { n })
}

/// The number of batches of `size` that `n` items make.
pub open spec fn batch_count(n: nat, size: nat) -> nat {
    if n == 0 { 0 } else { ((n - 1) as nat / size + 1) as nat }
}

/// Cuts `n` items into consecutive batches of `size`, the last one shorter
/// where `size` does not divide `n`.
pub fn batch_bounds(n: usize, size: usize) -> (r: Vec<(usize, usize)>)
    requires
        size > 0,
    ensures
        r@.len() == batch_count(n as nat, size as nat),
        forall|a: int|
            0 <= a < r@.len() ==> (#[trigger] r@[a]).0 as nat == batch_range(n as nat, size as nat, a as nat).0
                && r@[a].1 as nat == batch_range(n as nat, size as nat, a as nat).1,
{
    let mut r: Vec<(usize, usize)> = Vec::new();
    let mut start: usize = 0;
    assert(0 * size == 0) by (nonlinear_arith);
    while start < n
        invariant
            size > 0,
            start <= n,
            start < n ==> start as nat == r@.len() * size,
            start == n && n > 0 ==> r@.len() == batch_count(n as nat, size as nat),
            n == 0 ==> r@.len() == 0,
            forall|a: int|
                0 <= a < r@.len() ==> (#[trigger] r@[a]).0 as nat == batch_range(n as nat, size as nat, a as nat).0
                    && r@[a].1 as nat == batch_range(n as nat, size as nat, a as nat).1,
        decreases n - start,
    {
        let ghost a = r@.len();
        let end = if n - start > size { start + size } else { n };
        r.push((start, end));
        proof {
            assert(r@[a as int] == (start, end));
            assert(start as nat == a * size);
            if end < n {
                assert(end as nat == (a + 1) * size) by (nonlinear_arith)
                    requires
                        start as nat == a * size,
                        end == start + size,
                ;
            } else {
                assert(end == n);
                assert(batch_count(n as nat, size as nat) == a + 1) by (nonlinear_arith)
                    requires
                        start as nat == a * size,
                        start < n,
                        n <= start + size,
                        size > 0,
                        batch_count(n as nat, size as nat) == (n - 1) as nat / size as nat + 1,
                ;
            }
        }
        start = end;
    }
    r
}

/// Checks what the embedding service returned for `n_docs` documents, given
/// the length of each returned vector: one vector per document, each of the
/// configured dimensionality.
pub fn check_embeddings(n_docs: usize, lengths: &Vec<usize>, dims: u32) -> (r: Result<(), StoreError>)
    ensures
        lengths@.len() != n_docs ==> r == Err::<(), StoreError>(StoreError::EmbeddingCountMismatch),
        lengths@.len() == n_docs ==> (r is Ok <==> forall|i: int|
            0 <= i < lengths@.len() ==> #[trigger] lengths@[i] == dims as usize),
        lengths@.len() == n_docs && r is Err ==> r == Err::<(), StoreError>(StoreError::EmbeddingDimension),
{
    if lengths.len() != n_docs {
        return Err(StoreError::EmbeddingCountMismatch);
    }
    let mut i: usize = 0;
    while i < lengths.len()
        invariant
            i <= lengths@.len(),
            lengths@.len() == n_docs,
            forall|j: int| 0 <= j < i ==> #[trigger] lengths@[j] == dims as usize,
        decreases lengths.len() - i,
    {
        if lengths[i] != dims as usize {
            return Err(StoreError::EmbeddingDimension);
        }
        i = i + 1;
    }
    Ok(())
}

} // verus!
