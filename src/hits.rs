use vstd::prelude::*;
use crate::filter::{attrs_view, metadata_satisfies, predicate_view, satisfies, Predicate, Scalar};

verus! {

/// A row returned by an index: the document's content, its metadata as
/// canonical JSON text, and the metadata's top-level scalar entries.
#[derive(Debug, Clone)]
pub struct Hit {
    pub id: i64,
    pub content: String,
    pub metadata: String,
    pub attrs: Vec<(String, Scalar)>,
}

/// Two hits are the same document: equal content and equal metadata.
pub open spec fn same_document(a: Hit, b: Hit) -> bool {
    a.content@ == b.content@ && a.metadata@ == b.metadata@
}

/// Hit `i` is kept: it satisfies the filter and no earlier hit is the same document.
pub open spec fn kept(hits: Seq<Hit>, pred: Predicate, i: int) -> bool {
    &&& satisfies(attrs_view(hits[i].attrs@), predicate_view(pred@))
    &&& forall|j: int| 0 <= j < i ==> !same_document(#[trigger] hits[j], hits[i])
}

/// The positions among the first `n` hits that are kept, in order.
pub open spec fn kept_positions(hits: Seq<Hit>, pred: Predicate, n: nat) -> Seq<usize>
    decreases n,
{
    if n == 0 {
        Seq::empty()
    } else {
        let prev = kept_positions(hits, pred, (n - 1) as nat);
        if kept(hits, pred, n - 1) {
            prev.push((n - 1) as usize)
        } else {
            prev
        }
    }
}

/// `s` without what follows its first `limit` items.
pub open spec fn truncated<T>(s: Seq<T>, limit: nat) -> Seq<T> {
    if s.len() <= limit {
        s
    } else {
        s.take(limit as int)
    }
}

fn is_repeat(hits: &Vec<Hit>, i: usize) -> (r: bool)
    requires
        i < hits@.len(),
    ensures
        r == exists|j: int| 0 <= j < i && same_document(#[trigger] hits@[j], hits@[i as int]),
{
    let mut j: usize = 0;
    while j < i
        invariant
            j <= i < hits@.len(),
            forall|t: int| 0 <= t < j ==> !same_document(#[trigger] hits@[t], hits@[i as int]),
        decreases i - j,
    {
        if hits[j].content.eq(&hits[i].content) && hits[j].metadata.eq(&hits[i].metadata) {
            assert(same_document(hits@[j as int], hits@[i as int]));
            return true;
        }
        j = j + 1;
    }
    false
}

/// Picks, from hits ordered best first, the positions to return: hits that
/// satisfy `pred`, each document once (its best hit), at most `limit` of
/// them, best first.
pub fn select_hits(hits: &Vec<Hit>, pred: &Predicate, limit: usize) -> (r: Vec<usize>)
    ensures
        r@ == truncated(kept_positions(hits@, *pred, hits@.len()), limit as nat),
        r@.len() <= limit,
        forall|a: int| 0 <= a < r@.len() ==> r@[a] < hits@.len(),
        forall|a: int, b: int| 0 <= a < b < r@.len() ==> r@[a] < r@[b],
        forall|a: int|
            0 <= a < r@.len() ==> satisfies(
                attrs_view(hits@[#[trigger] r@[a] as int].attrs@),
                predicate_view(pred@),
            ),
        forall|a: int, b: int|
            0 <= a < b < r@.len() ==> !same_document(
                hits@[#[trigger] r@[a] as int],
                hits@[#[trigger] r@[b] as int],
            ),
{
    let mut r: Vec<usize> = Vec::new();
    let mut i: usize = 0;
    while i < hits.len()
        invariant
            i <= hits@.len(),
            r@ == truncated(kept_positions(hits@, *pred, i as nat), limit as nat),
            r@.len() <= limit,
            forall|a: int| 0 <= a < r@.len() ==> r@[a] < i,
            forall|a: int, b: int| 0 <= a < b < r@.len() ==> r@[a] < r@[b],
            forall|a: int| 0 <= a < r@.len() ==> kept(hits@, *pred, #[trigger] r@[a] as int),
        decreases hits.len() - i,
    {
        let ghost prev = kept_positions(hits@, *pred, i as nat);
        let keep = metadata_satisfies(&hits[i].attrs, pred) && !is_repeat(hits, i);
        assert(keep == kept(hits@, *pred, i as int));
        if keep && r.len() < limit {
            r.push(i);
        }
        proof {
            let next = kept_positions(hits@, *pred, (i + 1) as nat);
            if keep {
                assert(next == prev.push(i));
                if prev.len() >= limit {
                    assert(truncated(next, limit as nat) =~= truncated(prev, limit as nat));
                } else {
                    assert(truncated(next, limit as nat) =~= truncated(prev, limit as nat).push(i));
                }
            } else {
                assert(next == prev);
            }
        }
        i = i + 1;
    }
    proof {
        assert forall|a: int, b: int| 0 <= a < b < r@.len() implies !same_document(
            hits@[#[trigger] r@[a] as int],
            hits@[#[trigger] r@[b] as int],
        ) by {
            assert(kept(hits@, *pred, r@[b] as int));
        }
        assert forall|a: int| 0 <= a < r@.len() implies satisfies(
            attrs_view(hits@[#[trigger] r@[a] as int].attrs@),
            predicate_view(pred@),
        ) by {
            assert(kept(hits@, *pred, r@[a] as int));
        }
    }
    r
}

} // verus!
