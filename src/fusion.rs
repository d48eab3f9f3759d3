use vstd::prelude::*;

verus! {

/// The smoothing offset of reciprocal rank fusion.
pub const RRF_K: u64 = 60;

/// The largest offset, and the largest candidate list, that fusion takes:
/// with these every score and every comparison fits in 128 bits.
pub const FUSION_LIMIT: u64 = 0x1_0000_0000;

/// `r` is the 1-based rank of `x` at its first place in `s`, or `None` where
/// `s` does not hold `x`.
pub open spec fn has_rank(s: Seq<i64>, x: i64, r: Option<u64>) -> bool {
    match r {
        None => !s.contains(x),
        Some(n) => 1 <= n <= s.len() && s[n - 1] == x && forall|j: int|
            0 <= j < n - 1 ==> s[j] != x,
    }
}

/// One path's term of the fused score, as a numerator and a denominator:
/// `1 / (k + rank)`, or 0 where the path did not return the candidate.
pub open spec fn term_num(r: Option<u64>) -> int {
    match r {
        None => 0,
        Some(_) => 1,
    }
}

pub open spec fn term_den(k: int, r: Option<u64>) -> int {
    match r {
        None => 1,
        Some(n) => k + n,
    }
}

/// The fused score `1/(k + a) + 1/(k + b)` as a numerator over a denominator.
pub open spec fn fused_num(k: int, a: Option<u64>, b: Option<u64>) -> int {
    term_num(a) * term_den(k, b) + term_num(b) * term_den(k, a)
}

pub open spec fn fused_den(k: int, a: Option<u64>, b: Option<u64>) -> int {
    term_den(k, a) * term_den(k, b)
}

/// The fraction `n1 / d1` is at least `n2 / d2` (denominators positive).
pub open spec fn frac_ge(n1: int, d1: int, n2: int, d2: int) -> bool {
    n1 * d2 >= n2 * d1
}

/// A candidate of the fused ranking: its identifier, its rank on each path,
/// and its fused score as the fraction `score_num / score_den`.
#[derive(Debug, Clone, Copy, PartialEq, Eq)]
pub struct Fused {
    pub id: i64,
    pub vec_rank: Option<u64>,
    pub lex_rank: Option<u64>,
    pub score_num: u128,
    pub score_den: u128,
}

impl Fused {
    /// The ranks are those of `id` in the two lists and the score is their fusion under `k`.
    pub open spec fn fuses(&self, k: int, vec: Seq<i64>, lex: Seq<i64>) -> bool {
        &&& has_rank(vec, self.id, self.vec_rank)
        &&& has_rank(lex, self.id, self.lex_rank)
        &&& self.score_num == fused_num(k, self.vec_rank, self.lex_rank)
        &&& self.score_den == fused_den(k, self.vec_rank, self.lex_rank)
    }

    /// This candidate scores at least as high as `o`.
    pub open spec fn ranks_over(&self, o: Fused) -> bool {
        frac_ge(self.score_num as int, self.score_den as int, o.score_num as int, o.score_den as int)
    }

    pub open spec fn bounded(&self) -> bool {
        &&& 0 < self.score_den <= 0x40_0000_0000_0000_0000
        &&& self.score_num <= 0x100_0000_0000
    }
}

/// The identifiers of a list of candidates.
pub open spec fn fused_ids(v: Seq<Fused>) -> Seq<i64> {
    v.map_values(|f: Fused| f.id)
}

/// Each candidate scores at least as high as every one after it.
pub open spec fn by_score(v: Seq<Fused>) -> bool {
    forall|i: int, j: int| 0 <= i < j < v.len() ==> (#[trigger] v[i]).ranks_over(#[trigger] v[j])
}

pub open spec fn distinct_ids(v: Seq<Fused>) -> bool {
    forall|i: int, j: int| 0 <= i < j < v.len() ==> (#[trigger] v[i]).id != (#[trigger] v[j]).id
}

proof fn lemma_frac_ge_trans(a: int, b: int, c: int, d: int, e: int, f: int)
    requires
        b > 0,
        d > 0,
        f > 0,
        a * d >= c * b,
        c * f >= e * d,
    ensures
        a * f >= e * b,
{
    assert(a * d * f >= c * b * f) by (nonlinear_arith)
        requires
            a * d >= c * b,
            f > 0,
    ;
    assert(c * f * b >= e * d * b) by (nonlinear_arith)
        requires
            c * f >= e * d,
            b > 0,
    ;
    assert(d * (a * f) >= d * (e * b)) by (nonlinear_arith)
        requires
            a * d * f >= c * b * f,
            c * f * b >= e * d * b,
    ;
    assert(a * f >= e * b) by (nonlinear_arith)
        requires
            d * (a * f) >= d * (e * b),
            d > 0,
    ;
}

proof fn lemma_frac_total(a: int, b: int, c: int, d: int)
    ensures
        frac_ge(a, b, c, d) || frac_ge(c, d, a, b),
{
}

/// Finds the rank of `x` in `s`.
fn rank_in(s: &Vec<i64>, x: i64) -> (r: Option<u64>)
    requires
        s@.len() < FUSION_LIMIT,
    ensures
        has_rank(s@, x, r),
{
    let mut i: usize = 0;
    while i < s.len()
        invariant
            i <= s@.len() < FUSION_LIMIT,
            forall|j: int| 0 <= j < i ==> s@[j] != x,
        decreases s.len() - i,
    {
        if s[i] == x {
            return Some(i as u64 + 1);
        }
        i = i + 1;
    }
    None
}

fn term(k: u64, r: Option<u64>) -> (t: (u128, u128))
    requires
        0 < k <= 0x1_0000_0000,
        r matches Some(n) ==> n <= 0x1_0000_0000,
    ensures
        t.0 as int == term_num(r),
        t.1 as int == term_den(k as int, r),
        0 < t.1 <= 0x2_0000_0000,
{
    match r {
        None => (0, 1),
        Some(n) => (1, k as u128 + n as u128),
    }
}

/// The fused candidate for `id` with the given ranks.
fn fuse_one(k: u64, id: i64, vec_rank: Option<u64>, lex_rank: Option<u64>) -> (f: Fused)
    requires
        0 < k <= FUSION_LIMIT,
        vec_rank matches Some(n) ==> n <= FUSION_LIMIT,
        lex_rank matches Some(n) ==> n <= FUSION_LIMIT,
    ensures
        f.id == id,
        f.vec_rank == vec_rank,
        f.lex_rank == lex_rank,
        f.score_num == fused_num(k as int, vec_rank, lex_rank),
        f.score_den == fused_den(k as int, vec_rank, lex_rank),
        f.bounded(),
{
    let (n1, d1) = term(k, vec_rank);
    let (n2, d2) = term(k, lex_rank);
    assert(n1 * d2 <= 0x2_0000_0000 && n2 * d1 <= 0x2_0000_0000) by (nonlinear_arith)
        requires
            n1 <= 1,
            n2 <= 1,
            d1 <= 0x2_0000_0000,
            d2 <= 0x2_0000_0000,
    ;
    assert(0 < d1 * d2 <= 0x4_0000_0000_0000_0000) by (nonlinear_arith)
        requires
            0 < d1 <= 0x2_0000_0000,
            0 < d2 <= 0x2_0000_0000,
    ;
    Fused { id, vec_rank, lex_rank, score_num: n1 * d2 + n2 * d1, score_den: d1 * d2 }
}

/// Tells whether `a` scores at least as high as `b`.
pub fn ranks_over(a: &Fused, b: &Fused) -> (r: bool)
    requires
        a.bounded(),
        b.bounded(),
    ensures
        r == a.ranks_over(*b),
{
    assert(a.score_num * b.score_den <= 0x100_0000_0000 * 0x40_0000_0000_0000_0000)
        by (nonlinear_arith)
        requires
            a.score_num <= 0x100_0000_0000,
            b.score_den <= 0x40_0000_0000_0000_0000,
    ;
    assert(b.score_num * a.score_den <= 0x100_0000_0000 * 0x40_0000_0000_0000_0000)
        by (nonlinear_arith)
        requires
            b.score_num <= 0x100_0000_0000,
            a.score_den <= 0x40_0000_0000_0000_0000,
    ;
    a.score_num * b.score_den >= b.score_num * a.score_den
}


proof fn lemma_ranks_over_trans(a: Fused, b: Fused, c: Fused)
    requires
        a.bounded(),
        b.bounded(),
        c.bounded(),
        a.ranks_over(b),
        b.ranks_over(c),
    ensures
        a.ranks_over(c),
{
    lemma_frac_ge_trans(
        a.score_num as int,
        a.score_den as int,
        b.score_num as int,
        b.score_den as int,
        c.score_num as int,
        c.score_den as int,
    );
}

proof fn lemma_contains_push(s: Seq<i64>, y: i64, x: i64)
    ensures
        s.push(y).contains(x) <==> (s.contains(x) || x == y),
{
    if s.contains(x) {
        let j = choose|j: int| 0 <= j < s.len() && s[j] == x;
        assert(s.push(y)[j] == x);
    }
    if x == y {
        assert(s.push(y)[s.len() as int] == x);
    }
    if s.push(y).contains(x) {
        let j = choose|j: int| 0 <= j < s.push(y).len() && s.push(y)[j] == x;
        if j < s.len() {
            assert(s[j] == x);
        }
    }
}

fn contains_id(v: &Vec<Fused>, id: i64) -> (r: bool)
    ensures
        r == fused_ids(v@).contains(id),
{
    let mut i: usize = 0;
    while i < v.len()
        invariant
            i <= v@.len(),
            forall|j: int| 0 <= j < i ==> v@[j].id != id,
        decreases v.len() - i,
    {
        if v[i].id == id {
            assert(fused_ids(v@)[i as int] == id);
            return true;
        }
        i = i + 1;
    }
    assert(!fused_ids(v@).contains(id)) by {
        if fused_ids(v@).contains(id) {
            let j = choose|j: int| 0 <= j < fused_ids(v@).len() && fused_ids(v@)[j] == id;
            assert(v@[j].id == id);
        }
    }
    false
}

/// Adds the candidate for `id` to `c` where `c` lacks it, keeping its candidates distinct.
fn add_candidate(c: &mut Vec<Fused>, k: u64, id: i64, vec: &Vec<i64>, lex: &Vec<i64>)
    requires
        0 < k <= FUSION_LIMIT,
        vec@.len() < FUSION_LIMIT,
        lex@.len() < FUSION_LIMIT,
        distinct_ids(old(c)@),
        forall|a: int|
            0 <= a < old(c)@.len() ==> (#[trigger] old(c)@[a]).fuses(k as int, vec@, lex@)
                && old(c)@[a].bounded(),
    ensures
        distinct_ids(final(c)@),
        forall|a: int|
            0 <= a < final(c)@.len() ==> (#[trigger] final(c)@[a]).fuses(k as int, vec@, lex@)
                && final(c)@[a].bounded(),
        forall|x: i64|
            fused_ids(final(c)@).contains(x) <==> (fused_ids(old(c)@).contains(x) || x == id),
{
    if contains_id(c, id) {
        assert forall|x: i64|
            fused_ids(c@).contains(x) <==> (fused_ids(c@).contains(x) || x == id) by {}
        return;
    }
    let ghost c0 = c@;
    let f = fuse_one(k, id, rank_in(vec, id), rank_in(lex, id));
    c.push(f);
    assert(fused_ids(c@) =~= fused_ids(c0).push(id));
    assert forall|x: i64| fused_ids(c@).contains(x) <==> (fused_ids(c0).contains(x) || x == id) by {
        lemma_contains_push(fused_ids(c0), id, x);
    }
    assert forall|a: int, b: int| 0 <= a < b < c@.len() implies (#[trigger] c@[a]).id != (
    #[trigger] c@[b]).id by {
        if b == c0.len() {
            assert(fused_ids(c0)[a] == c0[a].id);
        }
    }
    assert forall|a: int|
        0 <= a < c@.len() implies (#[trigger] c@[a]).fuses(k as int, vec@, lex@) && c@[a].bounded() by {
        if a < c0.len() {
            assert(c@[a] == c0[a]);
        }
    }
}

/// The candidates of both paths once each, vector candidates first.
fn join_candidates(vec: &Vec<i64>, lex: &Vec<i64>, k: u64) -> (r: Vec<Fused>)
    requires
        0 < k <= FUSION_LIMIT,
        vec@.len() < FUSION_LIMIT,
        lex@.len() < FUSION_LIMIT,
    ensures
        distinct_ids(r@),
        forall|a: int|
            0 <= a < r@.len() ==> (#[trigger] r@[a]).fuses(k as int, vec@, lex@) && r@[a].bounded(),
        forall|x: i64| fused_ids(r@).contains(x) <==> (vec@.contains(x) || lex@.contains(x)),
{
    let mut c: Vec<Fused> = Vec::new();
    let mut i: usize = 0;
    while i < vec.len()
        invariant
            0 < k <= FUSION_LIMIT,
            vec@.len() < FUSION_LIMIT,
            lex@.len() < FUSION_LIMIT,
            i <= vec@.len(),
            distinct_ids(c@),
            forall|a: int|
                0 <= a < c@.len() ==> (#[trigger] c@[a]).fuses(k as int, vec@, lex@) && c@[a].bounded(),
            forall|x: i64| fused_ids(c@).contains(x) <==> vec@.take(i as int).contains(x),
        decreases vec.len() - i,
    {
        add_candidate(&mut c, k, vec[i], vec, lex);
        assert(vec@.take(i + 1) =~= vec@.take(i as int).push(vec@[i as int]));
        assert forall|x: i64| fused_ids(c@).contains(x) <==> vec@.take(i + 1).contains(x) by {
            lemma_contains_push(vec@.take(i as int), vec@[i as int], x);
        }
        i = i + 1;
    }
    assert(vec@.take(vec@.len() as int) =~= vec@);
    let mut j: usize = 0;
    while j < lex.len()
        invariant
            0 < k <= FUSION_LIMIT,
            vec@.len() < FUSION_LIMIT,
            lex@.len() < FUSION_LIMIT,
            j <= lex@.len(),
            distinct_ids(c@),
            forall|a: int|
                0 <= a < c@.len() ==> (#[trigger] c@[a]).fuses(k as int, vec@, lex@) && c@[a].bounded(),
            forall|x: i64|
                fused_ids(c@).contains(x) <==> (vec@.contains(x) || lex@.take(j as int).contains(x)),
        decreases lex.len() - j,
    {
        let ghost c0 = c@;
        add_candidate(&mut c, k, lex[j], vec, lex);
        assert(lex@.take(j + 1) =~= lex@.take(j as int).push(lex@[j as int]));
        assert forall|x: i64|
            #![trigger fused_ids(c@).contains(x)]
            fused_ids(c@).contains(x) <==> (vec@.contains(x) || lex@.take(j + 1).contains(x)) by {
            lemma_contains_push(lex@.take(j as int), lex@[j as int], x);
            assert(fused_ids(c0).contains(x) <==> (vec@.contains(x) || lex@.take(j as int).contains(x)));
            assert(fused_ids(c@).contains(x) <==> (fused_ids(c0).contains(x) || x == lex@[j as int]));
        }
        let ghost t1 = lex@.take(j + 1);
        j = j + 1;
        assert(lex@.take(j as int) == t1);
    }
    assert(lex@.take(lex@.len() as int) =~= lex@);
    c
}

/// Orders distinct candidates by score, best first, keeping each candidate.
fn sort_by_score(c: &Vec<Fused>) -> (r: Vec<Fused>)
    requires
        distinct_ids(c@),
        forall|a: int| 0 <= a < c@.len() ==> (#[trigger] c@[a]).bounded(),
    ensures
        r@.len() == c@.len(),
        by_score(r@),
        distinct_ids(r@),
        forall|a: int| 0 <= a < r@.len() ==> c@.contains(#[trigger] r@[a]),
        forall|a: int| 0 <= a < c@.len() ==> r@.contains(#[trigger] c@[a]),
{
    let mut out: Vec<Fused> = Vec::new();
    let mut i: usize = 0;
    while i < c.len()
        invariant
            i <= c@.len(),
            out@.len() == i,
            distinct_ids(c@),
            forall|a: int| 0 <= a < c@.len() ==> (#[trigger] c@[a]).bounded(),
            by_score(out@),
            distinct_ids(out@),
            forall|a: int| 0 <= a < out@.len() ==> (#[trigger] out@[a]).bounded(),
            forall|a: int| 0 <= a < out@.len() ==> c@.take(i as int).contains(#[trigger] out@[a]),
            forall|a: int| 0 <= a < i ==> out@.contains(#[trigger] c@[a]),
        decreases c.len() - i,
    {
        let x = c[i];
        let mut p: usize = 0;
        while p < out.len() && ranks_over(&out[p], &x)
            invariant
                p <= out@.len(),
                x.bounded(),
                forall|a: int| 0 <= a < out@.len() ==> (#[trigger] out@[a]).bounded(),
                forall|a: int| 0 <= a < p ==> (#[trigger] out@[a]).ranks_over(x),
            decreases out.len() - p,
        {
            p = p + 1;
        }
        let ghost o = out@;
        proof {
            assert forall|a: int| p <= a < o.len() implies x.ranks_over(#[trigger] o[a]) by {
                lemma_frac_total(
                    o[p as int].score_num as int,
                    o[p as int].score_den as int,
                    x.score_num as int,
                    x.score_den as int,
                );
                if a > p {
                    assert(o[p as int].ranks_over(o[a]));
                    lemma_ranks_over_trans(x, o[p as int], o[a]);
                }
            }
            assert forall|a: int| 0 <= a < o.len() implies (#[trigger] o[a]).id != x.id by {
                assert(c@.take(i as int).contains(o[a]));
                let j = choose|j: int| 0 <= j < i && c@.take(i as int)[j] == o[a];
                assert(c@[j] == o[a]);
            }
        }
        out.insert(p, x);
        proof {
            let n = out@;
            assert(n == o.insert(p as int, x));
            assert forall|a: int| 0 <= a < n.len() implies #[trigger] n[a] == (if a < p {
                o[a]
            } else if a == p {
                x
            } else {
                o[a - 1]
            }) by {}
            assert forall|a: int, b: int| 0 <= a < b < n.len() implies (#[trigger] n[a]).ranks_over(
                #[trigger] n[b],
            ) by {
                assert(n[a] == (if a < p { o[a] } else if a == p { x } else { o[a - 1] }));
                assert(n[b] == (if b < p { o[b] } else if b == p { x } else { o[b - 1] }));
            }
            assert forall|a: int, b: int| 0 <= a < b < n.len() implies (#[trigger] n[a]).id != (
            #[trigger] n[b]).id by {
                assert(n[a] == (if a < p { o[a] } else if a == p { x } else { o[a - 1] }));
                assert(n[b] == (if b < p { o[b] } else if b == p { x } else { o[b - 1] }));
            }
            assert forall|a: int| 0 <= a < n.len() implies (#[trigger] n[a]).bounded() by {
                assert(n[a] == (if a < p { o[a] } else if a == p { x } else { o[a - 1] }));
            }
            assert forall|a: int| 0 <= a < n.len() implies c@.take(i + 1).contains(#[trigger] n[a]) by {
                assert(n[a] == (if a < p { o[a] } else if a == p { x } else { o[a - 1] }));
                if a == p {
                    assert(c@.take(i + 1)[i as int] == x);
                } else {
                    let b = if a < p { a } else { a - 1 };
                    assert(c@.take(i as int).contains(o[b]));
                    let j = choose|j: int| 0 <= j < i && c@.take(i as int)[j] == o[b];
                    assert(c@.take(i + 1)[j] == o[b]);
                }
            }
            assert forall|a: int| 0 <= a < i + 1 implies n.contains(#[trigger] c@[a]) by {
                if a == i {
                    assert(n[p as int] == x);
                } else {
                    assert(o.contains(c@[a]));
                    let j = choose|j: int| 0 <= j < o.len() && o[j] == c@[a];
                    if j < p {
                        assert(n[j] == c@[a]);
                    } else {
                        assert(n[j + 1] == c@[a]);
                    }
                }
            }
        }
        i = i + 1;
    }
    proof {
        assert(c@.take(c@.len() as int) =~= c@);
    }
    out
}

/// Fuses a vector ranking and a lexical ranking of document identifiers by
/// reciprocal rank fusion with offset `k`: every identifier of either list
/// appears once, with its 1-based rank on each path (none where the path did
/// not return it) and the score `1/(k + vec_rank) + 1/(k + lex_rank)`, a
/// missing path adding nothing; the best score comes first.
pub fn fuse_rankings(vec_ids: &Vec<i64>, lex_ids: &Vec<i64>, k: u64) -> (r: Vec<Fused>)
    requires
        0 < k <= FUSION_LIMIT,
        vec_ids@.len() < FUSION_LIMIT,
        lex_ids@.len() < FUSION_LIMIT,
    ensures
        forall|a: int| 0 <= a < r@.len() ==> (#[trigger] r@[a]).fuses(k as int, vec_ids@, lex_ids@),
        distinct_ids(r@),
        forall|x: i64| fused_ids(r@).contains(x) <==> (vec_ids@.contains(x) || lex_ids@.contains(x)),
        by_score(r@),
{
    let c = join_candidates(vec_ids, lex_ids, k);
    let r = sort_by_score(&c);
    proof {
        assert forall|a: int| 0 <= a < r@.len() implies (#[trigger] r@[a]).fuses(k as int, vec_ids@, lex_ids@) by {
            assert(c@.contains(r@[a]));
        }
        assert forall|x: i64| fused_ids(r@).contains(x) <==> fused_ids(c@).contains(x) by {
            if fused_ids(r@).contains(x) {
                let j = choose|j: int| 0 <= j < fused_ids(r@).len() && fused_ids(r@)[j] == x;
                assert(c@.contains(r@[j]));
                let m = choose|m: int| 0 <= m < c@.len() && c@[m] == r@[j];
                assert(fused_ids(c@)[m] == x);
            }
            if fused_ids(c@).contains(x) {
                let j = choose|j: int| 0 <= j < fused_ids(c@).len() && fused_ids(c@)[j] == x;
                assert(r@.contains(c@[j]));
                let m = choose|m: int| 0 <= m < r@.len() && r@[m] == c@[j];
                assert(fused_ids(r@)[m] == x);
            }
        }
    }
    r
}

/// The `limit` best candidates of the fused ranking, best first: every
/// candidate left out of a full result scores no higher than any kept one,
/// and fewer than `limit` are kept only where every candidate is.
pub fn fuse_top(vec_ids: &Vec<i64>, lex_ids: &Vec<i64>, k: u64, limit: usize) -> (r: Vec<Fused>)
    requires
        0 < k <= FUSION_LIMIT,
        vec_ids@.len() < FUSION_LIMIT,
        lex_ids@.len() < FUSION_LIMIT,
    ensures
        r@.len() <= limit,
        forall|a: int| 0 <= a < r@.len() ==> (#[trigger] r@[a]).fuses(k as int, vec_ids@, lex_ids@),
        distinct_ids(r@),
        by_score(r@),
        forall|x: i64| #[trigger] fused_ids(r@).contains(x) ==> (vec_ids@.contains(x) || lex_ids@.contains(x)),
        r@.len() < limit ==> forall|x: i64|
            (vec_ids@.contains(x) || lex_ids@.contains(x)) ==> #[trigger] fused_ids(r@).contains(x),
        forall|f: Fused, a: int|
            f.fuses(k as int, vec_ids@, lex_ids@) && (vec_ids@.contains(f.id) || lex_ids@.contains(f.id))
                && !fused_ids(r@).contains(f.id) && 0 <= a < r@.len() ==> #[trigger] r@[a].ranks_over(f),
{
    let full = fuse_rankings(vec_ids, lex_ids, k);
    let mut r: Vec<Fused> = Vec::new();
    let mut i: usize = 0;
    while i < full.len() && i < limit
        invariant
            i <= full@.len(),
            i <= limit,
            r@ == full@.take(i as int),
        decreases full.len() - i,
    {
        r.push(full[i]);
        assert(full@.take(i + 1) =~= full@.take(i as int).push(full@[i as int]));
        i = i + 1;
    }
    proof {
        let ghost fv = full@;
        assert forall|x: i64| #[trigger] fused_ids(r@).contains(x) implies fused_ids(fv).contains(x) by {
            let j = choose|j: int| 0 <= j < fused_ids(r@).len() && fused_ids(r@)[j] == x;
            assert(fused_ids(fv)[j] == x);
        }
        if r@.len() < limit {
            assert(r@ =~= fv);
            assert(fused_ids(r@) =~= fused_ids(fv));
        }
        assert forall|f: Fused, a: int|
            f.fuses(k as int, vec_ids@, lex_ids@) && (vec_ids@.contains(f.id) || lex_ids@.contains(f.id))
                && !fused_ids(r@).contains(f.id) && 0 <= a < r@.len() implies #[trigger] r@[a].ranks_over(f) by {
            assert(fused_ids(fv).contains(f.id));
            let j = choose|j: int| 0 <= j < fused_ids(fv).len() && fused_ids(fv)[j] == f.id;
            if j < r@.len() {
                assert(fused_ids(r@)[j] == f.id);
            }
            assert(fv[j].fuses(k as int, vec_ids@, lex_ids@));
            assert(fv[j].vec_rank == f.vec_rank) by {
                assert(has_rank(vec_ids@, f.id, f.vec_rank));
                assert(has_rank(vec_ids@, fv[j].id, fv[j].vec_rank));
            }
            assert(fv[j].lex_rank == f.lex_rank) by {
                assert(has_rank(lex_ids@, f.id, f.lex_rank));
                assert(has_rank(lex_ids@, fv[j].id, fv[j].lex_rank));
            }
            assert(r@[a] == fv[a]);
            assert(fv[a].ranks_over(fv[j]));
        }
    }
    r
}

/// A candidate ranked first on both paths scores strictly higher than one
/// ranked first on one path and not first (or absent) on the other.
pub proof fn lemma_agreement_outranks(k: int, other: Option<u64>)
    requires
        k > 0,
        other matches Some(n) ==> n >= 1,
        other != Some(1u64),
    ensures
        fused_num(k, Some(1u64), Some(1u64)) * fused_den(k, Some(1u64), other) > fused_num(
            k,
            Some(1u64),
            other,
        ) * fused_den(k, Some(1u64), Some(1u64)),
        fused_num(k, Some(1u64), Some(1u64)) * fused_den(k, other, Some(1u64)) > fused_num(
            k,
            other,
            Some(1u64),
        ) * fused_den(k, Some(1u64), Some(1u64)),
{
    let a = k + 1;
    match other {
        None => {
            assert((a + a) * (a * 1) > (1 * 1 + 0 * a) * (a * a)) by (nonlinear_arith)
                requires
                    a > 1,
            ;
            assert((a + a) * (1 * a) > (0 * a + 1 * 1) * (a * a)) by (nonlinear_arith)
                requires
                    a > 1,
            ;
        },
        Some(n) => {
            let b = k + n;
            assert((a + a) * (a * b) > (b + a) * (a * a)) by (nonlinear_arith)
                requires
                    a > 1,
                    b > a,
            ;
            assert((a + a) * (b * a) > (a + b) * (a * a)) by (nonlinear_arith)
                requires
                    a > 1,
                    b > a,
            ;
        },
    }
}

/// In a fused ranking ordered by score, a candidate ranked first on both
/// paths comes before every candidate ranked first on one path only.
pub proof fn lemma_agreement_comes_first(r: Seq<Fused>, k: int, vec: Seq<i64>, lex: Seq<i64>)
    requires
        k > 0,
        by_score(r),
        forall|a: int| 0 <= a < r.len() ==> (#[trigger] r[a]).fuses(k, vec, lex),
    ensures
        forall|i: int, j: int|
            0 <= i < r.len() && 0 <= j < r.len() && r[j].vec_rank == Some(1u64) && r[j].lex_rank
                == Some(1u64) && ((r[i].vec_rank == Some(1u64)) != (r[i].lex_rank == Some(1u64)))
                ==> #[trigger] r[j].id != #[trigger] r[i].id && j < i,
{
    assert forall|i: int, j: int|
        0 <= i < r.len() && 0 <= j < r.len() && r[j].vec_rank == Some(1u64) && r[j].lex_rank == Some(
            1u64,
        ) && ((r[i].vec_rank == Some(1u64)) != (r[i].lex_rank == Some(1u64))) implies #[trigger] r[j].id
        != #[trigger] r[i].id && j < i by {
        assert(r[i].fuses(k, vec, lex));
        assert(r[j].fuses(k, vec, lex));
        if r[i].vec_rank == Some(1u64) {
            lemma_agreement_outranks(k, r[i].lex_rank);
        } else {
            lemma_agreement_outranks(k, r[i].vec_rank);
        }
        if i < j {
            assert(r[i].ranks_over(r[j]));
        }
        if r[j].id == r[i].id {
            assert(r[i].vec_rank == r[j].vec_rank) by {
                assert(has_rank(vec, r[i].id, r[i].vec_rank));
                assert(has_rank(vec, r[j].id, r[j].vec_rank));
            }
            assert(r[i].lex_rank == r[j].lex_rank) by {
                assert(has_rank(lex, r[i].id, r[i].lex_rank));
                assert(has_rank(lex, r[j].id, r[j].lex_rank));
            }
        }
    }
}
} // verus!
