use vstd::prelude::*;
use crate::error::MemoryError;
use crate::fixed::{clamp_to_unit, clamp_unit, Fraction, SCALE};
use crate::memory::{Memory, MemoryCategory, MemoryScope};
use crate::query::{finite_value, HybridWeights, SearchQuery, SearchResult};

verus! {

// ---------------------------------------------------------------------------
// Filters
// ---------------------------------------------------------------------------

/// Whether `m` passes the scope, project, category, creation-time, importance and
/// archival filters of `q`. A memory is left out for a minimum importance above its own,
/// compared as floating-point numbers are (so NaN leaves nothing out).
pub open spec fn passes_filters_spec(m: &Memory, q: &SearchQuery) -> bool {
    &&& (q.scope matches Some(s) ==> m.scope@ == s.name())
    &&& (q.project_id matches Some(p) ==> (m.project_id matches Some(mp) && mp@ == p@))
    &&& (q.categories matches Some(cs) ==> (cs@.len() == 0 || exists|i: int|
        0 <= i < cs@.len() && m.category@ == (#[trigger] cs@[i]).name()))
    &&& (q.created_after matches Some(t) ==> m.created_at >= t)
    &&& (q.min_importance matches Some(f) ==> !f.above(m.importance_score as int))
    &&& (!q.include_decayed ==> !m.archived())
}

fn same_string(a: &String, b: &String) -> (r: bool)
    ensures
        r == (a@ == b@),
{
    <String as PartialEq>::eq(a, b)
}

fn in_categories(category: &String, cs: &Vec<MemoryCategory>) -> (r: bool)
    ensures
        r == exists|i: int| 0 <= i < cs@.len() && category@ == (#[trigger] cs@[i]).name(),
{
    let mut i: usize = 0;
    while i < cs.len()
        invariant
            i <= cs@.len(),
            forall|j: int| 0 <= j < i ==> category@ != (#[trigger] cs@[j]).name(),
        decreases cs@.len() - i,
    {
        let name = String::from_str(cs[i].as_str());
        if same_string(category, &name) {
            return true;
        }
        i = i + 1;
    }
    false
}

/// Whether `memory` passes every filter of `query`.
pub fn passes_filters(memory: &Memory, query: &SearchQuery) -> (r: bool)
    ensures
        r == passes_filters_spec(memory, query),
{
    if let Some(scope) = &query.scope {
        let name = String::from_str(scope.as_str());
        if !same_string(&memory.scope, &name) {
            return false;
        }
    }
    if let Some(project_id) = &query.project_id {
        match &memory.project_id {
            Some(p) => {
                if !same_string(p, project_id) {
                    return false;
                }
            },
            None => {
                return false;
            },
        }
    }
    if let Some(categories) = &query.categories {
        if categories.len() != 0 && !in_categories(&memory.category, categories) {
            return false;
        }
    }
    if let Some(created_after) = query.created_after {
        if memory.created_at < created_after {
            return false;
        }
    }
    if let Some(min_importance) = query.min_importance {
        if min_importance.is_above(memory.importance_score) {
            return false;
        }
    }
    if !query.include_decayed && memory.is_archived() {
        return false;
    }
    true
}

// ---------------------------------------------------------------------------
// Scores
// ---------------------------------------------------------------------------

/// The weights of a search together with which retrieval paths answered.
#[derive(Clone, Copy, Debug)]
pub struct Scoring {
    /// The weights to score with.
    pub weights: HybridWeights,
    /// Whether the semantic path (query embedding and vector search) answered.
    pub semantic_ok: bool,
    /// Whether the BM25 path answered.
    pub bm25_ok: bool,
}

/// The weight that a path carries: its finite value (`0` for one that is not finite), or
/// `0` when the path failed.
pub open spec fn live_weight(f: Fraction, ok: bool) -> int {
    if ok {
        finite_value(f)
    } else {
        0
    }
}

/// The weighted sum of the three scores, in millionths of millionths: a failed path weighs
/// nothing; the recency score is always at hand.
pub open spec fn weighted_sum(sc: Scoring, semantic: int, bm25: int, temporal: int) -> int {
    live_weight(sc.weights.semantic, sc.semantic_ok) * semantic + live_weight(
        sc.weights.bm25,
        sc.bm25_ok,
    ) * bm25 + finite_value(sc.weights.temporal) * temporal
}

/// The total weight of the paths that answered.
pub open spec fn live_total(sc: Scoring) -> int {
    live_weight(sc.weights.semantic, sc.semantic_ok) + live_weight(sc.weights.bm25, sc.bm25_ok)
        + finite_value(sc.weights.temporal)
}

/// What the weighted sum is divided by: `1.0` when both paths answered; when one failed,
/// the total weight of the paths that remain, so that their weights are re-normalized to sum
/// to `1.0` (unless that total is not positive: then the weights stand as they are).
pub open spec fn score_divisor(sc: Scoring) -> int {
    if (sc.semantic_ok && sc.bm25_ok) || live_total(sc) <= 0 {
        SCALE as int
    } else {
        live_total(sc)
    }
}

/// The final score: `semantic·s + bm25·b + temporal·t` with the (re-normalized) weights,
/// within `[0.0, 1.0]`.
pub open spec fn fused_score(sc: Scoring, semantic: int, bm25: int, temporal: int) -> int {
    clamp_unit(weighted_sum(sc, semantic, bm25, temporal) / score_divisor(sc))
}

fn live_weight_of(f: Fraction, ok: bool) -> (r: i128)
    ensures
        r == live_weight(f, ok),
        i64::MIN <= r <= i64::MAX,
{
    if !ok {
        return 0;
    }
    match f {
        Fraction::Finite(v) => v as i128,
        _ => 0,
    }
}

proof fn lemma_term_bounds(w: int, s: int)
    requires
        i64::MIN <= w <= i64::MAX,
        0 <= s <= SCALE,
    ensures
        -0x8000_0000_0000_0000 * 1_000_000 <= w * s <= 0x7fff_ffff_ffff_ffff * 1_000_000,
{
    assert(-0x8000_0000_0000_0000 * 1_000_000 <= w * s <= 0x7fff_ffff_ffff_ffff * 1_000_000)
        by (nonlinear_arith)
        requires
            -0x8000_0000_0000_0000 <= w <= 0x7fff_ffff_ffff_ffff,
            0 <= s <= 1_000_000,
    ;
}

/// The final score of one candidate, in millionths.
pub fn fuse_scores(sc: &Scoring, semantic: i64, bm25: i64, temporal: i64) -> (r: i64)
    requires
        0 <= semantic <= SCALE,
        0 <= bm25 <= SCALE,
        0 <= temporal <= SCALE,
    ensures
        r == fused_score(*sc, semantic as int, bm25 as int, temporal as int),
        0 <= r <= SCALE,
{
    let a = live_weight_of(sc.weights.semantic, sc.semantic_ok);
    let b = live_weight_of(sc.weights.bm25, sc.bm25_ok);
    let c = live_weight_of(sc.weights.temporal, true);
    proof {
        lemma_term_bounds(a as int, semantic as int);
        lemma_term_bounds(b as int, bm25 as int);
        lemma_term_bounds(c as int, temporal as int);
    }
    let n: i128 = a * (semantic as i128) + b * (bm25 as i128) + c * (temporal as i128);
    let total: i128 = a + b + c;
    let d: i128 = if (sc.semantic_ok && sc.bm25_ok) || total <= 0 {
        SCALE as i128
    } else {
        total
    };
    assert(d == score_divisor(*sc));
    assert(n == weighted_sum(*sc, semantic as int, bm25 as int, temporal as int));
    if n <= 0 {
        assert(n / d <= 0) by (nonlinear_arith)
            requires
                n <= 0,
                d > 0,
        ;
        return 0;
    }
    let q: i128 = n / d;
    if q > SCALE as i128 {
        SCALE
    } else {
        q as i64
    }
}

// ---------------------------------------------------------------------------
// Candidates and their scores
// ---------------------------------------------------------------------------

/// The first score that the semantic results give for `vector_id`, looking from index `i` on.
pub open spec fn vector_score_from(results: Seq<(i64, i64)>, vector_id: i64, i: int) -> Option<i64>
    decreases results.len() - i,
{
    if i < 0 || i >= results.len() {
        None
    } else if results[i].0 == vector_id {
        Some(results[i].1)
    } else {
        vector_score_from(results, vector_id, i + 1)
    }
}

/// The first score that the BM25 results give for the memory `id`, looking from index `i` on.
pub open spec fn text_score_from(results: Seq<(String, i64)>, id: Seq<char>, i: int) -> Option<i64>
    decreases results.len() - i,
{
    if i < 0 || i >= results.len() {
        None
    } else if results[i].0@ == id {
        Some(results[i].1)
    } else {
        text_score_from(results, id, i + 1)
    }
}

/// The semantic score of a memory: its first semantic hit clamped to `[0.0, 1.0]`, or `0`.
/// A negative similarity thus cannot pull down a lexical match.
pub open spec fn semantic_score_spec(results: Seq<(i64, i64)>, m: Memory) -> int {
    match vector_score_from(results, m.vector_id, 0) {
        Some(v) => clamp_unit(v as int),
        None => 0,
    }
}

/// The BM25 score of a memory: its first BM25 hit clamped to `[0.0, 1.0]`, or `0`.
pub open spec fn bm25_score_spec(results: Seq<(String, i64)>, m: Memory) -> int {
    match text_score_from(results, m.id@, 0) {
        Some(v) => clamp_unit(v as int),
        None => 0,
    }
}

/// The search result that a candidate memory becomes.
pub open spec fn result_for(
    sc: Scoring,
    semantic: Seq<(i64, i64)>,
    bm25: Seq<(String, i64)>,
    m: Memory,
    temporal: i64,
) -> SearchResult {
    let s = semantic_score_spec(semantic, m);
    let b = bm25_score_spec(bm25, m);
    let t = clamp_unit(temporal as int);
    SearchResult {
        memory: m,
        score_final: fused_score(sc, s, b, t) as i64,
        score_semantic: s as i64,
        score_bm25: b as i64,
        score_temporal: t as i64,
    }
}

/// The results that the first `n` candidates give, in candidate order, leaving out those that
/// fail the filters of `q`.
pub open spec fn scored_prefix(
    q: SearchQuery,
    sc: Scoring,
    semantic: Seq<(i64, i64)>,
    bm25: Seq<(String, i64)>,
    memories: Seq<Memory>,
    temporal: Seq<i64>,
    n: int,
) -> Seq<SearchResult>
    decreases n,
{
    if n <= 0 {
        Seq::empty()
    } else {
        let prev = scored_prefix(q, sc, semantic, bm25, memories, temporal, n - 1);
        if passes_filters_spec(&memories[n - 1], &q) {
            prev.push(result_for(sc, semantic, bm25, memories[n - 1], temporal[n - 1]))
        } else {
            prev
        }
    }
}

/// The results of all candidates, in candidate order.
pub open spec fn scored(
    q: SearchQuery,
    sc: Scoring,
    semantic: Seq<(i64, i64)>,
    bm25: Seq<(String, i64)>,
    memories: Seq<Memory>,
    temporal: Seq<i64>,
) -> Seq<SearchResult> {
    scored_prefix(q, sc, semantic, bm25, memories, temporal, memories.len() as int)
}

/// Where a result with final score `key` goes in `r`, looking from index `i` on: before the
/// first result that scores less.
pub open spec fn insert_pos_from(r: Seq<SearchResult>, key: i64, i: int) -> int
    decreases r.len() - i,
{
    if i < 0 || i >= r.len() {
        r.len() as int
    } else if r[i].score_final < key {
        i
    } else {
        insert_pos_from(r, key, i + 1)
    }
}

/// `s` sorted by final score, highest first; results that score the same keep their order.
pub open spec fn sort_desc(s: Seq<SearchResult>) -> Seq<SearchResult>
    decreases s.len(),
{
    if s.len() == 0 {
        s
    } else {
        let r = sort_desc(s.drop_last());
        r.insert(insert_pos_from(r, s.last().score_final, 0), s.last())
    }
}

/// The results of a search: the candidates that pass the filters, scored, sorted by final
/// score (highest first, ties in candidate order), at most `q.top_k` of them.
pub open spec fn ranked(
    q: SearchQuery,
    sc: Scoring,
    semantic: Seq<(i64, i64)>,
    bm25: Seq<(String, i64)>,
    memories: Seq<Memory>,
    temporal: Seq<i64>,
) -> Seq<SearchResult> {
    let all = sort_desc(scored(q, sc, semantic, bm25, memories, temporal));
    if q.top_k < all.len() {
        all.take(q.top_k as int)
    } else {
        all
    }
}

fn semantic_score(results: &Vec<(i64, i64)>, m: &Memory) -> (r: i64)
    ensures
        r == semantic_score_spec(results@, *m),
        0 <= r <= SCALE,
{
    let mut i: usize = 0;
    while i < results.len()
        invariant
            i <= results@.len(),
            vector_score_from(results@, m.vector_id, 0) == vector_score_from(
                results@,
                m.vector_id,
                i as int,
            ),
        decreases results@.len() - i,
    {
        if results[i].0 == m.vector_id {
            return clamp_to_unit(results[i].1);
        }
        i = i + 1;
    }
    0
}

fn bm25_score(results: &Vec<(String, i64)>, m: &Memory) -> (r: i64)
    ensures
        r == bm25_score_spec(results@, *m),
        0 <= r <= SCALE,
{
    let mut i: usize = 0;
    while i < results.len()
        invariant
            i <= results@.len(),
            text_score_from(results@, m.id@, 0) == text_score_from(results@, m.id@, i as int),
        decreases results@.len() - i,
    {
        if same_string(&results[i].0, &m.id) {
            return clamp_to_unit(results[i].1);
        }
        i = i + 1;
    }
    0
}

proof fn lemma_insert_pos(r: Seq<SearchResult>, key: i64, i: int)
    requires
        0 <= i <= r.len(),
    ensures
        i <= insert_pos_from(r, key, i) <= r.len(),
        forall|j: int| i <= j < insert_pos_from(r, key, i) ==> (#[trigger] r[j]).score_final >= key,
        insert_pos_from(r, key, i) < r.len() ==> r[insert_pos_from(r, key, i)].score_final < key,
    decreases r.len() - i,
{
    if i < r.len() && r[i].score_final >= key {
        lemma_insert_pos(r, key, i + 1);
    }
}

fn insert_position(r: &Vec<SearchResult>, key: i64) -> (p: usize)
    ensures
        p == insert_pos_from(r@, key, 0),
        p <= r@.len(),
{
    proof {
        lemma_insert_pos(r@, key, 0);
    }
    let mut i: usize = 0;
    while i < r.len()
        invariant
            i <= r@.len(),
            insert_pos_from(r@, key, 0) == insert_pos_from(r@, key, i as int),
        decreases r@.len() - i,
    {
        if r[i].score_final < key {
            return i;
        }
        i = i + 1;
    }
    i
}

/// Scores the candidate memories (with `temporal[i]` the recency score of `memories[i]`),
/// keeps those that pass the filters of `query`, sorts them by final score, highest first,
/// and returns at most `query.top_k` of them.
pub fn rank_candidates(
    query: &SearchQuery,
    scoring: &Scoring,
    semantic: &Vec<(i64, i64)>,
    bm25: &Vec<(String, i64)>,
    memories: Vec<Memory>,
    temporal: &Vec<i64>,
) -> (r: Vec<SearchResult>)
    requires
        memories@.len() == temporal@.len(),
    ensures
        r@ == ranked(*query, *scoring, semantic@, bm25@, memories@, temporal@),
{
    let ghost ms = memories@;
    let n = memories.len();
    let mut rest = memories;
    let mut out: Vec<SearchResult> = Vec::new();
    let mut i: usize = 0;
    while i < n
        invariant
            i <= n,
            n == ms.len(),
            n == temporal@.len(),
            rest@ == ms.subrange(i as int, n as int),
            out@ == sort_desc(
                scored_prefix(*query, *scoring, semantic@, bm25@, ms, temporal@, i as int),
            ),
        decreases n - i,
    {
        let ghost before = scored_prefix(*query, *scoring, semantic@, bm25@, ms, temporal@, i as int);
        let m = rest.remove(0);
        assert(m == ms[i as int]);
        if passes_filters(&m, query) {
            let s = semantic_score(semantic, &m);
            let b = bm25_score(bm25, &m);
            let t = clamp_to_unit(temporal[i]);
            let f = fuse_scores(scoring, s, b, t);
            let res = SearchResult {
                memory: m,
                score_final: f,
                score_semantic: s,
                score_bm25: b,
                score_temporal: t,
            };
            let p = insert_position(&out, f);
            out.insert(p, res);
            proof {
                let after = before.push(res);
                assert(after.drop_last() =~= before);
                assert(res == result_for(*scoring, semantic@, bm25@, ms[i as int], temporal@[i as int]));
            }
        }
        assert(rest@ =~= ms.subrange(i + 1, n as int));
        i = i + 1;
    }
    if query.top_k < out.len() {
        out.truncate(query.top_k);
    }
    out
}


// ---------------------------------------------------------------------------
// Laws of the ranking
// ---------------------------------------------------------------------------

/// Results in order of final score, highest first.
pub open spec fn sorted_by_score(r: Seq<SearchResult>) -> bool {
    forall|i: int, j: int| 0 <= i < j < r.len() ==> r[i].score_final >= r[j].score_final
}

/// A result that passes the filters of `q` and whose scores all lie in `[0.0, 1.0]`.
pub open spec fn sound_result(x: SearchResult, q: SearchQuery) -> bool {
    &&& passes_filters_spec(&x.memory, &q)
    &&& 0 <= x.score_final <= SCALE
    &&& 0 <= x.score_semantic <= SCALE
    &&& 0 <= x.score_bm25 <= SCALE
    &&& 0 <= x.score_temporal <= SCALE
}

proof fn lemma_sort_desc_sorted(s: Seq<SearchResult>)
    ensures
        sorted_by_score(sort_desc(s)),
        sort_desc(s).len() == s.len(),
    decreases s.len(),
{
    if s.len() > 0 {
        let r = sort_desc(s.drop_last());
        lemma_sort_desc_sorted(s.drop_last());
        let x = s.last();
        let p = insert_pos_from(r, x.score_final, 0);
        lemma_insert_pos(r, x.score_final, 0);
        let t = r.insert(p, x);
        assert forall|j: int| p <= j < r.len() implies (#[trigger] r[j]).score_final
            < x.score_final by {
            assert(r[p].score_final >= r[j].score_final);
        }
        assert forall|i: int, j: int| 0 <= i < j < t.len() implies t[i].score_final
            >= t[j].score_final by {
            if j < p {
            } else if j == p {
            } else if i < p {
                assert(t[j] == r[j - 1]);
            } else if i == p {
                assert(t[j] == r[j - 1]);
            } else {
                assert(t[i] == r[i - 1]);
                assert(t[j] == r[j - 1]);
            }
        }
    }
}

proof fn lemma_sort_desc_permutes(s: Seq<SearchResult>)
    ensures
        sort_desc(s).to_multiset() == s.to_multiset(),
    decreases s.len(),
{
    broadcast use vstd::seq_lib::group_to_multiset_ensures;

    if s.len() > 0 {
        let r = sort_desc(s.drop_last());
        lemma_sort_desc_permutes(s.drop_last());
        lemma_sort_desc_sorted(s.drop_last());
        let x = s.last();
        let p = insert_pos_from(r, x.score_final, 0);
        lemma_insert_pos(r, x.score_final, 0);
        assert(s =~= s.drop_last().push(x));
        vstd::seq_lib::to_multiset_insert(r, p, x);
        vstd::seq_lib::to_multiset_build(s.drop_last(), x);
    }
}

proof fn lemma_scored_prefix_sound(
    q: SearchQuery,
    sc: Scoring,
    semantic: Seq<(i64, i64)>,
    bm25: Seq<(String, i64)>,
    memories: Seq<Memory>,
    temporal: Seq<i64>,
    n: int,
)
    ensures
        forall|i: int|
            0 <= i < scored_prefix(q, sc, semantic, bm25, memories, temporal, n).len()
                ==> sound_result(
                #[trigger] scored_prefix(q, sc, semantic, bm25, memories, temporal, n)[i],
                q,
            ),
        scored_prefix(q, sc, semantic, bm25, memories, temporal, n).len() <= if n < 0 {
            0
        } else {
            n
        },
    decreases n,
{
    if n > 0 {
        lemma_scored_prefix_sound(q, sc, semantic, bm25, memories, temporal, n - 1);
    }
}

/// The hybrid ranking returns at most `top_k` results, best first: each one passes the
/// filters of the query and scores within `[0.0, 1.0]`; the results are drawn from the
/// scored candidates without repetition beyond theirs; exactly `min(top_k, n)` come back
/// where `n` candidates pass the filters; and a candidate that was left out scores no higher
/// than any result that was returned.
pub proof fn lemma_ranking_returns_best(
    q: SearchQuery,
    sc: Scoring,
    semantic: Seq<(i64, i64)>,
    bm25: Seq<(String, i64)>,
    memories: Seq<Memory>,
    temporal: Seq<i64>,
)
    ensures
        ({
            let all = scored(q, sc, semantic, bm25, memories, temporal);
            let r = ranked(q, sc, semantic, bm25, memories, temporal);
            &&& r.len() == if q.top_k < all.len() {
                q.top_k as int
            } else {
                all.len() as int
            }
            &&& sorted_by_score(r)
            &&& forall|i: int| 0 <= i < r.len() ==> sound_result(#[trigger] r[i], q)
            &&& r.to_multiset().subset_of(all.to_multiset())
            &&& forall|x: SearchResult|
                r.to_multiset().count(x) < #[trigger] all.to_multiset().count(x) ==> forall|i: int|
                    0 <= i < r.len() ==> x.score_final <= (#[trigger] r[i]).score_final
        }),
{
    broadcast use vstd::seq_lib::group_to_multiset_ensures;

    let all = scored(q, sc, semantic, bm25, memories, temporal);
    let sorted = sort_desc(all);
    let r = ranked(q, sc, semantic, bm25, memories, temporal);
    lemma_sort_desc_sorted(all);
    lemma_sort_desc_permutes(all);
    lemma_scored_prefix_sound(q, sc, semantic, bm25, memories, temporal, memories.len() as int);
    let k = if q.top_k < sorted.len() {
        q.top_k as int
    } else {
        sorted.len() as int
    };
    assert(r =~= sorted.take(k));
    let rest = sorted.skip(k);
    assert(sorted =~= r + rest);
    vstd::seq_lib::lemma_multiset_commutative(r, rest);
    assert forall|i: int| 0 <= i < r.len() implies sound_result(#[trigger] r[i], q) by {
        assert(r[i] == sorted[i]);
        assert(sorted.to_multiset().count(sorted[i]) > 0);
        assert(all.contains(sorted[i]));
        let j = choose|j: int| 0 <= j < all.len() && all[j] == sorted[i];
        assert(sound_result(all[j], q));
    }
    assert forall|x: SearchResult|
        r.to_multiset().count(x) < #[trigger] all.to_multiset().count(x) implies forall|i: int|
        0 <= i < r.len() ==> x.score_final <= (#[trigger] r[i]).score_final by {
        assert(rest.to_multiset().count(x) > 0);
        assert(rest.contains(x));
        let j = choose|j: int| 0 <= j < rest.len() && rest[j] == x;
        assert forall|i: int| 0 <= i < r.len() implies x.score_final <= (
        #[trigger] r[i]).score_final by {
            assert(sorted[k + j] == x);
            assert(sorted[i] == r[i]);
        }
    }
}


proof fn lemma_text_score_first(results: Seq<(String, i64)>, id: Seq<char>, i: int)
    requires
        0 <= i <= results.len(),
    ensures
        (forall|j: int| i <= j < results.len() ==> (#[trigger] results[j]).0@ != id)
            ==> text_score_from(results, id, i) is None,
        forall|j: int|
            i <= j < results.len() && (#[trigger] results[j]).0@ == id && (forall|k: int|
                i <= k < j ==> (#[trigger] results[k]).0@ != id) ==> text_score_from(results, id, i)
                == Some(results[j].1),
    decreases results.len() - i,
{
    if i < results.len() {
        lemma_text_score_first(results, id, i + 1);
        if results[i].0@ != id {
            assert forall|j: int|
                i <= j < results.len() && (#[trigger] results[j]).0@ == id && (forall|k: int|
                    i <= k < j ==> (#[trigger] results[k]).0@ != id) implies text_score_from(
                results,
                id,
                i,
            ) == Some(results[j].1) by {
                assert(j != i);
                assert forall|k: int| i + 1 <= k < j implies (#[trigger] results[k]).0@ != id by {}
            }
        } else {
            assert forall|j: int|
                i <= j < results.len() && (#[trigger] results[j]).0@ == id && (forall|k: int|
                    i <= k < j ==> (#[trigger] results[k]).0@ != id) implies text_score_from(
                results,
                id,
                i,
            ) == Some(results[j].1) by {
                if j > i {
                    assert(results[i].0@ != id);
                }
            }
        }
    }
}

proof fn lemma_vector_score_first(results: Seq<(i64, i64)>, id: i64, i: int)
    requires
        0 <= i <= results.len(),
    ensures
        (forall|j: int| i <= j < results.len() ==> (#[trigger] results[j]).0 != id)
            ==> vector_score_from(results, id, i) is None,
        forall|j: int|
            i <= j < results.len() && (#[trigger] results[j]).0 == id && (forall|k: int|
                i <= k < j ==> (#[trigger] results[k]).0 != id) ==> vector_score_from(results, id, i)
                == Some(results[j].1),
    decreases results.len() - i,
{
    if i < results.len() {
        lemma_vector_score_first(results, id, i + 1);
        if results[i].0 != id {
            assert forall|j: int|
                i <= j < results.len() && (#[trigger] results[j]).0 == id && (forall|k: int|
                    i <= k < j ==> (#[trigger] results[k]).0 != id) implies vector_score_from(
                results,
                id,
                i,
            ) == Some(results[j].1) by {
                assert(j != i);
                assert forall|k: int| i + 1 <= k < j implies (#[trigger] results[k]).0 != id by {}
            }
        } else {
            assert forall|j: int|
                i <= j < results.len() && (#[trigger] results[j]).0 == id && (forall|k: int|
                    i <= k < j ==> (#[trigger] results[k]).0 != id) implies vector_score_from(
                results,
                id,
                i,
            ) == Some(results[j].1) by {
                if j > i {
                    assert(results[i].0 != id);
                }
            }
        }
    }
}

proof fn lemma_scored_prefix_origin(
    q: SearchQuery,
    sc: Scoring,
    semantic: Seq<(i64, i64)>,
    bm25: Seq<(String, i64)>,
    memories: Seq<Memory>,
    temporal: Seq<i64>,
    n: int,
)
    ensures
        forall|i: int|
            #![trigger scored_prefix(q, sc, semantic, bm25, memories, temporal, n)[i]]
            0 <= i < scored_prefix(q, sc, semantic, bm25, memories, temporal, n).len()
                ==> exists|j: int|
                0 <= j < n && #[trigger] result_for(sc, semantic, bm25, memories[j], temporal[j])
                    == scored_prefix(q, sc, semantic, bm25, memories, temporal, n)[i],
    decreases n,
{
    if n > 0 {
        lemma_scored_prefix_origin(q, sc, semantic, bm25, memories, temporal, n - 1);
        let prev = scored_prefix(q, sc, semantic, bm25, memories, temporal, n - 1);
        let cur = scored_prefix(q, sc, semantic, bm25, memories, temporal, n);
        assert forall|i: int| #![trigger cur[i]] 0 <= i < cur.len() implies exists|j: int|
            0 <= j < n && #[trigger] result_for(sc, semantic, bm25, memories[j], temporal[j])
                == cur[i] by {
            if i < prev.len() {
                assert(cur[i] == prev[i]);
                let j = choose|j: int|
                    0 <= j < n - 1 && #[trigger] result_for(
                        sc,
                        semantic,
                        bm25,
                        memories[j],
                        temporal[j],
                    ) == prev[i];
                assert(result_for(sc, semantic, bm25, memories[j], temporal[j]) == cur[i]);
            } else {
                assert(cur[i] == result_for(sc, semantic, bm25, memories[n - 1], temporal[n - 1]));
            }
        }
    }
}

/// Each result reports the scores of its own memory's hits: its BM25 score is that of the
/// first BM25 hit with the memory's id, and its semantic score that of the first semantic hit
/// with the memory's vector id, each clamped to `[0.0, 1.0]`, or `0` where there is no such
/// hit; its recency score is its candidate's recency score clamped to `[0.0, 1.0]`.
pub proof fn lemma_results_report_their_own_hits(
    q: SearchQuery,
    sc: Scoring,
    semantic: Seq<(i64, i64)>,
    bm25: Seq<(String, i64)>,
    memories: Seq<Memory>,
    temporal: Seq<i64>,
)
    requires
        memories.len() == temporal.len(),
    ensures
        forall|i: int|
            0 <= i < ranked(q, sc, semantic, bm25, memories, temporal).len() ==> {
                let x = #[trigger] ranked(q, sc, semantic, bm25, memories, temporal)[i];
                &&& forall|j: int|
                    0 <= j < bm25.len() && (#[trigger] bm25[j]).0@ == x.memory.id@ && (forall|k: int|
                        0 <= k < j ==> (#[trigger] bm25[k]).0@ != x.memory.id@) ==> x.score_bm25
                        == clamp_unit(bm25[j].1 as int)
                &&& (forall|j: int| 0 <= j < bm25.len() ==> (#[trigger] bm25[j]).0@ != x.memory.id@)
                    ==> x.score_bm25 == 0
                &&& forall|j: int|
                    0 <= j < semantic.len() && (#[trigger] semantic[j]).0 == x.memory.vector_id && (
                    forall|k: int|
                        0 <= k < j ==> (#[trigger] semantic[k]).0 != x.memory.vector_id)
                        ==> x.score_semantic == clamp_unit(semantic[j].1 as int)
                &&& (forall|j: int|
                    0 <= j < semantic.len() ==> (#[trigger] semantic[j]).0 != x.memory.vector_id)
                    ==> x.score_semantic == 0
                &&& exists|j: int|
                    0 <= j < memories.len() && memories[j] == x.memory && x.score_temporal
                        == clamp_unit(#[trigger] temporal[j] as int)
            },
{
    broadcast use vstd::seq_lib::group_to_multiset_ensures;

    let all = scored(q, sc, semantic, bm25, memories, temporal);
    let r = ranked(q, sc, semantic, bm25, memories, temporal);
    lemma_ranking_returns_best(q, sc, semantic, bm25, memories, temporal);
    lemma_scored_prefix_origin(q, sc, semantic, bm25, memories, temporal, memories.len() as int);
    assert forall|i: int| 0 <= i < r.len() implies {
        let x = #[trigger] r[i];
        &&& forall|j: int|
            0 <= j < bm25.len() && (#[trigger] bm25[j]).0@ == x.memory.id@ && (forall|k: int|
                0 <= k < j ==> (#[trigger] bm25[k]).0@ != x.memory.id@) ==> x.score_bm25
                == clamp_unit(bm25[j].1 as int)
        &&& (forall|j: int| 0 <= j < bm25.len() ==> (#[trigger] bm25[j]).0@ != x.memory.id@)
            ==> x.score_bm25 == 0
        &&& forall|j: int|
            0 <= j < semantic.len() && (#[trigger] semantic[j]).0 == x.memory.vector_id && (
            forall|k: int| 0 <= k < j ==> (#[trigger] semantic[k]).0 != x.memory.vector_id)
                ==> x.score_semantic == clamp_unit(semantic[j].1 as int)
        &&& (forall|j: int|
            0 <= j < semantic.len() ==> (#[trigger] semantic[j]).0 != x.memory.vector_id)
            ==> x.score_semantic == 0
        &&& exists|j: int|
            0 <= j < memories.len() && memories[j] == x.memory && x.score_temporal == clamp_unit(
                #[trigger] temporal[j] as int,
            )
    } by {
        let x = r[i];
        assert(r.to_multiset().count(x) > 0);
        assert(all.to_multiset().count(x) > 0);
        assert(all.contains(x));
        let a = choose|a: int| 0 <= a < all.len() && all[a] == x;
        let j = choose|j: int|
            0 <= j < memories.len() && #[trigger] result_for(
                sc,
                semantic,
                bm25,
                memories[j],
                temporal[j],
            ) == all[a];
        let m = memories[j];
        assert(x.memory == m);
        lemma_text_score_first(bm25, m.id@, 0);
        lemma_vector_score_first(semantic, m.vector_id, 0);
        assert(x.score_temporal == clamp_unit(temporal[j] as int));
    }
}

/// When the query names a project, only memories of that very project pass the filters: a
/// memory without a project id, or with another one, is left out.
pub proof fn lemma_project_filter_keeps_only_that_project(m: Memory, q: SearchQuery)
    requires
        q.project_id is Some,
    ensures
        passes_filters_spec(&m, &q) ==> (m.project_id is Some && m.project_id->0@
            == q.project_id->0@),
        m.project_id is None ==> !passes_filters_spec(&m, &q),
{
}

/// Each filter of a query leaves out the memories that fail it: another scope, a creation
/// before `created_after`, an importance below a finite minimum (or any importance for a
/// minimum of positive infinity), a category outside a non-empty category list, and,
/// unless decayed memories are asked for, a retention below `0.1`. A query without any
/// filter that includes decayed memories lets every memory through.
pub proof fn lemma_filters_leave_out_what_fails_them(m: Memory, q: SearchQuery)
    ensures
        q.scope matches Some(s) && m.scope@ != s.name() ==> !passes_filters_spec(&m, &q),
        q.created_after matches Some(t) && m.created_at < t ==> !passes_filters_spec(&m, &q),
        q.min_importance matches Some(Fraction::Finite(v)) && m.importance_score < v
            ==> !passes_filters_spec(&m, &q),
        q.min_importance == Some(Fraction::PosInf) ==> !passes_filters_spec(&m, &q),
        q.categories matches Some(cs) && cs@.len() > 0 && (forall|i: int|
            0 <= i < cs@.len() ==> m.category@ != (#[trigger] cs@[i]).name())
            ==> !passes_filters_spec(&m, &q),
        !q.include_decayed && m.retention_factor < 100_000 ==> !passes_filters_spec(&m, &q),
        q.scope is None && q.project_id is None && q.categories is None && q.created_after is None
            && q.min_importance is None && q.include_decayed ==> passes_filters_spec(&m, &q),
{
}

/// When a retrieval path fails, the weights of the paths that remain are re-normalized to
/// sum to `1.0` (where they carry positive weight): a memory that scores `x` on every path
/// still at hand scores exactly `x`, so a healthy fallback path is not capped by its partial
/// weight; and what a failed path would have scored does not matter.
pub proof fn lemma_remaining_paths_renormalized(
    sc: Scoring,
    x: int,
    s: int,
    s2: int,
    b: int,
    b2: int,
    t: int,
)
    requires
        !(sc.semantic_ok && sc.bm25_ok),
        live_total(sc) > 0,
        0 <= x <= SCALE,
    ensures
        fused_score(
            sc,
            if sc.semantic_ok {
                x
            } else {
                s
            },
            if sc.bm25_ok {
                x
            } else {
                b
            },
            x,
        ) == x,
        !sc.semantic_ok ==> fused_score(sc, s, b, t) == fused_score(sc, s2, b, t),
        !sc.bm25_ok ==> fused_score(sc, s, b, t) == fused_score(sc, s, b2, t),
{
    let d = live_total(sc);
    let xs = if sc.semantic_ok {
        x
    } else {
        s
    };
    let xb = if sc.bm25_ok {
        x
    } else {
        b
    };
    let ws = live_weight(sc.weights.semantic, sc.semantic_ok);
    let wb = live_weight(sc.weights.bm25, sc.bm25_ok);
    let wt = finite_value(sc.weights.temporal);
    assert(ws * xs == ws * x) by {
        if !sc.semantic_ok {
            assert(ws == 0);
        }
    }
    assert(wb * xb == wb * x) by {
        if !sc.bm25_ok {
            assert(wb == 0);
        }
    }
    assert(ws * x + wb * x + wt * x == d * x) by (nonlinear_arith)
        requires
            d == ws + wb + wt,
    ;
    assert((d * x) / d == x) by (nonlinear_arith)
        requires
            d > 0,
    ;
    assert(score_divisor(sc) == d);
}

/// With weights that are not negative, the final score never falls when a semantic, BM25 or
/// recency score rises.
pub proof fn lemma_fused_score_monotone(
    sc: Scoring,
    s1: int,
    b1: int,
    t1: int,
    s2: int,
    b2: int,
    t2: int,
)
    requires
        sc.weights.all_non_negative(),
        0 <= s1 <= s2,
        0 <= b1 <= b2,
        0 <= t1 <= t2,
    ensures
        fused_score(sc, s1, b1, t1) <= fused_score(sc, s2, b2, t2),
{
    let ws = live_weight(sc.weights.semantic, sc.semantic_ok);
    let wb = live_weight(sc.weights.bm25, sc.bm25_ok);
    let wt = finite_value(sc.weights.temporal);
    let n1 = weighted_sum(sc, s1, b1, t1);
    let n2 = weighted_sum(sc, s2, b2, t2);
    let d = score_divisor(sc);
    assert(n1 <= n2) by (nonlinear_arith)
        requires
            0 <= ws,
            0 <= wb,
            0 <= wt,
            0 <= s1 <= s2,
            0 <= b1 <= b2,
            0 <= t1 <= t2,
            n1 == ws * s1 + wb * b1 + wt * t1,
            n2 == ws * s2 + wb * b2 + wt * t2,
    ;
    assert(n1 / d <= n2 / d) by (nonlinear_arith)
        requires
            n1 <= n2,
            d > 0,
    ;
}

// ---------------------------------------------------------------------------
// The engine
// ---------------------------------------------------------------------------

/// What a search needs before the retrieval paths run.
#[derive(Clone, Copy, Debug)]
pub struct SearchPlan {
    /// The weights to score with.
    pub weights: HybridWeights,
    /// How many candidates each retrieval path is asked for.
    pub fetch_k: usize,
}

/// The hybrid retrieval engine: it fuses semantic, BM25 and recency scores.
#[derive(Debug)]
pub struct RetrievalEngine {
    embedding_model: String,
    default_weights: HybridWeights,
}

impl RetrievalEngine {
    pub closed spec fn model_spec(&self) -> Seq<char> {
        self.embedding_model@
    }

    pub closed spec fn weights_spec(&self) -> HybridWeights {
        self.default_weights
    }

    pub fn new(embedding_model: &str, default_weights: HybridWeights) -> (r: RetrievalEngine)
        ensures
            r.model_spec() == embedding_model@,
            r.weights_spec() == default_weights,
    {
        RetrievalEngine { embedding_model: String::from_str(embedding_model), default_weights }
    }

    /// The model that query embeddings are asked of.
    pub fn embedding_model(&self) -> (r: &str)
        ensures
            r@ == self.model_spec(),
    {
        self.embedding_model.as_str()
    }

    /// The weights that a query without its own weights is scored with.
    pub fn default_weights(&self) -> (r: HybridWeights)
        ensures
            r == self.weights_spec(),
    {
        self.default_weights
    }

    /// Validates the query and settles the weights (the query's own, else the engine's
    /// defaults) and how many candidates to fetch per path (four times `top_k`).
    pub fn plan(&self, query: &SearchQuery) -> (r: Result<SearchPlan, MemoryError>)
        ensures
            match r {
                Ok(p) => {
                    &&& query.valid()
                    &&& p.weights == match query.weights {
                        Some(w) => w,
                        None => self.weights_spec(),
                    }
                    &&& p.fetch_k == 4 * query.top_k
                },
                Err(e) => query.validation_error() matches Some(m) && e matches MemoryError::Config(
                    t,
                ) && t@ == m,
            },
    {
        match query.validate() {
            Err(e) => Err(e),
            Ok(()) => {
                let weights = match query.weights {
                    Some(w) => w,
                    None => self.default_weights,
                };
                Ok(SearchPlan { weights, fetch_k: 4 * query.top_k })
            },
        }
    }

    /// Ranks the candidates of a validated search: `semantic_ok` and `bm25_ok` tell which
    /// retrieval paths answered, and the weights are re-normalized over those (see
    /// `score_divisor`).
    pub fn rank(
        &self,
        query: &SearchQuery,
        plan: &SearchPlan,
        semantic_ok: bool,
        semantic: &Vec<(i64, i64)>,
        bm25_ok: bool,
        bm25: &Vec<(String, i64)>,
        memories: Vec<Memory>,
        temporal: &Vec<i64>,
    ) -> (r: Vec<SearchResult>)
        requires
            memories@.len() == temporal@.len(),
        ensures
            r@ == ranked(
                *query,
                Scoring { weights: plan.weights, semantic_ok, bm25_ok },
                semantic@,
                bm25@,
                memories@,
                temporal@,
            ),
    {
        let scoring = Scoring { weights: plan.weights, semantic_ok, bm25_ok };
        rank_candidates(query, &scoring, semantic, bm25, memories, temporal)
    }
}

/// What the two retrieval paths of a search came to, each one failing open.
#[derive(Debug)]
pub struct PathHits {
    /// Whether the semantic path answered.
    pub semantic_ok: bool,
    /// Its hits, as `(vector_id, similarity)`.
    pub semantic: Vec<(i64, i64)>,
    /// Whether the BM25 path answered.
    pub bm25_ok: bool,
    /// Its hits, as `(memory_id, score)`.
    pub bm25: Vec<(String, i64)>,
    /// Neither path found anything: the search ends with no results.
    pub nothing_found: bool,
}

/// Settles the outcomes of the two retrieval paths so that a failing path never fails the
/// search: a path that failed counts as not answered and contributes no hits; a path that
/// answered keeps its hits; and when neither has any hit, the search has nothing to rank.
pub fn settle_paths(
    semantic: Result<Vec<(i64, i64)>, MemoryError>,
    bm25: Result<Vec<(String, i64)>, MemoryError>,
) -> (r: PathHits)
    ensures
        match semantic {
            Ok(v) => r.semantic_ok && r.semantic@ == v@,
            Err(_) => !r.semantic_ok && r.semantic@.len() == 0,
        },
        match bm25 {
            Ok(v) => r.bm25_ok && r.bm25@ == v@,
            Err(_) => !r.bm25_ok && r.bm25@.len() == 0,
        },
        r.nothing_found == (r.semantic@.len() == 0 && r.bm25@.len() == 0),
{
    let (semantic_ok, semantic) = match semantic {
        Ok(v) => (true, v),
        Err(_) => (false, Vec::new()),
    };
    let (bm25_ok, bm25) = match bm25 {
        Ok(v) => (true, v),
        Err(_) => (false, Vec::new()),
    };
    let nothing_found = semantic.len() == 0 && bm25.len() == 0;
    PathHits { semantic_ok, semantic, bm25_ok, bm25, nothing_found }
}

/// Whether `ids` holds a string with the characters `k`.
pub open spec fn holds_id(ids: Seq<String>, k: Seq<char>) -> bool {
    exists|i: int| 0 <= i < ids.len() && (#[trigger] ids[i])@ == k
}

fn contains_id(ids: &Vec<String>, id: &String) -> (r: bool)
    ensures
        r == holds_id(ids@, id@),
{
    let mut i: usize = 0;
    while i < ids.len()
        invariant
            i <= ids@.len(),
            forall|j: int| 0 <= j < i ==> (#[trigger] ids@[j])@ != id@,
        decreases ids@.len() - i,
    {
        if same_string(&ids[i], id) {
            return true;
        }
        i = i + 1;
    }
    false
}

/// `ids` holds the ids of the memories that either retrieval path found, each once.
pub open spec fn candidates_of(
    ids: Seq<String>,
    semantic_memories: Seq<Memory>,
    bm25: Seq<(String, i64)>,
) -> bool {
    &&& forall|i: int, j: int| 0 <= i < j < ids.len() ==> ids[i]@ != ids[j]@
    &&& forall|k: Seq<char>|
        holds_id(ids, k) <==> ((exists|i: int|
            0 <= i < semantic_memories.len() && (#[trigger] semantic_memories[i]).id@ == k) || (
        exists|i: int| 0 <= i < bm25.len() && (#[trigger] bm25[i]).0@ == k))
}

/// The ids of the memories that either retrieval path found, each once: first those of the
/// semantic hits, then those of the BM25 hits, in the order found.
pub fn candidate_ids(semantic_memories: &Vec<Memory>, bm25: &Vec<(String, i64)>) -> (r: Vec<String>)
    ensures
        candidates_of(r@, semantic_memories@, bm25@),
{
    let mut out: Vec<String> = Vec::new();
    let mut i: usize = 0;
    while i < semantic_memories.len()
        invariant
            i <= semantic_memories@.len(),
            forall|a: int, b: int| 0 <= a < b < out@.len() ==> out@[a]@ != out@[b]@,
            forall|k: Seq<char>|
                holds_id(out@, k) <==> (exists|j: int|
                    0 <= j < i && (#[trigger] semantic_memories@[j]).id@ == k),
        decreases semantic_memories@.len() - i,
    {
        let id = &semantic_memories[i].id;
        if !contains_id(&out, id) {
            let ghost before = out@;
            out.push(id.clone());
            assert forall|k: Seq<char>| holds_id(out@, k) <==> (exists|j: int|
                0 <= j < i + 1 && (#[trigger] semantic_memories@[j]).id@ == k) by {
                if holds_id(out@, k) {
                    let a = choose|a: int| 0 <= a < out@.len() && (#[trigger] out@[a])@ == k;
                    if a < before.len() {
                        assert(holds_id(before, k));
                    }
                }
                if exists|j: int| 0 <= j < i + 1 && (#[trigger] semantic_memories@[j]).id@ == k {
                    let j = choose|j: int| 0 <= j < i + 1 && (#[trigger] semantic_memories@[j]).id@ == k;
                    if j < i {
                        assert(holds_id(before, k));
                        let a = choose|a: int| 0 <= a < before.len() && (#[trigger] before[a])@ == k;
                        assert(out@[a] == before[a]);
                    } else {
                        assert(out@[before.len() as int]@ == k);
                    }
                }
            }
        } else {
            assert forall|k: Seq<char>| holds_id(out@, k) <==> (exists|j: int|
                0 <= j < i + 1 && (#[trigger] semantic_memories@[j]).id@ == k) by {
                if exists|j: int| 0 <= j < i + 1 && (#[trigger] semantic_memories@[j]).id@ == k {
                    let j = choose|j: int| 0 <= j < i + 1 && (#[trigger] semantic_memories@[j]).id@ == k;
                    if j == i {
                        assert(holds_id(out@, id@));
                    }
                }
            }
        }
        i = i + 1;
    }
    let mut i: usize = 0;
    while i < bm25.len()
        invariant
            i <= bm25@.len(),
            forall|a: int, b: int| 0 <= a < b < out@.len() ==> out@[a]@ != out@[b]@,
            forall|k: Seq<char>|
                holds_id(out@, k) <==> ((exists|j: int|
                    0 <= j < semantic_memories@.len() && (#[trigger] semantic_memories@[j]).id@ == k)
                    || (exists|j: int| 0 <= j < i && (#[trigger] bm25@[j]).0@ == k)),
        decreases bm25@.len() - i,
    {
        let id = &bm25[i].0;
        if !contains_id(&out, id) {
            let ghost before = out@;
            out.push(id.clone());
            assert forall|k: Seq<char>| holds_id(out@, k) <==> ((exists|j: int|
                0 <= j < semantic_memories@.len() && (#[trigger] semantic_memories@[j]).id@ == k)
                || (exists|j: int| 0 <= j < i + 1 && (#[trigger] bm25@[j]).0@ == k)) by {
                if holds_id(out@, k) {
                    let a = choose|a: int| 0 <= a < out@.len() && (#[trigger] out@[a])@ == k;
                    if a < before.len() {
                        assert(holds_id(before, k));
                    }
                }
                if holds_id(before, k) {
                    let a = choose|a: int| 0 <= a < before.len() && (#[trigger] before[a])@ == k;
                    assert(out@[a] == before[a]);
                }
                if exists|j: int| 0 <= j < i + 1 && (#[trigger] bm25@[j]).0@ == k {
                    let j = choose|j: int| 0 <= j < i + 1 && (#[trigger] bm25@[j]).0@ == k;
                    if j == i {
                        assert(out@[before.len() as int]@ == k);
                    }
                }
            }
        } else {
            assert forall|k: Seq<char>| holds_id(out@, k) <==> ((exists|j: int|
                0 <= j < semantic_memories@.len() && (#[trigger] semantic_memories@[j]).id@ == k)
                || (exists|j: int| 0 <= j < i + 1 && (#[trigger] bm25@[j]).0@ == k)) by {
                if exists|j: int| 0 <= j < i + 1 && (#[trigger] bm25@[j]).0@ == k {
                    let j = choose|j: int| 0 <= j < i + 1 && (#[trigger] bm25@[j]).0@ == k;
                    if j == i {
                        assert(holds_id(out@, id@));
                    }
                }
            }
        }
        i = i + 1;
    }
    out
}

/// The ids of the memories that a search returned, in order: their access statistics are
/// updated after the search.
pub fn hit_ids(results: &Vec<SearchResult>) -> (r: Vec<String>)
    ensures
        r@.len() == results@.len(),
        forall|i: int| 0 <= i < r@.len() ==> (#[trigger] r@[i])@ == results@[i].memory.id@,
{
    let mut out: Vec<String> = Vec::new();
    let mut i: usize = 0;
    while i < results.len()
        invariant
            i <= results@.len(),
            out@.len() == i,
            forall|j: int| 0 <= j < i ==> (#[trigger] out@[j])@ == results@[j].memory.id@,
        decreases results@.len() - i,
    {
        out.push(results[i].memory.id.clone());
        i = i + 1;
    }
    out
}

/// What a search does next.
#[derive(Debug)]
pub enum SearchStep {
    /// Stop: the search has no results.
    Finish,
    /// Look up the memories that own these vectors (the semantic hits, in order).
    LookupVectors(Vec<i64>),
    /// Fetch these candidate memories and rank them.
    FetchCandidates(Vec<String>),
}

/// The vector ids of the semantic hits, in order.
pub open spec fn vector_ids_of(v: Seq<i64>, semantic: Seq<(i64, i64)>) -> bool {
    &&& v.len() == semantic.len()
    &&& forall|i: int| 0 <= i < v.len() ==> v[i] == (#[trigger] semantic[i]).0
}

/// The step after the retrieval paths settled: with no hit at all the search ends empty;
/// with semantic hits their memories are looked up first; with BM25 hits alone those are the
/// candidates.
pub fn step_after_paths(semantic: &Vec<(i64, i64)>, bm25: &Vec<(String, i64)>) -> (r: SearchStep)
    ensures
        semantic@.len() == 0 && bm25@.len() == 0 ==> r is Finish,
        semantic@.len() > 0 ==> (r matches SearchStep::LookupVectors(v) && vector_ids_of(
            v@,
            semantic@,
        )),
        semantic@.len() == 0 && bm25@.len() > 0 ==> (r matches SearchStep::FetchCandidates(ids)
            && ids@.len() > 0 && candidates_of(ids@, Seq::empty(), bm25@)),
{
    if semantic.len() == 0 {
        let none: Vec<Memory> = Vec::new();
        return step_after_lookup(&none, bm25);
    }
    let mut v: Vec<i64> = Vec::new();
    let mut i: usize = 0;
    while i < semantic.len()
        invariant
            i <= semantic@.len(),
            v@.len() == i,
            forall|j: int| 0 <= j < i ==> v@[j] == (#[trigger] semantic@[j]).0,
        decreases semantic@.len() - i,
    {
        v.push(semantic[i].0);
        i = i + 1;
    }
    SearchStep::LookupVectors(v)
}

/// The step after the memories of the semantic hits were looked up: the candidates are
/// their ids and those of the BM25 hits; with none, the search ends empty.
pub fn step_after_lookup(semantic_memories: &Vec<Memory>, bm25: &Vec<(String, i64)>) -> (r:
    SearchStep)
    ensures
        semantic_memories@.len() == 0 && bm25@.len() == 0 ==> r is Finish,
        !(semantic_memories@.len() == 0 && bm25@.len() == 0) ==> (
        r matches SearchStep::FetchCandidates(ids) && ids@.len() > 0 && candidates_of(
            ids@,
            semantic_memories@,
            bm25@,
        )),
{
    let ids = candidate_ids(semantic_memories, bm25);
    if ids.len() == 0 {
        proof {
            if semantic_memories@.len() > 0 {
                assert(holds_id(ids@, semantic_memories@[0].id@));
            }
            if bm25@.len() > 0 {
                assert(holds_id(ids@, bm25@[0].0@));
            }
        }
        SearchStep::Finish
    } else {
        proof {
            assert(holds_id(ids@, ids@[0]@));
        }
        SearchStep::FetchCandidates(ids)
    }
}

/// Whose access statistics a search updates: none when it returned nothing, otherwise the
/// ids of the results in order.
pub fn access_update(results: &Vec<SearchResult>) -> (r: Option<Vec<String>>)
    ensures
        results@.len() == 0 ==> r is None,
        results@.len() > 0 ==> (r matches Some(ids) && ids@.len() == results@.len() && forall|
            i: int,
        |
            0 <= i < ids@.len() ==> (#[trigger] ids@[i])@ == results@[i].memory.id@),
{
    if results.len() == 0 {
        None
    } else {
        Some(hit_ids(results))
    }
}

/// `a - b`, saturated at the bounds of `i64`.
pub open spec fn saturating_difference(a: i64, b: i64) -> int {
    let d = a - b;
    if d < i64::MIN {
        i64::MIN as int
    } else if d > i64::MAX {
        i64::MAX as int
    } else {
        d
    }
}

/// The current Unix time in milliseconds. Calls `chrono::Utc::now` and
/// `DateTime::timestamp_millis`; the result depends on the clock, so nothing is claimed of it.
#[verifier::external_body]
fn current_time_millis() -> (r: i64) {
    chrono::Utc::now().timestamp_millis()
}

/// How long ago, in milliseconds, each memory was last accessed, all measured from one
/// reading of the clock: the reading comes back first, then the ages (each saturating at the
/// bounds of `i64`).
pub fn access_ages(memories: &Vec<Memory>) -> (r: (i64, Vec<i64>))
    ensures
        r.1@.len() == memories@.len(),
        forall|i: int|
            0 <= i < r.1@.len() ==> #[trigger] r.1@[i] == saturating_difference(
                r.0,
                memories@[i].last_accessed_at,
            ),
{
    let now = current_time_millis();
    let mut out: Vec<i64> = Vec::new();
    let mut i: usize = 0;
    while i < memories.len()
        invariant
            i <= memories@.len(),
            out@.len() == i,
            forall|j: int|
                0 <= j < i ==> #[trigger] out@[j] == saturating_difference(
                    now,
                    memories@[j].last_accessed_at,
                ),
        decreases memories@.len() - i,
    {
        let last = memories[i].last_accessed_at;
        let d: i128 = now as i128 - last as i128;
        let age: i64 = if d < i64::MIN as i128 {
            i64::MIN
        } else if d > i64::MAX as i128 {
            i64::MAX
        } else {
            d as i64
        };
        out.push(age);
        i = i + 1;
    }
    (now, out)
}

} // verus!
