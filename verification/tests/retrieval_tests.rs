use memory_core::fixed::Fraction;
use memory_core::memory::{Memory, MemoryCategory, MemoryScope};
use memory_core::query::{HybridWeights, SearchQuery};
use memory_core::error::MemoryError;
use memory_core::retrieval::{
    access_ages, access_update, candidate_ids, fuse_scores, hit_ids, passes_filters,
    rank_candidates, settle_paths, step_after_lookup, step_after_paths, RetrievalEngine, Scoring,
    SearchStep,
};

fn memory(id: &str, vector_id: i64, importance: i64, retention: i64) -> Memory {
    Memory {
        id: id.to_string(),
        content: format!("content of {id}"),
        category: "Preference".to_string(),
        scope: "Project".to_string(),
        project_id: Some("repo".to_string()),
        agent_id: None,
        source_session: "s1".to_string(),
        created_at: 1_000,
        updated_at: 1_000,
        last_accessed_at: 2_000,
        access_count: 0,
        importance_score: importance,
        retention_factor: retention,
        entities: "[]".to_string(),
        vector_id,
        metadata: "{}".to_string(),
    }
}

fn both(weights: HybridWeights) -> Scoring {
    Scoring { weights, semantic_ok: true, bm25_ok: true }
}

fn query(text: &str) -> SearchQuery {
    SearchQuery {
        query: text.to_string(),
        ..Default::default()
    }
}

#[test]
fn fused_score_matches_the_weighted_formula() {
    let sc = both(HybridWeights::default());
    // 0.6 * 0.8 + 0.3 * 0.5 + 0.1 * 1.0
    assert_eq!(fuse_scores(&sc, 800_000, 500_000, 1_000_000), 730_000);
    // 0.6 * 0.9 + 0.1 * 0.5
    assert_eq!(fuse_scores(&sc, 900_000, 0, 500_000), 590_000);
    // a perfect semantic match alone scores its weight
    assert_eq!(fuse_scores(&sc, 1_000_000, 0, 0), 600_000);
    assert_eq!(fuse_scores(&sc, 1_000_000, 1_000_000, 1_000_000), 1_000_000);
    // raw weights: a negative weight can pull the sum below zero, which clamps to 0
    let odd = both(HybridWeights {
        semantic: Fraction::Finite(-500_000),
        bm25: Fraction::Finite(1_500_000),
        temporal: Fraction::Finite(0),
    });
    assert_eq!(fuse_scores(&odd, 1_000_000, 1_000_000, 0), 1_000_000);
    assert_eq!(fuse_scores(&odd, 1_000_000, 0, 0), 0);
}

#[test]
fn ranking_sorts_filters_and_truncates() {
    let memories = vec![
        memory("b", 2, 0, 1_000_000),
        memory("c", 3, 1_000_000, 50_000),
        memory("a", 1, 1_000_000, 1_000_000),
        memory("d", 4, 500_000, 1_000_000),
    ];
    let semantic = vec![(1, 800_000), (2, 900_000), (4, -300_000), (1, 100_000)];
    let bm25 = vec![("a".to_string(), 500_000), ("d".to_string(), 1_000_000)];
    let temporal = vec![500_000, 1_000_000, 1_000_000, 0];
    let w = both(HybridWeights::default());

    let all = rank_candidates(&query("memory"), &w, &semantic, &bm25, memories, &temporal);
    let ids: Vec<&str> = all.iter().map(|r| r.memory.id.as_str()).collect();
    assert_eq!(ids, vec!["a", "b", "d"]);
    assert_eq!(all[0].score_final, 730_000);
    assert_eq!(all[1].score_final, 590_000);
    // a negative similarity counts as zero: 0.3 * 1.0
    assert_eq!(all[2].score_semantic, 0);
    assert_eq!(all[2].score_final, 300_000);

    let memories = vec![
        memory("b", 2, 0, 1_000_000),
        memory("a", 1, 1_000_000, 1_000_000),
        memory("d", 4, 500_000, 1_000_000),
    ];
    let temporal = vec![500_000, 1_000_000, 0];
    let mut q = query("memory");
    q.top_k = 2;
    let top = rank_candidates(&q, &w, &semantic, &bm25, memories, &temporal);
    let ids: Vec<&str> = top.iter().map(|r| r.memory.id.as_str()).collect();
    assert_eq!(ids, vec!["a", "b"]);
}

#[test]
fn ranking_keeps_candidate_order_among_equal_scores() {
    let memories = vec![
        memory("first", 1, 0, 1_000_000),
        memory("second", 2, 0, 1_000_000),
        memory("third", 3, 0, 1_000_000),
    ];
    let temporal = vec![1_000_000, 1_000_000, 1_000_000];
    let out = rank_candidates(
        &query("memory"),
        &both(HybridWeights::default()),
        &vec![],
        &vec![],
        memories,
        &temporal,
    );
    let ids: Vec<&str> = out.iter().map(|r| r.memory.id.as_str()).collect();
    assert_eq!(ids, vec!["first", "second", "third"]);
}

#[test]
fn archived_memories_come_back_only_on_request() {
    let m = memory("old", 1, 0, 99_999);
    let mut q = query("memory");
    assert!(!passes_filters(&m, &q));
    q.include_decayed = true;
    assert!(passes_filters(&m, &q));
}

#[test]
fn filters_on_scope_project_category_time_and_importance() {
    let m = memory("m", 1, 400_000, 1_000_000);
    let mut q = query("memory");
    assert!(passes_filters(&m, &q));

    q.scope = Some(MemoryScope::Global);
    assert!(!passes_filters(&m, &q));
    q.scope = Some(MemoryScope::Project);
    assert!(passes_filters(&m, &q));

    q.project_id = Some("other".to_string());
    assert!(!passes_filters(&m, &q));
    q.project_id = Some("repo".to_string());
    assert!(passes_filters(&m, &q));

    q.categories = Some(vec![MemoryCategory::Fact]);
    assert!(!passes_filters(&m, &q));
    q.categories = Some(vec![MemoryCategory::Fact, MemoryCategory::Preference]);
    assert!(passes_filters(&m, &q));
    q.categories = Some(vec![]);
    assert!(passes_filters(&m, &q));

    q.created_after = Some(1_001);
    assert!(!passes_filters(&m, &q));
    q.created_after = Some(1_000);
    assert!(passes_filters(&m, &q));

    q.min_importance = Some(Fraction::Finite(400_001));
    assert!(!passes_filters(&m, &q));
    q.min_importance = Some(Fraction::Finite(400_000));
    assert!(passes_filters(&m, &q));

    // compared as floats: NaN and negative infinity exclude nothing, positive infinity all
    q.min_importance = Some(Fraction::NaN);
    assert!(passes_filters(&m, &q));
    q.min_importance = Some(Fraction::NegInf);
    assert!(passes_filters(&m, &q));
    q.min_importance = Some(Fraction::PosInf);
    assert!(!passes_filters(&m, &q));
}

#[test]
fn weights_renormalize_over_the_paths_that_answered() {
    let w = HybridWeights::default();
    let no_semantic = Scoring { weights: w, semantic_ok: false, bm25_ok: true };
    // 0.3 and 0.1 spread to 0.75 and 0.25: a full BM25 and recency match is not capped
    assert_eq!(fuse_scores(&no_semantic, 1_000_000, 1_000_000, 1_000_000), 1_000_000);
    assert_eq!(fuse_scores(&no_semantic, 0, 1_000_000, 0), 750_000);
    // what the failed path would have scored does not count
    assert_eq!(fuse_scores(&no_semantic, 1_000_000, 0, 0), 0);

    let no_bm25 = Scoring { weights: w, semantic_ok: true, bm25_ok: false };
    assert_eq!(fuse_scores(&no_bm25, 1_000_000, 0, 0), 857_142);

    let neither = Scoring { weights: w, semantic_ok: false, bm25_ok: false };
    assert_eq!(fuse_scores(&neither, 0, 0, 500_000), 500_000);

    // remaining paths without weight: the weights stand as they are
    let weightless = Scoring {
        weights: HybridWeights {
            semantic: Fraction::Finite(0),
            bm25: Fraction::Finite(1_000_000),
            temporal: Fraction::Finite(0),
        },
        semantic_ok: true,
        bm25_ok: false,
    };
    assert_eq!(fuse_scores(&weightless, 1_000_000, 1_000_000, 1_000_000), 0);
}

#[test]
fn failing_paths_fail_open() {
    let ok = settle_paths(Ok(vec![(1, 500_000)]), Ok(vec![("a".to_string(), 1)]));
    assert!(ok.semantic_ok && ok.bm25_ok && !ok.nothing_found);
    assert_eq!(ok.semantic, vec![(1, 500_000)]);
    assert_eq!(ok.bm25, vec![("a".to_string(), 1)]);

    let half = settle_paths(Err(MemoryError::Other("down".to_string())), Ok(vec![("a".to_string(), 1)]));
    assert!(!half.semantic_ok && half.bm25_ok && !half.nothing_found);
    assert!(half.semantic.is_empty());

    let none = settle_paths(
        Err(MemoryError::Request("timeout".to_string())),
        Err(MemoryError::Other("index".to_string())),
    );
    assert!(!none.semantic_ok && !none.bm25_ok && none.nothing_found);

    let empty = settle_paths(Ok(vec![]), Ok(vec![]));
    assert!(empty.semantic_ok && empty.bm25_ok && empty.nothing_found);
}

#[test]
fn plan_validates_and_settles_weights_and_fetch_size() {
    let own = HybridWeights {
        semantic: Fraction::Finite(500_000),
        bm25: Fraction::Finite(500_000),
        temporal: Fraction::Finite(0),
    };
    let engine = RetrievalEngine::new("embed-model", HybridWeights::default());
    assert_eq!(engine.embedding_model(), "embed-model");

    let mut q = query("memory");
    q.top_k = 7;
    let plan = engine.plan(&q).unwrap();
    assert_eq!(plan.fetch_k, 28);
    assert_eq!(plan.weights, HybridWeights::default());

    q.weights = Some(own);
    assert_eq!(engine.plan(&q).unwrap().weights, own);

    assert!(engine.plan(&query("   ")).is_err());
}

#[test]
fn engine_rank_renormalizes_when_a_path_fails() {
    let engine = RetrievalEngine::new("m", HybridWeights::default());
    let q = query("memory");
    let plan = engine.plan(&q).unwrap();
    let bm25 = vec![("a".to_string(), 1_000_000)];
    let out = engine.rank(
        &q,
        &plan,
        false,
        &vec![],
        true,
        &bm25,
        vec![memory("a", 1, 1_000_000, 1_000_000)],
        &vec![0],
    );
    // BM25 alone now weighs 0.75 instead of 0.3
    assert_eq!(out[0].score_final, 750_000);
}

#[test]
fn candidate_ids_are_unique_and_cover_both_paths() {
    let sem = vec![memory("a", 1, 0, 0), memory("b", 2, 0, 0), memory("a", 3, 0, 0)];
    let bm25 = vec![("c".to_string(), 1), ("b".to_string(), 2), ("d".to_string(), 3)];
    assert_eq!(candidate_ids(&sem, &bm25), vec!["a", "b", "c", "d"]);
    assert!(candidate_ids(&vec![], &vec![]).is_empty());
}

#[test]
fn hit_ids_follow_the_results() {
    let memories = vec![memory("x", 1, 0, 1_000_000), memory("y", 2, 0, 1_000_000)];
    let temporal = vec![0, 1_000_000];
    let out = rank_candidates(
        &query("memory"),
        &both(HybridWeights::default()),
        &vec![],
        &vec![],
        memories,
        &temporal,
    );
    assert_eq!(hit_ids(&out), vec!["y", "x"]);
}

#[test]
fn access_ages_measure_from_one_clock_reading() {
    let mut far = memory("far", 1, 0, 0);
    far.last_accessed_at = i64::MIN;
    let near = memory("near", 2, 0, 0);
    let (now, ages) = access_ages(&vec![far, near]);
    assert!(now > 1_600_000_000_000);
    assert_eq!(ages[0], i64::MAX);
    assert_eq!(ages[1], now - 2_000);
}

#[test]
fn search_steps_follow_the_hits() {
    assert!(matches!(step_after_paths(&vec![], &vec![]), SearchStep::Finish));
    match step_after_paths(&vec![(7, 1), (3, 2)], &vec![("a".to_string(), 1)]) {
        SearchStep::LookupVectors(v) => assert_eq!(v, vec![7, 3]),
        other => panic!("expected a vector lookup, got {:?}", other),
    }
    let bm25 = vec![("b".to_string(), 1), ("a".to_string(), 2), ("b".to_string(), 3)];
    match step_after_paths(&vec![], &bm25) {
        SearchStep::FetchCandidates(ids) => assert_eq!(ids, vec!["b", "a"]),
        other => panic!("expected candidates, got {:?}", other),
    }

    // the semantic hits pointed at no stored memory and BM25 found nothing
    assert!(matches!(step_after_lookup(&vec![], &vec![]), SearchStep::Finish));
    match step_after_lookup(&vec![memory("m", 1, 0, 0)], &bm25) {
        SearchStep::FetchCandidates(ids) => assert_eq!(ids, vec!["m", "b", "a"]),
        other => panic!("expected candidates, got {:?}", other),
    }
}

#[test]
fn access_statistics_follow_the_results() {
    assert!(access_update(&vec![]).is_none());
    let memories = vec![memory("x", 1, 0, 1_000_000), memory("y", 2, 0, 1_000_000)];
    let out = rank_candidates(
        &query("memory"),
        &both(HybridWeights::default()),
        &vec![],
        &vec![],
        memories,
        &vec![0, 1_000_000],
    );
    assert_eq!(access_update(&out), Some(vec!["y".to_string(), "x".to_string()]));
}
