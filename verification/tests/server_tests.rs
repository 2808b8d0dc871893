use std::sync::Arc;
use std::time::Duration;

use memory_core::fixed::Fraction;
use memory_core::memory::{Memory, MemoryCategory, MemoryScope};
use memory_core::query::{HybridWeights, SearchResult};
use memory_core::scheduler::DecayScheduler;
use memory_core::schema::{normalize_schema, Json};
use memory_core::server::{
    apply_min_score, compact_results, parse_scope_param, prepare_add_memory, prepare_consolidate,
    prepare_get_memories, prepare_search, AddMemoryInput, ConsolidateMemoriesInput,
    GetMemoriesInput, MemoryMcpServer, SearchMemoriesInput, SearchWeightsInput, ToolError,
};

fn add_input(scope: Option<&str>, project: Option<&str>, agent: Option<&str>) -> AddMemoryInput {
    AddMemoryInput {
        content: "User prefers Rust".to_string(),
        scope: scope.map(|s| s.to_string()),
        project_id: project.map(|s| s.to_string()),
        agent_id: agent.map(|s| s.to_string()),
        session_id: None,
        metadata: None,
    }
}

fn invalid(r: Result<impl std::fmt::Debug, ToolError>) -> String {
    match r {
        Err(ToolError::InvalidParams(m)) => m,
        other => panic!("expected invalid params, got {:?}", other),
    }
}

fn search_input(query: &str) -> SearchMemoriesInput {
    SearchMemoriesInput {
        query: query.to_string(),
        top_k: None,
        scope: None,
        project_id: None,
        session_id: None,
        categories: None,
        min_importance: None,
        min_score: None,
        include_decayed: None,
        created_after: None,
        compact: None,
        weights: None,
    }
}

fn result(id: &str, score: i64) -> SearchResult {
    SearchResult {
        memory: Memory {
            id: id.to_string(),
            content: "c".to_string(),
            category: "Fact".to_string(),
            scope: "Global".to_string(),
            project_id: None,
            agent_id: None,
            source_session: "s".to_string(),
            created_at: 0,
            updated_at: 0,
            last_accessed_at: 0,
            access_count: 0,
            importance_score: 500_000,
            retention_factor: 1_000_000,
            entities: "[]".to_string(),
            vector_id: 0,
            metadata: "{}".to_string(),
        },
        score_final: score,
        score_semantic: 1,
        score_bm25: 2,
        score_temporal: 3,
    }
}

#[test]
fn server_and_scheduler_hold_what_they_are_given() {
    let service = Arc::new(41u32);
    let server = MemoryMcpServer::new(service.clone());
    assert_eq!(**server.service(), 41);

    let scheduler = DecayScheduler::new(Arc::new("engine"), Duration::from_secs(86_400));
    assert_eq!(scheduler.interval(), Duration::from_secs(86_400));
    assert_eq!(**scheduler.engine(), "engine");
}

#[test]
fn add_memory_checks_scope_requirements() {
    let ok = prepare_add_memory(add_input(None, None, None)).unwrap();
    assert_eq!(ok.scope, MemoryScope::Global);
    assert_eq!(ok.session_id, "default");
    assert_eq!(ok.content, "User prefers Rust");

    assert_eq!(
        invalid(prepare_add_memory(add_input(Some("Project"), None, None))),
        "project_id is required when scope=Project"
    );
    assert_eq!(
        invalid(prepare_add_memory(add_input(Some("Agent"), None, None))),
        "agent_id is required when scope=Agent"
    );
    assert_eq!(
        invalid(prepare_add_memory(add_input(Some("Team"), None, None))),
        "Invalid scope: unknown memory scope: Team"
    );
    let project = prepare_add_memory(add_input(Some("Project"), Some("/repo"), None)).unwrap();
    assert_eq!(project.scope, MemoryScope::Project);
    assert_eq!(project.project_id.as_deref(), Some("/repo"));
    let agent = prepare_add_memory(add_input(Some("Agent"), None, Some("a1"))).unwrap();
    assert_eq!(agent.scope, MemoryScope::Agent);
}

#[test]
fn search_call_takes_defaults_and_checks_bounds() {
    let ok = prepare_search(search_input("rust preference")).unwrap();
    assert_eq!(ok.query.top_k, 10);
    assert!(!ok.query.include_decayed);
    assert!(ok.query.weights.is_none());
    assert!(!ok.compact);

    let mut partial = search_input("q");
    partial.weights = Some(SearchWeightsInput {
        semantic: Some(Fraction::Finite(700_000)),
        bm25: Some(Fraction::Finite(200_000)),
        temporal: None,
    });
    let w = prepare_search(partial).unwrap().query.weights.unwrap();
    assert_eq!(
        w,
        HybridWeights {
            semantic: Fraction::Finite(700_000),
            bm25: Fraction::Finite(200_000),
            temporal: Fraction::Finite(100_000),
        }
    );

    let mut bad_scope = search_input("q");
    bad_scope.scope = Some("nowhere".to_string());
    assert_eq!(invalid(prepare_search(bad_scope)), "Invalid scope: unknown memory scope: nowhere");

    let mut bad_category = search_input("q");
    bad_category.categories = Some(vec!["Fact".to_string(), "Gossip".to_string()]);
    assert_eq!(
        invalid(prepare_search(bad_category)),
        "Invalid category: unknown memory category: Gossip"
    );

    let mut categories = search_input("q");
    categories.categories = Some(vec!["Workflow".to_string(), "CodePattern".to_string()]);
    assert_eq!(
        prepare_search(categories).unwrap().query.categories,
        Some(vec![MemoryCategory::Workflow, MemoryCategory::CodePattern])
    );

    let mut bad_score = search_input("q");
    bad_score.min_score = Some(Fraction::Finite(1_000_001));
    assert_eq!(invalid(prepare_search(bad_score)), "min_score must be finite and between 0.0 and 1.0");

    for v in [Fraction::NaN, Fraction::PosInf, Fraction::NegInf] {
        let mut odd_score = search_input("q");
        odd_score.min_score = Some(v);
        assert!(prepare_search(odd_score).is_err());
    }

    let mut big = search_input("q");
    big.top_k = Some(101);
    assert_eq!(invalid(prepare_search(big)), "Search top_k must be between 1 and 100");

    assert_eq!(invalid(prepare_search(search_input(" "))), "Search query must not be empty");
}

#[test]
fn min_score_keeps_order_and_drops_low_results() {
    let results = vec![result("a", 900_000), result("b", 300_000), result("c", 500_000)];
    let kept = apply_min_score(results, Some(Fraction::Finite(500_000)));
    let ids: Vec<&str> = kept.iter().map(|r| r.memory.id.as_str()).collect();
    assert_eq!(ids, vec!["a", "c"]);
    let all = apply_min_score(vec![result("a", 0)], None);
    assert_eq!(all.len(), 1);
}

#[test]
fn min_score_without_finite_reading_compares_as_floats_do() {
    let results = || vec![result("a", 900_000), result("b", 0)];
    assert!(apply_min_score(results(), Some(Fraction::NaN)).is_empty());
    assert!(apply_min_score(results(), Some(Fraction::PosInf)).is_empty());
    assert_eq!(apply_min_score(results(), Some(Fraction::NegInf)).len(), 2);
}

#[test]
fn compact_results_keep_the_prompt_fields() {
    let c = compact_results(&vec![result("a", 420_000)]);
    assert_eq!(c.len(), 1);
    assert_eq!(c[0].id, "a");
    assert_eq!(c[0].scope, "Global");
    assert_eq!(c[0].importance_score, 500_000);
    assert_eq!(c[0].score_final, 420_000);
    assert_eq!(c[0].score_temporal, 3);
}

#[test]
fn get_and_consolidate_read_their_scopes() {
    let q = prepare_get_memories(GetMemoriesInput { ids: None, scope: Some("Session".to_string()), project_id: None, limit: None }).unwrap();
    assert_eq!(q.scope, Some(MemoryScope::Session));
    assert_eq!(q.limit, 20);
    assert!(prepare_get_memories(GetMemoriesInput { ids: None, scope: Some("x".to_string()), project_id: None, limit: Some(5) }).is_err());

    let c = prepare_consolidate(ConsolidateMemoriesInput { scope: None, project_id: Some("p".to_string()) }).unwrap();
    assert_eq!(c.scope, None);
    assert_eq!(c.project_id.as_deref(), Some("p"));
    assert_eq!(invalid(prepare_consolidate(ConsolidateMemoriesInput { scope: Some("g".to_string()), project_id: None })), "Invalid scope: unknown memory scope: g");
}

#[test]
fn scope_names_round_trip() {
    for s in [MemoryScope::Global, MemoryScope::Project, MemoryScope::Session, MemoryScope::Agent] {
        assert_eq!(parse_scope_param(s.as_str()).unwrap(), s);
    }
    for c in [
        MemoryCategory::Fact,
        MemoryCategory::Preference,
        MemoryCategory::Decision,
        MemoryCategory::ProjectKnowledge,
        MemoryCategory::CodePattern,
        MemoryCategory::ErrorLesson,
        MemoryCategory::Workflow,
    ] {
        assert_eq!(MemoryCategory::parse(c.as_str()).unwrap(), c);
    }
    assert!(MemoryScope::parse("global").is_err());
}

fn obj(entries: Vec<(&str, Json)>) -> Json {
    Json::Object(entries.into_iter().map(|(k, v)| (k.to_string(), v)).collect())
}

fn is_empty_object(v: &Json) -> bool {
    matches!(v, Json::Object(e) if e.is_empty())
}

#[test]
fn boolean_subschemas_become_empty_objects() {
    let mut schema = obj(vec![
        ("type", Json::Text("object".to_string())),
        (
            "properties",
            obj(vec![
                ("metadata", Json::Bool(true)),
                ("tags", obj(vec![("type", Json::Text("array".to_string())), ("items", Json::Bool(true))])),
            ]),
        ),
        ("definitions", obj(vec![("Any", Json::Bool(false))])),
        ("additionalProperties", Json::Bool(false)),
        ("allOf", Json::Array(vec![obj(vec![("items", Json::Bool(true))]), Json::Bool(true)])),
    ]);
    normalize_schema(&mut schema);
    let Json::Object(top) = &schema else { panic!("object expected") };
    let Json::Object(props) = &top[1].1 else { panic!("object expected") };
    assert!(is_empty_object(&props[0].1));
    let Json::Object(tags) = &props[1].1 else { panic!("object expected") };
    assert!(is_empty_object(&tags[1].1));
    let Json::Object(defs) = &top[2].1 else { panic!("object expected") };
    assert!(is_empty_object(&defs[0].1));
    assert!(matches!(top[3].1, Json::Bool(false)));
    let Json::Array(all_of) = &top[4].1 else { panic!("array expected") };
    let Json::Object(first) = &all_of[0] else { panic!("object expected") };
    assert!(is_empty_object(&first[0].1));
    assert!(matches!(all_of[1], Json::Bool(true)));

    let before = format!("{:?}", schema);
    normalize_schema(&mut schema);
    assert_eq!(format!("{:?}", schema), before);
}
