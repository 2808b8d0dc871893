use vstd::prelude::*;
use std::sync::Arc;
use crate::fixed::Fraction;
use crate::memory::{MemoryCategory, MemoryScope};
use crate::query::{query_check, HybridWeights, SearchQuery, SearchResult};
use crate::schema::Json;
use crate::text::joined;

verus! {

/// The ways a tool call can fail: a request the client got wrong, or a failure inside.
#[derive(Debug)]
pub enum ToolError {
    InvalidParams(String),
    Internal(String),
}

/// The MCP server of the memory service: it checks and shapes tool calls for the service.
pub struct MemoryMcpServer<S> {
    service: Arc<S>,
}

impl<S> MemoryMcpServer<S> {
    pub closed spec fn service_spec(&self) -> Arc<S> {
        self.service
    }

    pub fn new(service: Arc<S>) -> (r: MemoryMcpServer<S>)
        ensures
            r.service_spec() == service,
    {
        MemoryMcpServer { service }
    }

    /// The memory service that the tools call.
    pub fn service(&self) -> (r: &Arc<S>)
        ensures
            *r == self.service_spec(),
    {
        &self.service
    }
}

// ---------------------------------------------------------------------------
// Tool inputs
// ---------------------------------------------------------------------------

/// `add_memory`: conversation text or a fact to extract memories from.
#[derive(Debug)]
pub struct AddMemoryInput {
    pub content: String,
    /// Global, Project, Session or Agent (default Global).
    pub scope: Option<String>,
    /// Required when the scope is Project.
    pub project_id: Option<String>,
    /// Required when the scope is Agent.
    pub agent_id: Option<String>,
    pub session_id: Option<String>,
    pub metadata: Option<Json>,
}

/// `end_session`: the session to end.
#[derive(Debug)]
pub struct EndSessionInput {
    pub session_id: String,
}

/// Weights for the semantic, BM25 and temporal scores; a missing one takes its default.
#[derive(Clone, Copy, Debug)]
pub struct SearchWeightsInput {
    pub semantic: Option<Fraction>,
    pub bm25: Option<Fraction>,
    pub temporal: Option<Fraction>,
}

/// `search_memories`: a natural language query with its filters.
#[derive(Debug)]
pub struct SearchMemoriesInput {
    pub query: String,
    /// 1 to 100 (default 10).
    pub top_k: Option<usize>,
    pub scope: Option<String>,
    pub project_id: Option<String>,
    pub session_id: Option<String>,
    pub categories: Option<Vec<String>>,
    /// In `[0.0, 1.0]`.
    pub min_importance: Option<Fraction>,
    /// Minimum final relevance score, in `[0.0, 1.0]`.
    pub min_score: Option<Fraction>,
    pub include_decayed: Option<bool>,
    /// Unix time in milliseconds.
    pub created_after: Option<i64>,
    /// Whether to answer with the prompt-oriented projection of each result.
    pub compact: Option<bool>,
    pub weights: Option<SearchWeightsInput>,
}

/// `get_memories`: memories by id, or recent memories.
#[derive(Debug)]
pub struct GetMemoriesInput {
    pub ids: Option<Vec<String>>,
    pub scope: Option<String>,
    pub project_id: Option<String>,
    pub limit: Option<usize>,
}

/// `delete_memory`: the memory to delete.
#[derive(Debug)]
pub struct DeleteMemoryInput {
    pub id: String,
}

/// `consolidate_memories`: which memories to consolidate.
#[derive(Debug)]
pub struct ConsolidateMemoriesInput {
    pub scope: Option<String>,
    pub project_id: Option<String>,
}

/// A tool that takes no input.
#[derive(Debug)]
pub struct EmptyInput {}

// ---------------------------------------------------------------------------
// Checked requests
// ---------------------------------------------------------------------------

/// An `add_memory` call as the service takes it.
#[derive(Debug)]
pub struct AddMemoryRequest {
    pub content: String,
    pub scope: MemoryScope,
    pub project_id: Option<String>,
    pub agent_id: Option<String>,
    pub session_id: String,
    pub metadata: Option<Json>,
}

/// A `search_memories` call as the service takes it, with what to do with its results.
#[derive(Debug)]
pub struct SearchRequest {
    pub query: SearchQuery,
    pub min_score: Option<Fraction>,
    pub compact: bool,
}

/// A `get_memories` call as the service takes it.
#[derive(Debug)]
pub struct GetMemoriesRequest {
    pub ids: Option<Vec<String>>,
    pub scope: Option<MemoryScope>,
    pub project_id: Option<String>,
    pub limit: usize,
}

/// A `consolidate_memories` call as the service takes it.
#[derive(Debug)]
pub struct ConsolidateRequest {
    pub scope: Option<MemoryScope>,
    pub project_id: Option<String>,
}

/// The compact, prompt-oriented form of a search result.
#[derive(Debug)]
pub struct CompactResult {
    pub id: String,
    pub content: String,
    pub category: String,
    pub scope: String,
    pub project_id: Option<String>,
    pub importance_score: i64,
    pub score_final: i64,
    pub score_semantic: i64,
    pub score_bm25: i64,
    pub score_temporal: i64,
}

/// The message with which an unknown scope name is refused.
pub open spec fn invalid_scope_message(value: Seq<char>) -> Seq<char> {
    "Invalid scope: "@ + ("unknown memory scope: "@ + value)
}

/// The message with which an unknown category name is refused.
pub open spec fn invalid_category_message(value: Seq<char>) -> Seq<char> {
    "Invalid category: "@ + ("unknown memory category: "@ + value)
}

/// Reads a scope parameter; an unknown name is an invalid parameter.
pub fn parse_scope_param(value: &str) -> (r: Result<MemoryScope, ToolError>)
    ensures
        match r {
            Ok(x) => MemoryScope::named(value@) == Some(x),
            Err(e) => MemoryScope::named(value@) is None && (e matches ToolError::InvalidParams(m)
                && m@ == invalid_scope_message(value@)),
        },
{
    match MemoryScope::parse(value) {
        Ok(x) => Ok(x),
        Err(m) => Err(ToolError::InvalidParams(joined("Invalid scope: ", m.as_str()))),
    }
}

/// Reads an optional scope parameter.
pub open spec fn optional_scope_ok(scope: Option<String>, r: Option<MemoryScope>) -> bool {
    match scope {
        Some(v) => r is Some && MemoryScope::named(v@) == r,
        None => r is None,
    }
}

fn parse_optional_scope(scope: &Option<String>) -> (r: Result<Option<MemoryScope>, ToolError>)
    ensures
        match r {
            Ok(x) => optional_scope_ok(*scope, x),
            Err(e) => scope matches Some(v) && MemoryScope::named(v@) is None && (
            e matches ToolError::InvalidParams(m) && m@ == invalid_scope_message(v@)),
        },
{
    match scope {
        Some(v) => match parse_scope_param(v.as_str()) {
            Ok(x) => Ok(Some(x)),
            Err(e) => Err(e),
        },
        None => Ok(None),
    }
}

/// The scope name that `add_memory` reads: the given one, else `Global`.
pub open spec fn add_scope_name(input: &AddMemoryInput) -> Seq<char> {
    match input.scope {
        Some(s) => s@,
        None => "Global"@,
    }
}

/// Checks an `add_memory` call: the scope must be known (default Global), a Project scope
/// needs a project id and an Agent scope an agent id; the session defaults to `default`.
pub fn prepare_add_memory(input: AddMemoryInput) -> (r: Result<AddMemoryRequest, ToolError>)
    ensures
        match MemoryScope::named(add_scope_name(&input)) {
            None => r matches Err(ToolError::InvalidParams(m)) && m@ == invalid_scope_message(
                add_scope_name(&input),
            ),
            Some(MemoryScope::Project) if input.project_id is None => r matches Err(
                ToolError::InvalidParams(m),
            ) && m@ == "project_id is required when scope=Project"@,
            Some(MemoryScope::Agent) if input.agent_id is None => r matches Err(
                ToolError::InvalidParams(m),
            ) && m@ == "agent_id is required when scope=Agent"@,
            Some(x) => r matches Ok(q) && q.scope == x && q.content == input.content && q.project_id
                == input.project_id && q.agent_id == input.agent_id && q.metadata == input.metadata
                && q.session_id@ == match input.session_id {
                Some(s) => s@,
                None => "default"@,
            },
        },
{
    let scope = match &input.scope {
        Some(s) => parse_scope_param(s.as_str()),
        None => parse_scope_param("Global"),
    };
    let scope = match scope {
        Ok(x) => x,
        Err(e) => {
            return Err(e);
        },
    };
    match scope {
        MemoryScope::Project => {
            if input.project_id.is_none() {
                return Err(
                    ToolError::InvalidParams(
                        String::from_str("project_id is required when scope=Project"),
                    ),
                );
            }
        },
        MemoryScope::Agent => {
            if input.agent_id.is_none() {
                return Err(
                    ToolError::InvalidParams(
                        String::from_str("agent_id is required when scope=Agent"),
                    ),
                );
            }
        },
        _ => {},
    }
    let session_id = match input.session_id {
        Some(s) => s,
        None => String::from_str("default"),
    };
    Ok(
        AddMemoryRequest {
            content: input.content,
            scope,
            project_id: input.project_id,
            agent_id: input.agent_id,
            session_id,
            metadata: input.metadata,
        },
    )
}

/// The weights that a `search_memories` call asks for: each missing weight takes its default
/// (`0.6`, `0.3`, `0.1`).
pub open spec fn requested_weights(w: Option<SearchWeightsInput>) -> Option<HybridWeights> {
    match w {
        Some(w) => Some(
            HybridWeights {
                semantic: match w.semantic {
                    Some(x) => x,
                    None => Fraction::Finite(600_000),
                },
                bm25: match w.bm25 {
                    Some(x) => x,
                    None => Fraction::Finite(300_000),
                },
                temporal: match w.temporal {
                    Some(x) => x,
                    None => Fraction::Finite(100_000),
                },
            },
        ),
        None => None,
    }
}

/// In the query that a `search_memories` call builds, a weight that the call leaves out is
/// the default weight of that same path (semantic 0.6, BM25 0.3, recency 0.1), and a weight
/// that it gives stands as given; a call without weights leaves them to the engine.
pub proof fn lemma_missing_weights_take_their_path_default(w: Option<SearchWeightsInput>)
    ensures
        w is None ==> requested_weights(w) is None,
        w matches Some(g) ==> (requested_weights(w) matches Some(h) && {
            &&& h.semantic == match g.semantic {
                Some(x) => x,
                None => HybridWeights::defaults().semantic,
            }
            &&& h.bm25 == match g.bm25 {
                Some(x) => x,
                None => HybridWeights::defaults().bm25,
            }
            &&& h.temporal == match g.temporal {
                Some(x) => x,
                None => HybridWeights::defaults().temporal,
            }
        }),
        w matches Some(g) && g.semantic is None && g.bm25 is None && g.temporal is None
            ==> requested_weights(w) == Some(HybridWeights::defaults()),
{
}

fn weights_of(w: Option<SearchWeightsInput>) -> (r: Option<HybridWeights>)
    ensures
        r == requested_weights(w),
{
    match w {
        Some(w) => Some(
            HybridWeights {
                semantic: match w.semantic {
                    Some(x) => x,
                    None => Fraction::Finite(600_000),
                },
                bm25: match w.bm25 {
                    Some(x) => x,
                    None => Fraction::Finite(300_000),
                },
                temporal: match w.temporal {
                    Some(x) => x,
                    None => Fraction::Finite(100_000),
                },
            },
        ),
        None => None,
    }
}

/// The index of the first category name, from `i` on, that names no category.
pub open spec fn first_unknown_category(names: Seq<String>, i: int) -> Option<int>
    decreases names.len() - i,
{
    if i < 0 || i >= names.len() {
        None
    } else if MemoryCategory::named(names[i]@) is None {
        Some(i)
    } else {
        first_unknown_category(names, i + 1)
    }
}

fn parse_categories(names: &Vec<String>) -> (r: Result<Vec<MemoryCategory>, ToolError>)
    ensures
        match first_unknown_category(names@, 0) {
            Some(i) => r matches Err(ToolError::InvalidParams(m)) && m@ == invalid_category_message(
                names@[i]@,
            ),
            None => r matches Ok(cs) && cs@.len() == names@.len() && forall|j: int|
                0 <= j < cs@.len() ==> MemoryCategory::named(names@[j]@) == Some(
                    #[trigger] cs@[j],
                ),
        },
{
    let mut out: Vec<MemoryCategory> = Vec::new();
    let mut i: usize = 0;
    while i < names.len()
        invariant
            i <= names@.len(),
            out@.len() == i,
            first_unknown_category(names@, 0) == first_unknown_category(names@, i as int),
            forall|j: int|
                0 <= j < i ==> MemoryCategory::named(names@[j]@) == Some(#[trigger] out@[j]),
        decreases names@.len() - i,
    {
        match MemoryCategory::parse(names[i].as_str()) {
            Ok(c) => {
                out.push(c);
            },
            Err(m) => {
                return Err(ToolError::InvalidParams(joined("Invalid category: ", m.as_str())));
            },
        }
        i = i + 1;
    }
    Ok(out)
}

/// Checks a `search_memories` call and builds its query: the scope and every category must be
/// known, a minimum score must lie in `[0.0, 1.0]`, missing weights take their defaults,
/// `top_k` defaults to 10, and the query must pass validation.
pub fn prepare_search(input: SearchMemoriesInput) -> (r: Result<SearchRequest, ToolError>)
    ensures
        ({
            let top_k = match input.top_k {
                Some(k) => k,
                None => 10,
            };
            let weights = requested_weights(input.weights);
            let check = query_check(input.query@, top_k, input.min_importance, weights);
            if input.scope matches Some(v) && MemoryScope::named(v@) is None {
                r matches Err(ToolError::InvalidParams(m)) && m@ == invalid_scope_message(
                    input.scope->0@,
                )
            } else if input.categories matches Some(cs) && first_unknown_category(cs@, 0) is Some {
                r matches Err(ToolError::InvalidParams(m)) && m@ == invalid_category_message(
                    input.categories->0@[first_unknown_category(input.categories->0@, 0)->0]@,
                )
            } else if input.min_score matches Some(ms) && !ms.in_unit_range() {
                r matches Err(ToolError::InvalidParams(m)) && m@
                    == "min_score must be finite and between 0.0 and 1.0"@
            } else if check is Some {
                r matches Err(ToolError::InvalidParams(m)) && m@ == check->0
            } else {
                r matches Ok(q) && {
                    &&& q.query.query == input.query
                    &&& q.query.top_k == top_k
                    &&& optional_scope_ok(input.scope, q.query.scope)
                    &&& q.query.project_id == input.project_id
                    &&& q.query.session_id == input.session_id
                    &&& match input.categories {
                        Some(names) => q.query.categories matches Some(cs) && cs@.len()
                            == names@.len() && forall|j: int|
                            0 <= j < cs@.len() ==> MemoryCategory::named(names@[j]@) == Some(
                                #[trigger] cs@[j],
                            ),
                        None => q.query.categories is None,
                    }
                    &&& q.query.created_after == input.created_after
                    &&& q.query.min_importance == input.min_importance
                    &&& q.query.include_decayed == match input.include_decayed {
                        Some(b) => b,
                        None => false,
                    }
                    &&& q.query.weights == weights
                    &&& q.query.valid()
                    &&& q.min_score == input.min_score
                    &&& q.compact == match input.compact {
                        Some(b) => b,
                        None => false,
                    }
                }
            }
        }),
{
    let scope = match parse_optional_scope(&input.scope) {
        Ok(x) => x,
        Err(e) => {
            return Err(e);
        },
    };
    let categories = match &input.categories {
        Some(names) => match parse_categories(names) {
            Ok(cs) => Some(cs),
            Err(e) => {
                return Err(e);
            },
        },
        None => None,
    };
    let weights = weights_of(input.weights);
    if let Some(ms) = input.min_score {
        let ok = match ms {
            Fraction::Finite(v) => 0 <= v && v <= crate::fixed::SCALE,
            _ => false,
        };
        if !ok {
            return Err(
                ToolError::InvalidParams(
                    String::from_str("min_score must be finite and between 0.0 and 1.0"),
                ),
            );
        }
    }
    let query = SearchQuery {
        query: input.query,
        top_k: match input.top_k {
            Some(k) => k,
            None => 10,
        },
        scope,
        project_id: input.project_id,
        categories,
        created_after: input.created_after,
        min_importance: input.min_importance,
        include_decayed: match input.include_decayed {
            Some(b) => b,
            None => false,
        },
        session_id: input.session_id,
        weights,
    };
    match query.validate() {
        Ok(()) => {},
        Err(e) => {
            return Err(ToolError::InvalidParams(e.message()));
        },
    }
    Ok(
        SearchRequest {
            query,
            min_score: input.min_score,
            compact: match input.compact {
                Some(b) => b,
                None => false,
            },
        },
    )
}


/// Whether a result clears the minimum score, compared as floating-point numbers are: NaN
/// and positive infinity clear nothing, negative infinity clears everything.
pub open spec fn clears(min_score: Fraction, x: SearchResult) -> bool {
    min_score.at_most(x.score_final as int)
}

/// The results that clear the minimum score, in their order.
pub open spec fn retained(s: Seq<SearchResult>, min_score: Option<Fraction>) -> Seq<SearchResult>
    decreases s.len(),
{
    match min_score {
        None => s,
        Some(m) => if s.len() == 0 {
            s
        } else if clears(m, s.last()) {
            retained(s.drop_last(), min_score).push(s.last())
        } else {
            retained(s.drop_last(), min_score)
        },
    }
}

/// Filtering by a minimum score keeps results in their order and keeps only results that
/// reach it: what remains is a subsequence of the results, each of which clears the bound.
pub proof fn lemma_retained_clear_min_score(s: Seq<SearchResult>, m: Fraction)
    ensures
        forall|i: int|
            0 <= i < retained(s, Some(m)).len() ==> clears(m, #[trigger] retained(s, Some(m))[i]),
        retained(s, Some(m)).len() <= s.len(),
        retained(s, Some(m)).to_multiset().subset_of(s.to_multiset()),
    decreases s.len(),
{
    broadcast use vstd::seq_lib::group_to_multiset_ensures;

    if s.len() > 0 {
        lemma_retained_clear_min_score(s.drop_last(), m);
        assert(s =~= s.drop_last().push(s.last()));
        vstd::seq_lib::to_multiset_build(s.drop_last(), s.last());
        vstd::seq_lib::to_multiset_build(retained(s.drop_last(), Some(m)), s.last());
    }
}

/// Keeps the results whose final score reaches `min_score`, in their order.
pub fn apply_min_score(results: Vec<SearchResult>, min_score: Option<Fraction>) -> (r: Vec<
    SearchResult,
>)
    ensures
        r@ == retained(results@, min_score),
{
    let m = match min_score {
        None => {
            return results;
        },
        Some(m) => m,
    };
    let ghost all = results@;
    let n = results.len();
    let mut rest = results;
    let mut out: Vec<SearchResult> = Vec::new();
    let mut i: usize = 0;
    while i < n
        invariant
            i <= n,
            n == all.len(),
            min_score == Some(m),
            rest@ == all.subrange(i as int, n as int),
            out@ == retained(all.take(i as int), min_score),
        decreases n - i,
    {
        let x = rest.remove(0);
        assert(x == all[i as int]);
        assert(all.take(i + 1).drop_last() =~= all.take(i as int));
        let keep = m.is_at_most(x.score_final);
        if keep {
            out.push(x);
        }
        assert(rest@ =~= all.subrange(i + 1, n as int));
        i = i + 1;
    }
    assert(all.take(n as int) =~= all);
    out
}

fn copy_optional(s: &Option<String>) -> (r: Option<String>)
    ensures
        r == *s,
{
    match s {
        Some(t) => Some(t.clone()),
        None => None,
    }
}

/// The compact form of a result: its memory's id, content, category, scope, project and
/// importance, and its four scores.
pub open spec fn compact_of(c: CompactResult, x: SearchResult) -> bool {
    &&& c.id == x.memory.id
    &&& c.content == x.memory.content
    &&& c.category == x.memory.category
    &&& c.scope == x.memory.scope
    &&& c.project_id == x.memory.project_id
    &&& c.importance_score == x.memory.importance_score
    &&& c.score_final == x.score_final
    &&& c.score_semantic == x.score_semantic
    &&& c.score_bm25 == x.score_bm25
    &&& c.score_temporal == x.score_temporal
}

/// The compact form of each result, in order.
pub fn compact_results(results: &Vec<SearchResult>) -> (r: Vec<CompactResult>)
    ensures
        r@.len() == results@.len(),
        forall|i: int| 0 <= i < r@.len() ==> compact_of(#[trigger] r@[i], results@[i]),
{
    let mut out: Vec<CompactResult> = Vec::new();
    let mut i: usize = 0;
    while i < results.len()
        invariant
            i <= results@.len(),
            out@.len() == i,
            forall|j: int| 0 <= j < i ==> compact_of(#[trigger] out@[j], results@[j]),
        decreases results@.len() - i,
    {
        let x = &results[i];
        out.push(
            CompactResult {
                id: x.memory.id.clone(),
                content: x.memory.content.clone(),
                category: x.memory.category.clone(),
                scope: x.memory.scope.clone(),
                project_id: copy_optional(&x.memory.project_id),
                importance_score: x.memory.importance_score,
                score_final: x.score_final,
                score_semantic: x.score_semantic,
                score_bm25: x.score_bm25,
                score_temporal: x.score_temporal,
            },
        );
        i = i + 1;
    }
    out
}

/// Checks a `get_memories` call: a scope must be known; at most 20 memories by default.
pub fn prepare_get_memories(input: GetMemoriesInput) -> (r: Result<GetMemoriesRequest, ToolError>)
    ensures
        if input.scope matches Some(v) && MemoryScope::named(v@) is None {
            r matches Err(ToolError::InvalidParams(m)) && m@ == invalid_scope_message(
                input.scope->0@,
            )
        } else {
            r matches Ok(q) && optional_scope_ok(input.scope, q.scope) && q.ids == input.ids
                && q.project_id == input.project_id && q.limit == match input.limit {
                Some(l) => l,
                None => 20,
            }
        },
{
    let scope = match parse_optional_scope(&input.scope) {
        Ok(x) => x,
        Err(e) => {
            return Err(e);
        },
    };
    Ok(
        GetMemoriesRequest {
            ids: input.ids,
            scope,
            project_id: input.project_id,
            limit: match input.limit {
                Some(l) => l,
                None => 20,
            },
        },
    )
}

/// Checks a `consolidate_memories` call: a scope must be known.
pub fn prepare_consolidate(input: ConsolidateMemoriesInput) -> (r: Result<
    ConsolidateRequest,
    ToolError,
>)
    ensures
        if input.scope matches Some(v) && MemoryScope::named(v@) is None {
            r matches Err(ToolError::InvalidParams(m)) && m@ == invalid_scope_message(
                input.scope->0@,
            )
        } else {
            r matches Ok(q) && optional_scope_ok(input.scope, q.scope) && q.project_id
                == input.project_id
        },
{
    let scope = match parse_optional_scope(&input.scope) {
        Ok(x) => x,
        Err(e) => {
            return Err(e);
        },
    };
    Ok(ConsolidateRequest { scope, project_id: input.project_id })
}

} // verus!
