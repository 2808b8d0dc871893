use vstd::prelude::*;
use crate::error::MemoryError;
use crate::fixed::{Fraction, SCALE};
use crate::memory::{Memory, MemoryCategory, MemoryScope};
use crate::text::{joined, millionths_text, millionths_to_text, trim_chars, trimmed_char_count};

verus! {

/// The longest query, in characters once trimmed.
pub const MAX_QUERY_CHARACTERS: usize = 16_384;

/// The most results one search may ask for.
pub const MAX_TOP_K: usize = 100;

/// How far the weights may sum away from `1.0` (`1e-6`).
pub const WEIGHT_SUM_TOLERANCE: i64 = 1;

/// The weights of the three scores of a hybrid search; meant to sum to `1.0`.
#[derive(Clone, Copy, Debug, PartialEq, Eq, Structural)]
pub struct HybridWeights {
    /// Weight of the semantic similarity (default `0.60`).
    pub semantic: Fraction,
    /// Weight of the BM25 keyword score (default `0.30`).
    pub bm25: Fraction,
    /// Weight of the recency score (default `0.10`).
    pub temporal: Fraction,
}

/// The parameters of a hybrid search.
#[derive(Debug)]
pub struct SearchQuery {
    /// The query text.
    pub query: String,
    /// How many results to return at most (default 10).
    pub top_k: usize,
    /// Only memories of this scope (`None`: all).
    pub scope: Option<MemoryScope>,
    /// Only memories of this project.
    pub project_id: Option<String>,
    /// Only memories of one of these categories (`None` or empty: all).
    pub categories: Option<Vec<MemoryCategory>>,
    /// Only memories created at or after this Unix time in milliseconds.
    pub created_after: Option<i64>,
    /// Only memories at least this important (default: no bound).
    pub min_importance: Option<Fraction>,
    /// Whether archived memories (retention below `0.1`) may be returned (default false).
    pub include_decayed: bool,
    /// The session the search belongs to.
    pub session_id: Option<String>,
    /// The weights to score with (`None`: the engine's defaults).
    pub weights: Option<HybridWeights>,
}

/// A search hit with its scores, each in millionths.
#[derive(Debug)]
pub struct SearchResult {
    pub memory: Memory,
    pub score_final: i64,
    pub score_semantic: i64,
    pub score_bm25: i64,
    pub score_temporal: i64,
}

pub fn default_top_k() -> (r: usize)
    ensures
        r == 10,
{
    10
}

pub fn default_semantic_weight() -> (r: Fraction)
    ensures
        r == Fraction::Finite(600_000),
{
    Fraction::Finite(600_000)
}

pub fn default_bm25_weight() -> (r: Fraction)
    ensures
        r == Fraction::Finite(300_000),
{
    Fraction::Finite(300_000)
}

pub fn default_temporal_weight() -> (r: Fraction)
    ensures
        r == Fraction::Finite(100_000),
{
    Fraction::Finite(100_000)
}

impl HybridWeights {
    /// The weights `0.60`, `0.30` and `0.10`.
    pub open spec fn defaults() -> HybridWeights {
        HybridWeights {
            semantic: Fraction::Finite(600_000),
            bm25: Fraction::Finite(300_000),
            temporal: Fraction::Finite(100_000),
        }
    }

    /// Every weight is finite and not negative.
    pub open spec fn all_non_negative(self) -> bool {
        self.semantic.non_negative() && self.bm25.non_negative() && self.temporal.non_negative()
    }

    /// The sum of the weights, finite ones counted as they stand.
    pub open spec fn total(self) -> int {
        finite_value(self.semantic) + finite_value(self.bm25) + finite_value(self.temporal)
    }

    /// The weights sum to `1.0` within `1e-6`.
    pub open spec fn sums_to_one(self) -> bool {
        SCALE - WEIGHT_SUM_TOLERANCE <= self.total() <= SCALE + WEIGHT_SUM_TOLERANCE
    }

    /// The weights pass validation.
    pub open spec fn valid(self) -> bool {
        self.all_non_negative() && self.sums_to_one()
    }
}

/// The value of a finite fraction; `0` for one that is not finite.
pub open spec fn finite_value(f: Fraction) -> int {
    match f {
        Fraction::Finite(v) => v as int,
        _ => 0,
    }
}

impl Default for HybridWeights {
    fn default() -> (r: HybridWeights)
        ensures
            r == HybridWeights::defaults(),
    {
        HybridWeights {
            semantic: default_semantic_weight(),
            bm25: default_bm25_weight(),
            temporal: default_temporal_weight(),
        }
    }
}

impl Default for SearchQuery {
    fn default() -> (r: SearchQuery)
        ensures
            r.query@ == Seq::<char>::empty(),
            r.top_k == 10,
            r.scope is None,
            r.project_id is None,
            r.categories is None,
            r.created_after is None,
            r.min_importance is None,
            !r.include_decayed,
            r.session_id is None,
            r.weights is None,
    {
        SearchQuery {
            query: String::new(),
            top_k: default_top_k(),
            scope: None,
            project_id: None,
            categories: None,
            created_after: None,
            min_importance: None,
            include_decayed: false,
            session_id: None,
            weights: None,
        }
    }
}

/// The message of the first check that a query with this text, `top_k`, minimum importance
/// and weights fails, or `None` when it passes them all.
pub open spec fn query_check(
    text: Seq<char>,
    top_k: usize,
    min_importance: Option<Fraction>,
    weights: Option<HybridWeights>,
) -> Option<Seq<char>> {
    let n = trim_chars(text).len();
    if n == 0 {
        Some("Search query must not be empty"@)
    } else if n > MAX_QUERY_CHARACTERS {
        Some("Search query must be at most 16384 characters"@)
    } else if top_k == 0 || top_k > MAX_TOP_K {
        Some("Search top_k must be between 1 and 100"@)
    } else if min_importance matches Some(m) && !m.in_unit_range() {
        Some("Search min_importance must be finite and between 0.0 and 1.0"@)
    } else {
        match weights {
            Some(w) => if !w.all_non_negative() {
                Some("Hybrid weights must be finite and non-negative"@)
            } else if !w.sums_to_one() {
                Some("Hybrid weights must sum to 1.0, got "@ + millionths_text(w.total() as nat))
            } else {
                None
            },
            None => None,
        }
    }
}

/// A weight that is missing, not finite, or negative is refused: a query whose weights hold
/// one never validates, and once the text, `top_k` and minimum importance are in bounds it is
/// refused with the message on finite, non-negative weights, whatever the weights sum to.
pub proof fn lemma_negative_or_infinite_weights_are_refused(
    text: Seq<char>,
    top_k: usize,
    min_importance: Option<Fraction>,
    w: HybridWeights,
)
    requires
        !(w.semantic matches Fraction::Finite(a) && a >= 0) || !(w.bm25 matches Fraction::Finite(
            b,
        ) && b >= 0) || !(w.temporal matches Fraction::Finite(c) && c >= 0),
    ensures
        query_check(text, top_k, min_importance, Some(w)) is Some,
        (0 < trim_chars(text).len() <= 16_384 && 1 <= top_k <= 100 && (min_importance matches Some(
            m,
        ) ==> (m matches Fraction::Finite(v) && 0 <= v <= 1_000_000))) ==> query_check(
            text,
            top_k,
            min_importance,
            Some(w),
        ) == Some("Hybrid weights must be finite and non-negative"@),
{
}

/// Weights that validate are finite, not negative, and sum to `1.0` within `1e-6`.
pub proof fn lemma_accepted_weights_are_a_split_of_one(
    text: Seq<char>,
    top_k: usize,
    min_importance: Option<Fraction>,
    w: HybridWeights,
)
    requires
        query_check(text, top_k, min_importance, Some(w)) is None,
    ensures
        w.semantic matches Fraction::Finite(a) && a >= 0,
        w.bm25 matches Fraction::Finite(b) && b >= 0,
        w.temporal matches Fraction::Finite(c) && c >= 0,
        999_999 <= w.semantic->Finite_0 + w.bm25->Finite_0 + w.temporal->Finite_0 <= 1_000_001,
{
}

impl SearchQuery {
    /// The message of the first check that the query fails, or `None` when it passes them all.
    pub open spec fn validation_error(&self) -> Option<Seq<char>> {
        query_check(self.query@, self.top_k, self.min_importance, self.weights)
    }

    /// The query passes validation.
    pub open spec fn valid(&self) -> bool {
        self.validation_error() is None
    }

    /// Checks the query against its bounds: a non-blank text of at most 16384 characters,
    /// `top_k` in `1..=100`, a minimum importance in `[0.0, 1.0]`, and weights that are
    /// finite, not negative and sum to `1.0`.
    pub fn validate(&self) -> (r: Result<(), MemoryError>)
        ensures
            match r {
                Ok(()) => self.valid(),
                Err(e) => self.validation_error() matches Some(m) && e matches MemoryError::Config(t)
                    && t@ == m,
            },
    {
        let n = trimmed_char_count(self.query.as_str());
        if n == 0 {
            return Err(MemoryError::Config(String::from_str("Search query must not be empty")));
        }
        if n > MAX_QUERY_CHARACTERS {
            return Err(
                MemoryError::Config(
                    String::from_str("Search query must be at most 16384 characters"),
                ),
            );
        }
        if self.top_k == 0 || self.top_k > MAX_TOP_K {
            return Err(
                MemoryError::Config(String::from_str("Search top_k must be between 1 and 100")),
            );
        }
        if let Some(m) = self.min_importance {
            let ok = match m {
                Fraction::Finite(v) => 0 <= v && v <= SCALE,
                _ => false,
            };
            if !ok {
                return Err(
                    MemoryError::Config(
                        String::from_str(
                            "Search min_importance must be finite and between 0.0 and 1.0",
                        ),
                    ),
                );
            }
        }
        if let Some(w) = self.weights {
            match (w.semantic, w.bm25, w.temporal) {
                (Fraction::Finite(a), Fraction::Finite(b), Fraction::Finite(c)) => {
                    if a < 0 || b < 0 || c < 0 {
                        return Err(
                            MemoryError::Config(
                                String::from_str("Hybrid weights must be finite and non-negative"),
                            ),
                        );
                    }
                    let total: i128 = a as i128 + b as i128 + c as i128;
                    if total < (SCALE - WEIGHT_SUM_TOLERANCE) as i128 || total > (SCALE
                        + WEIGHT_SUM_TOLERANCE) as i128 {
                        let shown = millionths_to_text(total as u128);
                        return Err(
                            MemoryError::Config(
                                joined("Hybrid weights must sum to 1.0, got ", shown.as_str()),
                            ),
                        );
                    }
                },
                _ => {
                    return Err(
                        MemoryError::Config(
                            String::from_str("Hybrid weights must be finite and non-negative"),
                        ),
                    );
                },
            }
        }
        Ok(())
    }
}

} // verus!
