use memory_core::error::MemoryError;
use memory_core::fixed::Fraction;
use memory_core::query::{HybridWeights, SearchQuery, MAX_QUERY_CHARACTERS, MAX_TOP_K};

fn fraction(x: f64) -> Fraction {
    if x.is_nan() {
        Fraction::NaN
    } else if x == f64::INFINITY {
        Fraction::PosInf
    } else if x == f64::NEG_INFINITY {
        Fraction::NegInf
    } else {
        Fraction::Finite((x * 1_000_000.0).round() as i64)
    }
}

fn config_message(r: Result<(), MemoryError>) -> String {
    match r {
        Err(MemoryError::Config(m)) => m,
        other => panic!("expected a configuration error, got {:?}", other),
    }
}

#[test]
fn rejects_blank_and_oversized_queries() {
    let blank = SearchQuery {
        query: "   ".to_string(),
        ..Default::default()
    };
    assert!(blank.validate().is_err());

    let oversized = SearchQuery {
        query: "x".repeat(MAX_QUERY_CHARACTERS + 1),
        ..Default::default()
    };
    assert!(oversized.validate().is_err());
}

#[test]
fn rejects_unbounded_result_requests() {
    let query = SearchQuery {
        query: "memory".to_string(),
        top_k: MAX_TOP_K + 1,
        ..Default::default()
    };
    assert!(query.validate().is_err());
}

#[test]
fn rejects_invalid_importance_thresholds() {
    for value in [-0.1, 1.1, f64::NAN] {
        let query = SearchQuery {
            query: "memory".to_string(),
            min_importance: Some(fraction(value)),
            ..Default::default()
        };
        assert!(query.validate().is_err());
    }
}

#[test]
fn accepts_a_plain_query_with_default_settings() {
    let query = SearchQuery {
        query: "preferred language".to_string(),
        ..Default::default()
    };
    assert_eq!(query.top_k, 10);
    assert!(query.validate().is_ok());
}

#[test]
fn validation_messages_name_the_failed_bound() {
    let blank = SearchQuery {
        query: "\u{3000}\t \n".to_string(),
        ..Default::default()
    };
    assert_eq!(config_message(blank.validate()), "Search query must not be empty");

    let padded = SearchQuery {
        query: format!("  {}  ", "y".repeat(MAX_QUERY_CHARACTERS)),
        ..Default::default()
    };
    assert!(padded.validate().is_ok());

    let oversized = SearchQuery {
        query: "y".repeat(MAX_QUERY_CHARACTERS + 1),
        ..Default::default()
    };
    assert_eq!(
        config_message(oversized.validate()),
        "Search query must be at most 16384 characters"
    );

    let zero = SearchQuery {
        query: "memory".to_string(),
        top_k: 0,
        ..Default::default()
    };
    assert_eq!(config_message(zero.validate()), "Search top_k must be between 1 and 100");

    let edge = SearchQuery {
        query: "memory".to_string(),
        top_k: MAX_TOP_K,
        min_importance: Some(fraction(1.0)),
        ..Default::default()
    };
    assert!(edge.validate().is_ok());

    let importance = SearchQuery {
        query: "memory".to_string(),
        min_importance: Some(fraction(1.5)),
        ..Default::default()
    };
    assert_eq!(
        config_message(importance.validate()),
        "Search min_importance must be finite and between 0.0 and 1.0"
    );
}

#[test]
fn weights_must_be_finite_non_negative_and_sum_to_one() {
    let negative = SearchQuery {
        query: "memory".to_string(),
        weights: Some(HybridWeights {
            semantic: fraction(1.2),
            bm25: fraction(-0.2),
            temporal: fraction(0.0),
        }),
        ..Default::default()
    };
    assert_eq!(
        config_message(negative.validate()),
        "Hybrid weights must be finite and non-negative"
    );

    let infinite = SearchQuery {
        query: "memory".to_string(),
        weights: Some(HybridWeights {
            semantic: fraction(f64::INFINITY),
            bm25: fraction(0.0),
            temporal: fraction(0.0),
        }),
        ..Default::default()
    };
    assert_eq!(
        config_message(infinite.validate()),
        "Hybrid weights must be finite and non-negative"
    );

    let short = SearchQuery {
        query: "memory".to_string(),
        weights: Some(HybridWeights {
            semantic: fraction(0.5),
            bm25: fraction(0.3),
            temporal: fraction(0.1),
        }),
        ..Default::default()
    };
    assert_eq!(
        config_message(short.validate()),
        "Hybrid weights must sum to 1.0, got 0.9"
    );

    let long = SearchQuery {
        query: "memory".to_string(),
        weights: Some(HybridWeights {
            semantic: fraction(1.0),
            bm25: fraction(1.0),
            temporal: fraction(0.000_25),
        }),
        ..Default::default()
    };
    assert_eq!(
        config_message(long.validate()),
        "Hybrid weights must sum to 1.0, got 2.00025"
    );

    let within_tolerance = SearchQuery {
        query: "memory".to_string(),
        weights: Some(HybridWeights {
            semantic: fraction(0.6),
            bm25: fraction(0.3),
            temporal: fraction(0.100_001),
        }),
        ..Default::default()
    };
    assert!(within_tolerance.validate().is_ok());
}

#[test]
fn default_weights_are_sixty_thirty_ten_and_valid() {
    let w = HybridWeights::default();
    assert_eq!(w.semantic, Fraction::Finite(600_000));
    assert_eq!(w.bm25, Fraction::Finite(300_000));
    assert_eq!(w.temporal, Fraction::Finite(100_000));
    let query = SearchQuery {
        query: "memory".to_string(),
        weights: Some(w),
        ..Default::default()
    };
    assert!(query.validate().is_ok());
}
