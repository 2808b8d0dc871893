use memory_core::error::MemoryError;
use memory_core::fixed::Fraction;
use memory_core::llm_client::{
    completion_outcome, embedding_outcome, parse_u64, read_env_duration, read_env_usize,
    trim_trailing_slashes, CompletionStep, EmbeddingStep, LlmClient, LlmEnvironment,
};

#[test]
fn mock_embedding_respects_configured_dimension() {
    let client = LlmClient::new_with_embedding_dim("mock", "mock", "mock", 8, &LlmEnvironment::unset());
    match client.embed("test", "mock-model") {
        EmbeddingStep::Mock(dimension) => assert_eq!(dimension, 8),
        other => panic!("expected the mock embedding, got {:?}", other),
    }
}

#[test]
fn supports_mock_parse_failures() {
    let client = LlmClient::new_with_embedding_dim(
        "mock",
        "mock",
        "mock-fail-parse",
        8,
        &LlmEnvironment::unset(),
    );
    match client.complete("system", "user", "mock-model", 100, Fraction::Finite(100_000)) {
        CompletionStep::Reply(response) => assert_eq!(response, "not valid json { broken"),
        other => panic!("expected a mock reply, got {:?}", other),
    }
}

#[test]
fn mock_completion_is_a_fixed_extraction() {
    let client = LlmClient::new_with_embedding_dim("x", "y", "mock", 8, &LlmEnvironment::unset());
    match client.complete("system", "user", "m", 10, Fraction::Finite(0)) {
        CompletionStep::Reply(text) => {
            assert!(text.contains("\"memories\""));
            assert!(text.contains("User prefers using tokio::spawn for background tasks in Rust."));
            assert!(text.contains("\"importance\": 4"));
        }
        other => panic!("expected a mock reply, got {:?}", other),
    }
}

#[test]
fn local_key_with_mock_base_is_mock() {
    let client = LlmClient::new_with_embedding_dim("http://h/v1", "mock/", "local", 3, &LlmEnvironment::unset());
    assert!(client.is_mock());
    let real = LlmClient::new_with_embedding_dim("http://h/v1", "http://e", "local", 3, &LlmEnvironment::unset());
    assert!(!real.is_mock());
    let other = LlmClient::new_with_embedding_dim("mock", "mock", "secret", 3, &LlmEnvironment::unset());
    assert!(!other.is_mock());
}

#[test]
fn real_requests_go_to_the_trimmed_endpoints() {
    let client = LlmClient::new_with_embedding_dim(
        "http://localhost:8080/v1//",
        "http://emb/v1/",
        "key-1",
        16,
        &LlmEnvironment::unset(),
    );
    match client.complete("sys", "usr", "llama", 512, Fraction::Finite(200_000)) {
        CompletionStep::Send(q) => {
            assert_eq!(q.url, "http://localhost:8080/v1/chat/completions");
            assert_eq!(q.authorization, "Bearer key-1");
            assert_eq!(q.model, "llama");
            assert_eq!(q.messages.len(), 2);
            assert_eq!(q.messages[0].role, "system");
            assert_eq!(q.messages[0].content, "sys");
            assert_eq!(q.messages[1].role, "user");
            assert_eq!(q.messages[1].content, "usr");
            assert_eq!(q.response_format, "json_object");
            assert_eq!(q.max_tokens, 512);
            assert_eq!(q.temperature, Fraction::Finite(200_000));
            assert_eq!(q.timeout_ms, 60_000);
        }
        other => panic!("expected a request, got {:?}", other),
    }
    match client.embed("text", "emb-model") {
        EmbeddingStep::Send(q) => {
            assert_eq!(q.url, "http://emb/v1/embeddings");
            assert_eq!(q.authorization, "Bearer key-1");
            assert_eq!(q.model, "emb-model");
            assert_eq!(q.input, "text");
            assert_eq!(q.timeout_ms, 5_000);
        }
        other => panic!("expected a request, got {:?}", other),
    }
    assert_eq!(client.connect_timeout_ms(), 3_000);
}

#[test]
fn environment_settings_are_clamped_or_fall_back() {
    let env = LlmEnvironment {
        embedding_dim: Some("999999".to_string()),
        connect_timeout_ms: Some("5".to_string()),
        chat_timeout_ms: Some("not a number".to_string()),
        embedding_timeout_ms: Some("+2500".to_string()),
    };
    let client = LlmClient::new("mock", "mock", "mock", &env);
    assert_eq!(client.embedding_dim(), 65_536);
    assert_eq!(client.connect_timeout_ms(), 100);
    assert_eq!(LlmClient::new("a", "b", "c", &LlmEnvironment::unset()).embedding_dim(), 1536);
    match LlmClient::new("mock", "mock", "mock", &LlmEnvironment::unset()).embed("t", "m") {
        EmbeddingStep::Mock(dimension) => assert_eq!(dimension, 1536),
        other => panic!("expected the mock embedding, got {:?}", other),
    }

    assert_eq!(read_env_duration(Some("700000"), 60_000, 500, 600_000), 600_000);
    assert_eq!(read_env_duration(Some("-1"), 60_000, 500, 600_000), 60_000);
    assert_eq!(read_env_duration(None, 60_000, 500, 600_000), 60_000);
    assert_eq!(read_env_usize(Some("0"), 1024, 1, 65_536), 1);
    assert_eq!(read_env_usize(Some("1536"), 1024, 1, 65_536), 1536);
}

#[test]
fn parses_unsigned_integers_like_std() {
    assert_eq!(parse_u64("0"), Some(0));
    assert_eq!(parse_u64("+42"), Some(42));
    assert_eq!(parse_u64("18446744073709551615"), Some(u64::MAX));
    assert_eq!(parse_u64("18446744073709551616"), None);
    assert_eq!(parse_u64("99999999999999999999x"), None);
    assert_eq!(parse_u64(""), None);
    assert_eq!(parse_u64("+"), None);
    assert_eq!(parse_u64("-1"), None);
    assert_eq!(parse_u64(" 1"), None);
    for s in ["7", "+7", "-7", "", "12a", "00012"] {
        assert_eq!(parse_u64(s), s.parse::<u64>().ok());
    }
}

#[test]
fn trims_only_trailing_slashes() {
    assert_eq!(trim_trailing_slashes("http://a/b///"), "http://a/b");
    assert_eq!(trim_trailing_slashes("///"), "");
    assert_eq!(trim_trailing_slashes("/a"), "/a");
    assert_eq!(trim_trailing_slashes("héllo/"), "héllo");
}

#[test]
fn completion_answers_are_read_or_reported() {
    match completion_outcome(false, "500 Internal Server Error", "boom", None) {
        Err(MemoryError::ExtractionFailed(m)) => assert_eq!(m, "HTTP Status 500 Internal Server Error: boom"),
        other => panic!("unexpected {:?}", other),
    }
    match completion_outcome(true, "200 OK", "", Some(None)) {
        Err(MemoryError::ExtractionFailed(m)) => assert_eq!(m, "No choices returned from LLM completions"),
        other => panic!("unexpected {:?}", other),
    }
    assert!(completion_outcome(true, "200 OK", "", None).is_err());
    assert_eq!(
        completion_outcome(true, "200 OK", "", Some(Some("{}".to_string()))).unwrap(),
        "{}"
    );
}

#[test]
fn embedding_answers_are_read_or_reported() {
    match embedding_outcome(false, "401 Unauthorized", "no", true) {
        Err(MemoryError::Other(m)) => assert_eq!(m, "Embedding API error 401 Unauthorized: no"),
        other => panic!("unexpected {:?}", other),
    }
    match embedding_outcome(true, "200 OK", "", false) {
        Err(MemoryError::Other(m)) => assert_eq!(m, "No embedding returned from embedding API"),
        other => panic!("unexpected {:?}", other),
    }
    assert!(embedding_outcome(true, "200 OK", "", true).is_ok());
}
