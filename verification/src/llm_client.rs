use vstd::prelude::*;
use crate::error::MemoryError;
use crate::fixed::Fraction;
use crate::text::{chars_of, joined, same_text};

verus! {

/// Connection timeout when `LLM_CONNECT_TIMEOUT_MS` is unset or unreadable.
pub const DEFAULT_CONNECT_TIMEOUT_MS: u64 = 3_000;

/// Extraction request timeout when `LLM_CHAT_TIMEOUT_MS` is unset or unreadable.
pub const DEFAULT_CHAT_TIMEOUT_MS: u64 = 60_000;

/// Embedding request timeout when `EMBEDDING_TIMEOUT_MS` is unset or unreadable.
pub const DEFAULT_EMBEDDING_TIMEOUT_MS: u64 = 5_000;

/// Embedding dimension when `EMBEDDING_DIM` is unset or unreadable.
pub const DEFAULT_EMBEDDING_DIM: usize = 1536;

// ---------------------------------------------------------------------------
// Reading settings
// ---------------------------------------------------------------------------

pub open spec fn is_digit(c: char) -> bool {
    '0' <= c && c <= '9'
}

pub open spec fn digit_value(c: char) -> nat {
    (c as u32 - '0' as u32) as nat
}

/// The number that a string of decimal digits writes.
pub open spec fn digits_value(s: Seq<char>) -> nat
    decreases s.len(),
{
    if s.len() == 0 {
        0
    } else {
        digits_value(s.drop_last()) * 10 + digit_value(s.last())
    }
}

/// `s` without a leading `+`.
pub open spec fn unsigned_digits(s: Seq<char>) -> Seq<char> {
    if s.len() > 0 && s[0] == '+' {
        s.drop_first()
    } else {
        s
    }
}

/// One or more decimal digits, nothing else.
pub open spec fn all_digits(d: Seq<char>) -> bool {
    d.len() > 0 && forall|i: int| 0 <= i < d.len() ==> is_digit(#[trigger] d[i])
}

/// The number that `s` writes in the form that `str::parse` takes for an unsigned integer:
/// an optional `+`, then one or more decimal digits, nothing else.
pub open spec fn unsigned_number(s: Seq<char>) -> Option<nat> {
    if all_digits(unsigned_digits(s)) {
        Some(digits_value(unsigned_digits(s)))
    } else {
        None
    }
}

/// Reads `s` as an unsigned integer that fits in `u64`, as `str::parse::<u64>` does.
pub fn parse_u64(s: &str) -> (r: Option<u64>)
    ensures
        match r {
            Some(v) => unsigned_number(s@) == Some(v as nat),
            None => !(unsigned_number(s@) matches Some(n) && n <= u64::MAX),
        },
{
    let cs = chars_of(s);
    let n = cs.len();
    let start: usize = if n > 0 && cs[0] == '+' {
        1
    } else {
        0
    };
    let ghost d = unsigned_digits(s@);
    assert(d =~= cs@.subrange(start as int, n as int));
    if start >= n {
        return None;
    }
    let mut acc: u64 = 0;
    let mut too_big = false;
    let mut i = start;
    while i < n
        invariant
            start <= i <= n,
            n == cs@.len(),
            d == cs@.subrange(start as int, n as int),
            d == unsigned_digits(s@),
            forall|k: int| start <= k < i ==> is_digit(#[trigger] cs@[k]),
            !too_big ==> acc == digits_value(d.take(i - start)),
            too_big ==> digits_value(d.take(i - start)) > u64::MAX,
        decreases n - i,
    {
        let c = cs[i];
        if !('0' <= c && c <= '9') {
            assert(!is_digit(d[i - start]));
            return None;
        }
        let ghost prev = d.take(i - start);
        assert(d.take(i - start + 1).drop_last() =~= prev);
        assert(d.take(i - start + 1).last() == c);
        if !too_big {
            let digit = (c as u32 - '0' as u32) as u64;
            if acc > (u64::MAX - digit) / 10 {
                too_big = true;
            } else {
                acc = acc * 10 + digit;
            }
        }
        i = i + 1;
    }
    proof {
        assert(d.take(n - start) =~= d);
        assert forall|k: int| 0 <= k < d.len() implies is_digit(#[trigger] d[k]) by {
            assert(d[k] == cs@[k + start]);
        }
    }
    if too_big {
        None
    } else {
        Some(acc)
    }
}

/// `v` held within `[min, max]`.
pub open spec fn clamped(v: int, min: int, max: int) -> int {
    if v < min {
        min
    } else if v > max {
        max
    } else {
        v
    }
}

/// A setting read from the text of an environment variable: the number it writes, held
/// within `[min, max]`, or `fallback` when the variable is unset or does not write a number
/// that fits in `u64`.
pub open spec fn setting_value(raw: Option<Seq<char>>, fallback: int, min: int, max: int) -> int {
    match raw {
        Some(t) => match unsigned_number(t) {
            Some(n) => if n <= u64::MAX {
                clamped(n as int, min, max)
            } else {
                fallback
            },
            None => fallback,
        },
        None => fallback,
    }
}

/// A setting always lies within its bounds whenever its fallback does: out-of-range values
/// are clamped, and unreadable ones fall back.
pub proof fn lemma_setting_within_bounds(raw: Option<Seq<char>>, fallback: int, min: int, max: int)
    requires
        min <= fallback <= max,
    ensures
        min <= setting_value(raw, fallback, min, max) <= max,
{
}

/// Reads a duration in milliseconds from the text of an environment variable
/// (see `setting_value`).
pub fn read_env_duration(raw: Option<&str>, fallback_ms: u64, min_ms: u64, max_ms: u64) -> (r: u64)
    requires
        min_ms <= max_ms,
    ensures
        r == setting_value(
            match raw {
                Some(t) => Some(t@),
                None => None,
            },
            fallback_ms as int,
            min_ms as int,
            max_ms as int,
        ),
{
    match raw {
        Some(t) => match parse_u64(t) {
            Some(v) => if v < min_ms {
                min_ms
            } else if v > max_ms {
                max_ms
            } else {
                v
            },
            None => fallback_ms,
        },
        None => fallback_ms,
    }
}

/// Reads a count from the text of an environment variable (see `setting_value`; the bounds
/// lie within `u64`, so a count that fits in `u64` and is held within them fits in `usize`).
pub fn read_env_usize(raw: Option<&str>, fallback: usize, min: usize, max: usize) -> (r: usize)
    requires
        min <= max,
    ensures
        r == setting_value(
            match raw {
                Some(t) => Some(t@),
                None => None,
            },
            fallback as int,
            min as int,
            max as int,
        ),
{
    match raw {
        Some(t) => match parse_u64(t) {
            Some(v) => if v < min as u64 {
                min
            } else if v > max as u64 {
                max
            } else {
                v as usize
            },
            None => fallback,
        },
        None => fallback,
    }
}

// ---------------------------------------------------------------------------
// Text helpers
// ---------------------------------------------------------------------------

/// `s` without the `/` characters at its end.
pub open spec fn without_trailing_slashes(s: Seq<char>) -> Seq<char>
    decreases s.len(),
{
    if s.len() > 0 && s.last() == '/' {
        without_trailing_slashes(s.drop_last())
    } else {
        s
    }
}

/// Trimming trailing slashes leaves a prefix of the text that does not end in `/`, and the
/// text is that prefix followed by nothing but `/` characters.
pub proof fn lemma_trailing_slashes_removed(s: Seq<char>)
    ensures
        ({
            let t = without_trailing_slashes(s);
            &&& t.len() <= s.len()
            &&& t == s.take(t.len() as int)
            &&& t.len() > 0 ==> t.last() != '/'
            &&& forall|i: int| t.len() <= i < s.len() ==> s[i] == '/'
        }),
    decreases s.len(),
{
    if s.len() > 0 && s.last() == '/' {
        lemma_trailing_slashes_removed(s.drop_last());
        let t = without_trailing_slashes(s);
        assert(s.drop_last().take(t.len() as int) =~= s.take(t.len() as int));
        assert forall|i: int| t.len() <= i < s.len() implies s[i] == '/' by {
            if i < s.len() - 1 {
                assert(s.drop_last()[i] == s[i]);
            }
        }
    } else {
        assert(s.take(s.len() as int) =~= s);
    }
}

/// `s` without the `/` characters at its end, as `str::trim_end_matches('/')` gives it.
pub fn trim_trailing_slashes(s: &str) -> (r: String)
    ensures
        r@ == without_trailing_slashes(s@),
{
    let cs = chars_of(s);
    let mut end = cs.len();
    assert(cs@.take(end as int) =~= s@);
    while end > 0 && cs[end - 1] == '/'
        invariant
            end <= cs@.len(),
            without_trailing_slashes(s@) == without_trailing_slashes(cs@.take(end as int)),
        decreases end,
    {
        assert(cs@.take(end as int).drop_last() =~= cs@.take(end - 1));
        end = end - 1;
    }
    assert(s@.take(s@.len() as int) =~= s@);
    let t = s.substring_char(0, end);
    assert(t@ =~= cs@.take(end as int));
    String::from_str(t)
}

/// Whether `s` begins with `prefix`.
pub fn begins_with(s: &str, prefix: &str) -> (r: bool)
    ensures
        r == (prefix@.len() <= s@.len() && s@.take(prefix@.len() as int) == prefix@),
{
    let a = chars_of(s);
    let b = chars_of(prefix);
    if b.len() > a.len() {
        return false;
    }
    let mut i: usize = 0;
    while i < b.len()
        invariant
            a@ == s@,
            b@ == prefix@,
            b@.len() <= a@.len(),
            i <= b@.len(),
            forall|k: int| 0 <= k < i ==> a@[k] == b@[k],
        decreases b@.len() - i,
    {
        if a[i] != b[i] {
            assert(s@.take(prefix@.len() as int)[i as int] != prefix@[i as int]);
            return false;
        }
        i = i + 1;
    }
    assert(s@.take(prefix@.len() as int) =~= prefix@);
    true
}


// ---------------------------------------------------------------------------
// The client
// ---------------------------------------------------------------------------

/// The environment variables that the client reads, as the caller found them
/// (`None` for one that is unset or not Unicode).
#[derive(Debug)]
pub struct LlmEnvironment {
    /// `EMBEDDING_DIM`
    pub embedding_dim: Option<String>,
    /// `LLM_CONNECT_TIMEOUT_MS`
    pub connect_timeout_ms: Option<String>,
    /// `LLM_CHAT_TIMEOUT_MS`
    pub chat_timeout_ms: Option<String>,
    /// `EMBEDDING_TIMEOUT_MS`
    pub embedding_timeout_ms: Option<String>,
}

impl LlmEnvironment {
    /// An environment in which none of the variables is set.
    pub fn unset() -> (r: LlmEnvironment)
        ensures
            r.embedding_dim is None,
            r.connect_timeout_ms is None,
            r.chat_timeout_ms is None,
            r.embedding_timeout_ms is None,
    {
        LlmEnvironment {
            embedding_dim: None,
            connect_timeout_ms: None,
            chat_timeout_ms: None,
            embedding_timeout_ms: None,
        }
    }
}

/// The text of an optional setting.
pub open spec fn raw_text(raw: Option<String>) -> Option<Seq<char>> {
    match raw {
        Some(t) => Some(t@),
        None => None,
    }
}

fn as_text(raw: &Option<String>) -> (r: Option<&str>)
    ensures
        match r {
            Some(t) => raw_text(*raw) == Some(t@),
            None => raw_text(*raw) is None,
        },
{
    match raw {
        Some(t) => Some(t.as_str()),
        None => None,
    }
}

/// A client of an OpenAI-compatible chat and embedding service. The HTTP transport lies
/// with the caller; the client decides what to send and what the answers mean.
#[derive(Debug)]
pub struct LlmClient {
    api_base: String,
    embedding_api_base: String,
    api_key: String,
    embedding_dim: usize,
    connect_timeout_ms: u64,
    chat_timeout_ms: u64,
    embedding_timeout_ms: u64,
}

/// What a completion comes to before any request is made.
#[derive(Debug)]
pub enum CompletionStep {
    /// The answer is known without a request (the mock endpoint).
    Reply(String),
    /// This request is to be sent.
    Send(ChatRequest),
}

/// One message of a chat completion request.
#[derive(Debug)]
pub struct ChatMessage {
    /// `system` or `user`.
    pub role: String,
    pub content: String,
}

/// A chat completion request.
#[derive(Debug)]
pub struct ChatRequest {
    pub url: String,
    pub authorization: String,
    pub model: String,
    /// The system prompt, then the user prompt.
    pub messages: Vec<ChatMessage>,
    /// The response format asked for: `json_object`.
    pub response_format: String,
    pub max_tokens: u32,
    /// The sampling temperature, in millionths.
    pub temperature: Fraction,
    pub timeout_ms: u64,
}

/// What an embedding comes to before any request is made.
#[derive(Debug)]
pub enum EmbeddingStep {
    /// The mock endpoint: a vector of this many components, each `0.1`.
    Mock(usize),
    /// This request is to be sent.
    Send(EmbeddingRequest),
}

/// An embedding request.
#[derive(Debug)]
pub struct EmbeddingRequest {
    pub url: String,
    pub authorization: String,
    pub model: String,
    pub input: String,
    pub timeout_ms: u64,
}

/// The completion that the mock endpoint answers with, unless asked to fail.
pub open spec fn mock_completion() -> Seq<char> {
    "\n            {\n              \"memories\": [\n                {\n                  \"content\": \"User prefers using tokio::spawn for background tasks in Rust.\",\n                  \"category\": \"Preference\",\n                  \"entities\": [\"tokio::spawn\", \"Rust\", \"background tasks\"],\n                  \"importance\": 4,\n                  \"confidence\": 0.95\n                }\n              ]\n            }\n            "@
}

impl LlmClient {
    pub closed spec fn api_base_spec(&self) -> Seq<char> {
        self.api_base@
    }

    pub closed spec fn embedding_api_base_spec(&self) -> Seq<char> {
        self.embedding_api_base@
    }

    pub closed spec fn api_key_spec(&self) -> Seq<char> {
        self.api_key@
    }

    pub closed spec fn embedding_dim_spec(&self) -> usize {
        self.embedding_dim
    }

    pub closed spec fn connect_timeout_spec(&self) -> u64 {
        self.connect_timeout_ms
    }

    pub closed spec fn chat_timeout_spec(&self) -> u64 {
        self.chat_timeout_ms
    }

    pub closed spec fn embedding_timeout_spec(&self) -> u64 {
        self.embedding_timeout_ms
    }

    /// Whether the client answers from its mock endpoint: an API key that begins with
    /// `mock`, or the key `local` with either base URL `mock`.
    pub open spec fn mock_spec(&self) -> bool {
        ||| "mock"@.len() <= self.api_key_spec().len() && self.api_key_spec().take(4) == "mock"@
        ||| self.api_key_spec() == "local"@ && (self.api_base_spec() == "mock"@
            || self.embedding_api_base_spec() == "mock"@)
    }

    /// A client whose embedding dimension comes from `EMBEDDING_DIM` (default 1536, held
    /// within `1..=65536`); see `new_with_embedding_dim` for the rest.
    pub fn new(api_base: &str, embedding_api_base: &str, api_key: &str, env: &LlmEnvironment) -> (r:
        LlmClient)
        ensures
            r.embedding_dim_spec() == setting_value(raw_text(env.embedding_dim), 1536, 1, 65_536),
            r.api_base_spec() == without_trailing_slashes(api_base@),
            r.embedding_api_base_spec() == without_trailing_slashes(embedding_api_base@),
            r.api_key_spec() == api_key@,
            r.connect_timeout_spec() == setting_value(raw_text(env.connect_timeout_ms), 3_000, 100, 120_000),
            r.chat_timeout_spec() == setting_value(raw_text(env.chat_timeout_ms), 60_000, 500, 600_000),
            r.embedding_timeout_spec() == setting_value(raw_text(env.embedding_timeout_ms), 5_000, 100, 120_000),
    {
        let embedding_dim = read_env_usize(as_text(&env.embedding_dim), DEFAULT_EMBEDDING_DIM, 1, 65_536);
        Self::new_with_embedding_dim(api_base, embedding_api_base, api_key, embedding_dim, env)
    }

    /// A client with the given embedding dimension. Base URLs lose their trailing `/`;
    /// the timeouts come from `LLM_CONNECT_TIMEOUT_MS` (default 3000, held within
    /// `100..=120000`), `LLM_CHAT_TIMEOUT_MS` (default 60000, within `500..=600000`) and
    /// `EMBEDDING_TIMEOUT_MS` (default 5000, within `100..=120000`).
    pub fn new_with_embedding_dim(
        api_base: &str,
        embedding_api_base: &str,
        api_key: &str,
        embedding_dim: usize,
        env: &LlmEnvironment,
    ) -> (r: LlmClient)
        ensures
            r.api_base_spec() == without_trailing_slashes(api_base@),
            r.embedding_api_base_spec() == without_trailing_slashes(embedding_api_base@),
            r.api_key_spec() == api_key@,
            r.embedding_dim_spec() == embedding_dim,
            r.connect_timeout_spec() == setting_value(raw_text(env.connect_timeout_ms), 3_000, 100, 120_000),
            r.chat_timeout_spec() == setting_value(raw_text(env.chat_timeout_ms), 60_000, 500, 600_000),
            r.embedding_timeout_spec() == setting_value(raw_text(env.embedding_timeout_ms), 5_000, 100, 120_000),
    {
        let connect_timeout_ms = read_env_duration(
            as_text(&env.connect_timeout_ms),
            DEFAULT_CONNECT_TIMEOUT_MS,
            100,
            120_000,
        );
        let chat_timeout_ms = read_env_duration(
            as_text(&env.chat_timeout_ms),
            DEFAULT_CHAT_TIMEOUT_MS,
            500,
            600_000,
        );
        let embedding_timeout_ms = read_env_duration(
            as_text(&env.embedding_timeout_ms),
            DEFAULT_EMBEDDING_TIMEOUT_MS,
            100,
            120_000,
        );
        LlmClient {
            api_base: trim_trailing_slashes(api_base),
            embedding_api_base: trim_trailing_slashes(embedding_api_base),
            api_key: String::from_str(api_key),
            embedding_dim,
            connect_timeout_ms,
            chat_timeout_ms,
            embedding_timeout_ms,
        }
    }

    /// The connection timeout, in milliseconds, for the HTTP client.
    pub fn connect_timeout_ms(&self) -> (r: u64)
        ensures
            r == self.connect_timeout_spec(),
    {
        self.connect_timeout_ms
    }

    /// The embedding dimension.
    pub fn embedding_dim(&self) -> (r: usize)
        ensures
            r == self.embedding_dim_spec(),
    {
        self.embedding_dim
    }

    /// Whether the client answers from its mock endpoint (see `mock_spec`).
    pub fn is_mock(&self) -> (r: bool)
        ensures
            r == self.mock_spec(),
    {
        proof {
            reveal_strlit("mock");
        }
        begins_with(self.api_key.as_str(), "mock") || (same_text(self.api_key.as_str(), "local")
            && (same_text(self.api_base.as_str(), "mock") || same_text(
            self.embedding_api_base.as_str(),
            "mock",
        )))
    }

    /// What a chat completion comes to: from the mock endpoint, a broken JSON text for the
    /// key `mock-fail-parse` and a fixed extraction otherwise; else a request to
    /// `{api_base}/chat/completions` that carries the system and the user prompt, asks for a
    /// JSON object, and carries the model, `max_tokens`,
    /// the temperature, the bearer key and the chat timeout.
    pub fn complete(
        &self,
        system_prompt: &str,
        user_prompt: &str,
        model: &str,
        max_tokens: u32,
        temperature: Fraction,
    ) -> (r: CompletionStep)
        ensures
            self.mock_spec() ==> (r matches CompletionStep::Reply(t) && t@ == (
            if self.api_key_spec() == "mock-fail-parse"@ {
                "not valid json { broken"@
            } else {
                mock_completion()
            })),
            !self.mock_spec() ==> (r matches CompletionStep::Send(q) && q.url@ == self.api_base_spec()
                + "/chat/completions"@ && q.authorization@ == "Bearer "@ + self.api_key_spec()
                && q.model@ == model@ && q.messages@.len() == 2 && q.messages@[0].role@
                == "system"@ && q.messages@[0].content@ == system_prompt@ && q.messages@[1].role@
                == "user"@ && q.messages@[1].content@ == user_prompt@ && q.response_format@
                == "json_object"@ && q.max_tokens == max_tokens && q.temperature == temperature && q.timeout_ms
                == self.chat_timeout_spec()),
    {
        if self.is_mock() {
            if same_text(self.api_key.as_str(), "mock-fail-parse") {
                return CompletionStep::Reply(String::from_str("not valid json { broken"));
            }
            return CompletionStep::Reply(String::from_str("\n            {\n              \"memories\": [\n                {\n                  \"content\": \"User prefers using tokio::spawn for background tasks in Rust.\",\n                  \"category\": \"Preference\",\n                  \"entities\": [\"tokio::spawn\", \"Rust\", \"background tasks\"],\n                  \"importance\": 4,\n                  \"confidence\": 0.95\n                }\n              ]\n            }\n            "));
        }
        let mut messages: Vec<ChatMessage> = Vec::new();
        messages.push(
            ChatMessage { role: String::from_str("system"), content: String::from_str(system_prompt) },
        );
        messages.push(
            ChatMessage { role: String::from_str("user"), content: String::from_str(user_prompt) },
        );
        proof {
            reveal_strlit("system");
            reveal_strlit("user");
            reveal_strlit("json_object");
        }
        CompletionStep::Send(
            ChatRequest {
                url: joined(self.api_base.as_str(), "/chat/completions"),
                authorization: joined("Bearer ", self.api_key.as_str()),
                model: String::from_str(model),
                messages,
                response_format: String::from_str("json_object"),
                max_tokens,
                temperature,
                timeout_ms: self.chat_timeout_ms,
            },
        )
    }

    /// What an embedding comes to: from the mock endpoint, a vector of `embedding_dim`
    /// components; else a request to `{embedding_api_base}/embeddings` with the model, the
    /// text, the bearer key and the embedding timeout.
    pub fn embed(&self, text: &str, model: &str) -> (r: EmbeddingStep)
        ensures
            self.mock_spec() ==> r == EmbeddingStep::Mock(self.embedding_dim_spec()),
            !self.mock_spec() ==> (r matches EmbeddingStep::Send(q) && q.url@
                == self.embedding_api_base_spec() + "/embeddings"@ && q.authorization@ == "Bearer "@
                + self.api_key_spec() && q.model@ == model@ && q.input@ == text@ && q.timeout_ms
                == self.embedding_timeout_spec()),
    {
        if self.is_mock() {
            return EmbeddingStep::Mock(self.embedding_dim);
        }
        EmbeddingStep::Send(
            EmbeddingRequest {
                url: joined(self.embedding_api_base.as_str(), "/embeddings"),
                authorization: joined("Bearer ", self.api_key.as_str()),
                model: String::from_str(model),
                input: String::from_str(text),
                timeout_ms: self.embedding_timeout_ms,
            },
        )
    }
}

/// What a chat completion answer means: a status that is not a success is an extraction
/// failure that quotes the status and the body; otherwise the content of the first choice,
/// and an extraction failure where there is no choice or it has no content.
pub fn completion_outcome(
    success: bool,
    status: &str,
    body: &str,
    first_content: Option<Option<String>>,
) -> (r: Result<String, MemoryError>)
    ensures
        !success ==> (r matches Err(MemoryError::ExtractionFailed(m)) && m@ == "HTTP Status "@
            + status@ + ": "@ + body@),
        success ==> match first_content {
            Some(Some(c)) => r matches Ok(t) && t@ == c@,
            _ => r matches Err(MemoryError::ExtractionFailed(m)) && m@
                == "No choices returned from LLM completions"@,
        },
{
    if !success {
        let head = joined("HTTP Status ", status);
        let mid = joined(head.as_str(), ": ");
        return Err(MemoryError::ExtractionFailed(joined(mid.as_str(), body)));
    }
    match first_content {
        Some(Some(c)) => Ok(c),
        _ => Err(
            MemoryError::ExtractionFailed(
                String::from_str("No choices returned from LLM completions"),
            ),
        ),
    }
}

/// What an embedding answer means: a status that is not a success is an error that quotes
/// the status and the body; an answer without any embedding is an error; otherwise the
/// first embedding stands.
pub fn embedding_outcome(success: bool, status: &str, body: &str, has_embedding: bool) -> (r: Result<
    (),
    MemoryError,
>)
    ensures
        !success ==> (r matches Err(MemoryError::Other(m)) && m@ == "Embedding API error "@
            + status@ + ": "@ + body@),
        success && !has_embedding ==> (r matches Err(MemoryError::Other(m)) && m@
            == "No embedding returned from embedding API"@),
        success && has_embedding ==> r is Ok,
{
    if !success {
        let head = joined("Embedding API error ", status);
        let mid = joined(head.as_str(), ": ");
        return Err(MemoryError::Other(joined(mid.as_str(), body)));
    }
    if !has_embedding {
        return Err(MemoryError::Other(String::from_str("No embedding returned from embedding API")));
    }
    Ok(())
}

} // verus!
