//! What every provider shares: the streamed deltas, sampling parameters, reasoning
//! effort and the classification of errors.

use crate::dict::Dict;
use crate::error::ProviderError;
use crate::json::{opt_string, opt_text, Json, JsonV};
use crate::text::{ascii_lowercase, chars_of, contains, contains_text, decimal, decimal_text, join2, join3, lowercase, owned, parse_unsigned, same, string_of, to_ascii_lowercase, to_lowercase, trim, trimmed, unsigned_of};
use vstd::prelude::*;
use vstd::utf8::{encode_utf8, valid_utf8};

verus! {

/// How long a provider may take to begin its answer, in seconds.
pub const RESPONSE_HEADERS_TIMEOUT_SECS: u64 = 30;

/// One call of a tool that a model asks for.
#[derive(Debug, Clone, PartialEq)]
pub struct ToolCall {
    pub id: String,
    pub kind: String,
    /// An object with the `name` and the `arguments` of the call.
    pub function: Json,
}

/// What a tool call is.
#[verifier::ext_equal]
pub struct ToolCallV {
    pub id: Seq<char>,
    pub kind: Seq<char>,
    pub function: JsonV,
}

impl View for ToolCall {
    type V = ToolCallV;

    open spec fn view(&self) -> ToolCallV {
        ToolCallV { id: self.id@, kind: self.kind@, function: self.function@ }
    }
}

/// A piece of a streamed tool call.
#[derive(Debug, Clone, PartialEq)]
pub struct ToolCallChunk {
    pub index: usize,
    pub id: Option<String>,
    pub kind: Option<String>,
    pub function: Option<Json>,
}

/// The models of a list of tool calls.
pub open spec fn calls_model(v: Seq<ToolCall>) -> Seq<ToolCallV> {
    v.map_values(|c: ToolCall| c@)
}

/// One fragment of a streamed answer.
#[derive(Debug, PartialEq)]
pub struct Delta {
    pub role: String,
    pub content: Option<String>,
    pub reasoning: Option<String>,
    pub tool_calls: Option<Vec<ToolCall>>,
    pub finish_reason: Option<String>,
    pub usage: Option<Dict<i32>>,
    pub error_type: Option<String>,
}

/// What a fragment is.
#[verifier::ext_equal]
pub struct DeltaV {
    pub role: Seq<char>,
    pub content: Option<Seq<char>>,
    pub reasoning: Option<Seq<char>>,
    pub tool_calls: Option<Seq<ToolCallV>>,
    pub finish_reason: Option<Seq<char>>,
    pub usage: Option<Map<Seq<char>, i32>>,
    pub error_type: Option<Seq<char>>,
}

impl View for Delta {
    type V = DeltaV;

    open spec fn view(&self) -> DeltaV {
        DeltaV {
            role: self.role@,
            content: opt_string(self.content),
            reasoning: opt_string(self.reasoning),
            tool_calls: match self.tool_calls {
                Some(v) => Some(calls_model(v@)),
                None => None,
            },
            finish_reason: opt_string(self.finish_reason),
            usage: match self.usage {
                Some(d) => Some(d@),
                None => None,
            },
            error_type: opt_string(self.error_type),
        }
    }
}

/// The models of a list of fragments.
pub open spec fn deltas_model(v: Seq<Delta>) -> Seq<DeltaV> {
    v.map_values(|d: Delta| d@)
}

/// The fragment of the assistant that says nothing.
pub open spec fn blank_delta() -> DeltaV {
    DeltaV {
        role: "assistant"@,
        content: None,
        reasoning: None,
        tool_calls: None,
        finish_reason: None,
        usage: None,
        error_type: None,
    }
}

/// The fragment that ends a stream which failed in a way that may pass.
pub open spec fn failed_delta() -> DeltaV {
    DeltaV {
        finish_reason: Some("error"@),
        error_type: Some("request"@),
        ..blank_delta()
    }
}

impl Delta {
    /// The fragment of the assistant that says nothing.
    pub fn blank() -> (r: Delta)
        ensures
            r@ == blank_delta(),
    {
        Delta {
            role: "assistant".to_owned(),
            content: None,
            reasoning: None,
            tool_calls: None,
            finish_reason: None,
            usage: None,
            error_type: None,
        }
    }

    /// The fragment that ends a stream which failed in a way that may pass.
    pub fn failed() -> (r: Delta)
        ensures
            r@ == failed_delta(),
    {
        Delta {
            role: "assistant".to_owned(),
            content: None,
            reasoning: None,
            tool_calls: None,
            finish_reason: Some("error".to_owned()),
            usage: None,
            error_type: Some("request".to_owned()),
        }
    }
}

/// The state of a provider as a check found it. The latency stands in decimal.
#[derive(Debug, Clone, PartialEq)]
pub struct HealthStatus {
    pub status: String,
    pub latency_ms: Option<String>,
    pub error: Option<String>,
}

/// What a state is.
#[verifier::ext_equal]
pub struct HealthV {
    pub status: Seq<char>,
    pub latency_ms: Option<Seq<char>>,
    pub error: Option<Seq<char>>,
}

impl View for HealthStatus {
    type V = HealthV;

    open spec fn view(&self) -> HealthV {
        HealthV {
            status: self.status@,
            latency_ms: opt_string(self.latency_ms),
            error: opt_string(self.error),
        }
    }
}

impl HealthStatus {
    /// The state that was not checked yet.
    pub fn unchecked() -> (r: HealthStatus)
        ensures
            r.status@ == "disconnected"@,
            r.latency_ms is None,
            r.error is None,
    {
        HealthStatus { status: "disconnected".to_owned(), latency_ms: None, error: None }
    }

    /// A copy of the state.
    pub fn copy(&self) -> (r: HealthStatus)
        ensures
            r@ == self@,
    {
        HealthStatus {
            status: self.status.clone(),
            latency_ms: self.latency_ms.clone(),
            error: self.error.clone(),
        }
    }
}

/// A model that a provider offers.
#[derive(Debug, Clone, PartialEq)]
pub struct ModelInfo {
    pub id: String,
    pub name: Option<String>,
    pub provider_id: Option<String>,
    pub context_length: Option<i32>,
}

/// What a model entry is.
#[verifier::ext_equal]
pub struct ModelInfoV {
    pub id: Seq<char>,
    pub name: Option<Seq<char>>,
    pub provider_id: Option<Seq<char>>,
    pub context_length: Option<i32>,
}

impl View for ModelInfo {
    type V = ModelInfoV;

    open spec fn view(&self) -> ModelInfoV {
        ModelInfoV {
            id: self.id@,
            name: opt_string(self.name),
            provider_id: opt_string(self.provider_id),
            context_length: self.context_length,
        }
    }
}

/// A requested level of reasoning effort.
#[derive(Debug, Clone, PartialEq, Eq)]
pub enum Effort {
    /// Spend no tokens on reasoning.
    Off,
    Low,
    Medium,
    High,
    /// A level that a model declares beyond the standard three.
    Custom(String),
}

/// What a level of effort is.
pub enum EffortV {
    Off,
    Low,
    Medium,
    High,
    Custom(Seq<char>),
}

impl View for Effort {
    type V = EffortV;

    open spec fn view(&self) -> EffortV {
        match self {
            Effort::Off => EffortV::Off,
            Effort::Low => EffortV::Low,
            Effort::Medium => EffortV::Medium,
            Effort::High => EffortV::High,
            Effort::Custom(s) => EffortV::Custom(s@),
        }
    }
}

impl EffortV {
    /// The level that a name denotes: none for the empty name, a level of the model's
    /// own for a name that is not a standard one.
    pub open spec fn named(name: Seq<char>) -> Option<EffortV> {
        if name == ""@ {
            None
        } else if name == "off"@ {
            Some(EffortV::Off)
        } else if name == "low"@ {
            Some(EffortV::Low)
        } else if name == "medium"@ {
            Some(EffortV::Medium)
        } else if name == "high"@ {
            Some(EffortV::High)
        } else {
            Some(EffortV::Custom(name))
        }
    }

    /// The level's name as it is.
    pub open spec fn wire(self) -> Option<Seq<char>> {
        match self {
            EffortV::Off => None,
            EffortV::Low => Some("low"@),
            EffortV::Medium => Some("medium"@),
            EffortV::High => Some("high"@),
            EffortV::Custom(s) => Some(s),
        }
    }

    /// The nearest of the three standard levels.
    pub open spec fn hosted(self) -> Option<Seq<char>> {
        match self {
            EffortV::Off => None,
            EffortV::Low => Some("low"@),
            EffortV::Medium => Some("medium"@),
            EffortV::High => Some("high"@),
            EffortV::Custom(_) => Some("high"@),
        }
    }
}

impl Effort {
    /// Reads the name of a level, whatever its case and the white space around it.
    pub fn from_wire(s: &str) -> (r: Option<Effort>)
        ensures
            (match r {
                Some(e) => Some(e@),
                None => None,
            }) == EffortV::named(ascii_lowercase(trimmed(s@))),
    {
        let t = trim(s);
        let name = to_ascii_lowercase(t.as_str());
        if same(name.as_str(), "") {
            None
        } else if same(name.as_str(), "off") {
            Some(Effort::Off)
        } else if same(name.as_str(), "low") {
            Some(Effort::Low)
        } else if same(name.as_str(), "medium") {
            Some(Effort::Medium)
        } else if same(name.as_str(), "high") {
            Some(Effort::High)
        } else {
            Some(Effort::Custom(name))
        }
    }

    /// The level's name as it is, for self-hosted servers. `None` for `Off`.
    pub fn wire_level(&self) -> (r: Option<&str>)
        ensures
            opt_text(r) == self@.wire(),
    {
        match self {
            Effort::Off => None,
            Effort::Low => Some("low"),
            Effort::Medium => Some("medium"),
            Effort::High => Some("high"),
            Effort::Custom(s) => Some(s.as_str()),
        }
    }

    /// The nearest of the three levels that hosted services know. `None` for `Off`.
    pub fn hosted_level(&self) -> (r: Option<&'static str>)
        ensures
            opt_text(r) == self@.hosted(),
    {
        match self {
            Effort::Off => None,
            Effort::Low => Some("low"),
            Effort::Medium => Some("medium"),
            Effort::High => Some("high"),
            Effort::Custom(_) => Some("high"),
        }
    }
}

/// Reading the name that a level is sent under gives the level back.
pub proof fn effort_name_reads_back(e: EffortV)
    requires
        e.wire() is Some,
        e matches EffortV::Custom(name) ==> EffortV::named(name) == Some(e),
    ensures
        EffortV::named(e.wire()->0) == Some(e),
{
    reveal_strlit("");
    reveal_strlit("off");
    reveal_strlit("low");
    reveal_strlit("medium");
    reveal_strlit("high");
    assert("low"@.len() == 3 && "off"@.len() == 3 && "high"@.len() == 4 && "medium"@.len() == 6);
    assert("low"@[0] != "off"@[0]);
}

/// Sampling parameters of one request. A number with a fraction stands in decimal, so
/// that it reaches the wire as it was written.
#[derive(Debug, Clone, PartialEq)]
pub struct SamplingParams {
    pub temperature: Option<String>,
    pub top_p: Option<String>,
    pub top_k: Option<i32>,
    pub min_p: Option<String>,
    pub presence_penalty: Option<String>,
    pub frequency_penalty: Option<String>,
    pub max_tokens: Option<i32>,
    pub effort: Option<Effort>,
}

/// What sampling parameters are.
#[verifier::ext_equal]
pub struct SamplingV {
    pub temperature: Option<Seq<char>>,
    pub top_p: Option<Seq<char>>,
    pub top_k: Option<i32>,
    pub min_p: Option<Seq<char>>,
    pub presence_penalty: Option<Seq<char>>,
    pub frequency_penalty: Option<Seq<char>>,
    pub max_tokens: Option<i32>,
    pub effort: Option<EffortV>,
}

impl View for SamplingParams {
    type V = SamplingV;

    open spec fn view(&self) -> SamplingV {
        SamplingV {
            temperature: opt_string(self.temperature),
            top_p: opt_string(self.top_p),
            top_k: self.top_k,
            min_p: opt_string(self.min_p),
            presence_penalty: opt_string(self.presence_penalty),
            frequency_penalty: opt_string(self.frequency_penalty),
            max_tokens: self.max_tokens,
            effort: match self.effort {
                Some(e) => Some(e@),
                None => None,
            },
        }
    }
}

/// No parameter set.
pub open spec fn nothing_set() -> SamplingV {
    SamplingV {
        temperature: None,
        top_p: None,
        top_k: None,
        min_p: None,
        presence_penalty: None,
        frequency_penalty: None,
        max_tokens: None,
        effort: None,
    }
}

impl Default for SamplingParams {
    fn default() -> (r: SamplingParams)
        ensures
            r@ == nothing_set(),
    {
        SamplingParams {
            temperature: None,
            top_p: None,
            top_k: None,
            min_p: None,
            presence_penalty: None,
            frequency_penalty: None,
            max_tokens: None,
            effort: None,
        }
    }
}

impl Effort {
    /// A copy of the level.
    pub fn copy(&self) -> (r: Effort)
        ensures
            r@ == self@,
    {
        match self {
            Effort::Off => Effort::Off,
            Effort::Low => Effort::Low,
            Effort::Medium => Effort::Medium,
            Effort::High => Effort::High,
            Effort::Custom(s) => Effort::Custom(s.clone()),
        }
    }
}

/// The most characters of a provider's answer that a message to the user shows.
pub const MAX_USER_BODY_CHARS: usize = 300;

/// A provider's answer as a message to the user shows it: without the white space
/// around it, and cut where it is long.
pub open spec fn shown_body(body: Seq<char>) -> Seq<char> {
    let t = trimmed(body);
    if t.len() <= MAX_USER_BODY_CHARS {
        t
    } else {
        t.take(MAX_USER_BODY_CHARS as int) + "…[truncated]"@
    }
}

/// A provider's answer as a message to the user shows it.
pub fn sanitize_body_for_user(body: &str) -> (r: String)
    ensures
        r@ == shown_body(body@),
{
    let t = trim(body);
    let c = chars_of(t.as_str());
    if c.len() <= MAX_USER_BODY_CHARS {
        t
    } else {
        let head = string_of(&c, 0, MAX_USER_BODY_CHARS);
        proof {
            assert(head@ =~= t@.take(MAX_USER_BODY_CHARS as int));
        }
        join2(head.as_str(), "…[truncated]")
    }
}

/// What kind of error an answer is.
#[derive(Debug, Clone, Copy, PartialEq, Eq, Structural)]
pub enum ErrorClass {
    Auth,
    Credits,
    Context,
    Other,
}

/// What kind of error an answer is, by its status and its text in lower case.
pub open spec fn class_of(status_code: u16, lower: Seq<char>) -> ErrorClass {
    if status_code == 401 || status_code == 403 {
        ErrorClass::Auth
    } else if status_code == 402 || contains_text(lower, "insufficient_quota"@) || contains_text(
        lower,
        "billing"@,
    ) || contains_text(lower, "quota"@) || contains_text(lower, "credit"@) {
        ErrorClass::Credits
    } else if contains_text(lower, "context_length_exceeded"@) || contains_text(lower, "too long"@)
        || (contains_text(lower, "context"@) && (contains_text(lower, "maximum"@) || contains_text(
        lower,
        "limit"@,
    ))) {
        ErrorClass::Context
    } else {
        ErrorClass::Other
    }
}

/// What kind of error an answer is, by its status and its text in lower case.
pub fn error_class(status_code: u16, lower: &str) -> (r: ErrorClass)
    ensures
        r == class_of(status_code, lower@),
{
    if status_code == 401 || status_code == 403 {
        ErrorClass::Auth
    } else if contains(lower, "insufficient_quota") || contains(lower, "billing") || contains(
        lower,
        "quota",
    ) || contains(lower, "credit") || status_code == 402 {
        ErrorClass::Credits
    } else if contains(lower, "context_length_exceeded") || (contains(lower, "context") && contains(
        lower,
        "maximum",
    )) || (contains(lower, "context") && contains(lower, "limit")) || contains(lower, "too long") {
        ErrorClass::Context
    } else {
        ErrorClass::Other
    }
}

/// The error for an answer of a kind.
pub open spec fn is_error_of(
    e: ProviderError,
    class: ErrorClass,
    status_code: u16,
    body: Seq<char>,
    retry_after: Option<u64>,
) -> bool {
    match class {
        ErrorClass::Auth => e matches ProviderError::AuthFailed {
            user_message,
            raw_message,
            http_status,
        } && user_message@ == "Authentication failed. Check the API key for this provider."@
            && raw_message@ == body && http_status == status_code,
        ErrorClass::Credits => e matches ProviderError::InsufficientCredits {
            user_message,
            raw_message,
            http_status,
        } && user_message@ == "Insufficient credits. Check your provider billing."@ && raw_message@
            == body && http_status == status_code,
        ErrorClass::Context => e matches ProviderError::ContextExceeded {
            user_message,
            raw_message,
            http_status,
        } && user_message@ == "Context window exceeded. Consider compacting the session."@
            && raw_message@ == body && http_status == status_code,
        ErrorClass::Other => e matches ProviderError::Other {
            user_message,
            raw_message,
            http_status,
            retry_after_secs,
        } && user_message@ == "Provider error: "@ + shown_body(body) && raw_message@ == body
            && http_status == status_code && retry_after_secs == retry_after,
    }
}

/// The error for an answer of a kind.
pub fn error_of_class(
    class: ErrorClass,
    status_code: u16,
    body: &str,
    retry_after: Option<u64>,
) -> (r: ProviderError)
    ensures
        is_error_of(r, class, status_code, body@, retry_after),
{
    match class {
        ErrorClass::Auth => ProviderError::AuthFailed {
            user_message: "Authentication failed. Check the API key for this provider.".to_owned(),
            raw_message: body.to_owned(),
            http_status: status_code as i32,
        },
        ErrorClass::Credits => ProviderError::InsufficientCredits {
            user_message: "Insufficient credits. Check your provider billing.".to_owned(),
            raw_message: body.to_owned(),
            http_status: status_code as i32,
        },
        ErrorClass::Context => ProviderError::ContextExceeded {
            user_message: "Context window exceeded. Consider compacting the session.".to_owned(),
            raw_message: body.to_owned(),
            http_status: status_code as i32,
        },
        ErrorClass::Other => {
            let shown = sanitize_body_for_user(body);
            ProviderError::Other {
                user_message: join2("Provider error: ", shown.as_str()),
                raw_message: body.to_owned(),
                http_status: status_code as i32,
                retry_after_secs: retry_after,
            }
        },
    }
}

/// The error for an answer that is not a success. A hint how long to wait is kept only
/// where the request may be tried again.
pub fn classify_provider_error(status_code: u16, body: &str, retry_after: Option<u64>) -> (r:
    ProviderError)
    ensures
        is_error_of(r, class_of(status_code, lowercase(body@)), status_code, body@, retry_after),
{
    let lower = to_lowercase(body);
    error_of_class(error_class(status_code, lower.as_str()), status_code, body, retry_after)
}

/// An answer is never taken for a failure to reach the provider; it may be retried just
/// where it is neither a refusal of the credentials, nor a lack of credits, nor too long
/// a conversation; and only then is the hint how long to wait kept.
pub proof fn classified_errors(
    e: ProviderError,
    class: ErrorClass,
    status_code: u16,
    body: Seq<char>,
    retry_after: Option<u64>,
)
    requires
        is_error_of(e, class, status_code, body, retry_after),
    ensures
        !e.is_transport(),
        e.is_fatal() <==> class != ErrorClass::Other,
        e.tag() is None <==> class == ErrorClass::Other,
        e.hint() == if class == ErrorClass::Other {
            retry_after
        } else {
            None
        },
{
}

/// reqwest's error type.
#[verifier::external_type_specification]
#[verifier::external_body]
pub struct ExReqwestError(reqwest::Error);

/// What a reqwest error says of itself: whether it is a timeout, whether it is a failure
/// to connect, and its text.
pub uninterp spec fn transport_facts(e: reqwest::Error) -> (bool, bool, Seq<char>);

/// `reqwest::Error::is_timeout`, `reqwest::Error::is_connect` and the error's text.
#[verifier::external_body]
fn facts_of(e: &reqwest::Error) -> (r: (bool, bool, String))
    ensures
        transport_facts(*e) == (r.0, r.1, r.2@),
{
    (e.is_timeout(), e.is_connect(), e.to_string())
}

/// The error for a request that got no answer: a timeout comes before a failure to
/// connect.
pub open spec fn is_transport_failure(
    e: ProviderError,
    timeout: bool,
    connect: bool,
    raw: Seq<char>,
    user: Seq<char>,
) -> bool {
    if timeout {
        e matches ProviderError::Timeout { user_message, raw_message, http_status } && user_message@
            == user && raw_message@ == raw && http_status == 0
    } else if connect {
        e matches ProviderError::ConnectFailed { user_message, raw_message, http_status }
            && user_message@ == user && raw_message@ == raw && http_status == 0
    } else {
        e matches ProviderError::Request { user_message, raw_message, http_status } && user_message@
            == user && raw_message@ == raw && http_status == 0
    }
}

/// The error for a request that got no answer.
pub fn transport_failure(
    timeout: bool,
    connect: bool,
    raw_message: String,
    user_message: String,
) -> (r: ProviderError)
    ensures
        is_transport_failure(r, timeout, connect, raw_message@, user_message@),
{
    if timeout {
        ProviderError::Timeout { user_message, raw_message, http_status: 0 }
    } else if connect {
        ProviderError::ConnectFailed { user_message, raw_message, http_status: 0 }
    } else {
        ProviderError::Request { user_message, raw_message, http_status: 0 }
    }
}

/// The error for a request that failed with a reqwest error.
pub fn classify_transport_error(e: &reqwest::Error, user_message: String) -> (r: ProviderError)
    ensures
        is_transport_failure(
            r,
            transport_facts(*e).0,
            transport_facts(*e).1,
            transport_facts(*e).2,
            user_message@,
        ),
{
    let (timeout, connect, raw) = facts_of(e);
    transport_failure(timeout, connect, raw, user_message)
}

/// A failure to reach the provider may always be retried and is tagged as such.
pub proof fn transport_failures_may_pass(
    e: ProviderError,
    timeout: bool,
    connect: bool,
    raw: Seq<char>,
    user: Seq<char>,
)
    requires
        is_transport_failure(e, timeout, connect, raw, user),
    ensures
        e.is_transport(),
        !e.is_fatal(),
        e.tag() == Some("network_unreachable"@),
{
}

/// The header map of reqwest.
#[verifier::external_type_specification]
#[verifier::external_body]
#[verifier::reject_recursive_types(T)]
pub struct ExHeaderMap<T>(reqwest::header::HeaderMap<T>);

/// A header value of reqwest.
#[verifier::external_type_specification]
#[verifier::external_body]
pub struct ExHeaderValue(reqwest::header::HeaderValue);

/// The text of the `Retry-After` header, where there is one and it is visible ASCII.
pub uninterp spec fn retry_after_header(
    h: reqwest::header::HeaderMap<reqwest::header::HeaderValue>,
) -> Option<Seq<char>>;

/// `HeaderMap::get` on `Retry-After`, and `HeaderValue::to_str` on what it finds.
#[verifier::external_body]
fn retry_after_text(h: &reqwest::header::HeaderMap<reqwest::header::HeaderValue>) -> (r: Option<
    String,
>)
    ensures
        opt_string(r) == retry_after_header(*h),
{
    h.get(reqwest::header::RETRY_AFTER).and_then(|v| v.to_str().ok()).map(|s| s.to_string())
}

/// The seconds that a `Retry-After` text asks to wait. A date is not read.
pub fn retry_after_seconds(text: &str) -> (r: Option<u64>)
    ensures
        r == unsigned_of(trimmed(text@)),
{
    let t = trim(text);
    parse_unsigned(t.as_str())
}

/// The seconds that the headers of an answer ask to wait.
pub fn parse_retry_after(headers: &reqwest::header::HeaderMap<reqwest::header::HeaderValue>) -> (r:
    Option<u64>)
    ensures
        r == (match retry_after_header(*headers) {
            Some(text) => unsigned_of(trimmed(text)),
            None => None,
        }),
{
    match retry_after_text(headers) {
        Some(text) => retry_after_seconds(text.as_str()),
        None => None,
    }
}

/// The text that `String::from_utf8_lossy` reads from bytes.
pub uninterp spec fn lossy_text(b: Seq<u8>) -> Seq<char>;

/// `String::from_utf8_lossy`: the text depends on the bytes alone, and valid UTF-8 is
/// read as what it encodes.
#[verifier::external_body]
pub(crate) fn utf8_lossy(b: &[u8]) -> (r: String)
    ensures
        r@ == lossy_text(b@),
        valid_utf8(b@) ==> encode_utf8(r@) == b@,
{
    String::from_utf8_lossy(b).into_owned()
}

/// The error where a provider did not begin its answer in time.
pub fn headers_timeout() -> (r: ProviderError)
    ensures
        r matches ProviderError::Timeout { user_message, raw_message, http_status }
            && user_message@ == "Provider sent no response headers within "@ + decimal(
            RESPONSE_HEADERS_TIMEOUT_SECS as nat,
        ) + "s"@ && raw_message@ == "timed out waiting for response headers"@ && http_status == 0,
{
    let n = decimal_text(RESPONSE_HEADERS_TIMEOUT_SECS);
    ProviderError::Timeout {
        user_message: join3("Provider sent no response headers within ", n.as_str(), "s"),
        raw_message: owned("timed out waiting for response headers"),
        http_status: 0,
    }
}

/// The most bytes of an error's body that are read.
pub const ERROR_BODY_MAX_BYTES: usize = 8192;

/// The body of an error as far as it was read.
pub struct ErrorBody {
    bytes: Vec<u8>,
}

/// The bytes kept once a piece was read.
pub open spec fn kept_bytes(read: Seq<u8>, chunk: Seq<u8>) -> Seq<u8> {
    (read + chunk).take(
        if read.len() + chunk.len() <= ERROR_BODY_MAX_BYTES {
            (read.len() + chunk.len()) as int
        } else {
            ERROR_BODY_MAX_BYTES as int
        },
    )
}

impl ErrorBody {
    /// The bytes read so far.
    pub closed spec fn read(&self) -> Seq<u8> {
        self.bytes@
    }

    #[verifier::type_invariant]
    spec fn inv(self) -> bool {
        self.bytes@.len() <= ERROR_BODY_MAX_BYTES
    }

    /// Nothing read yet.
    pub fn new() -> (r: ErrorBody)
        ensures
            r.read() == Seq::<u8>::empty(),
    {
        ErrorBody { bytes: Vec::new() }
    }

    /// Whether another piece is wanted.
    pub fn wants_more(&self) -> (r: bool)
        ensures
            r == (self.read().len() < ERROR_BODY_MAX_BYTES),
    {
        self.bytes.len() < ERROR_BODY_MAX_BYTES
    }

    /// Takes in a piece, up to the most that is read.
    pub fn push(&mut self, chunk: &[u8])
        ensures
            final(self).read() == kept_bytes(old(self).read(), chunk@),
            final(self).read().len() <= ERROR_BODY_MAX_BYTES,
    {
        proof {
            use_type_invariant(&*self);
        }
        let ghost before = self.bytes@;
        let mut all: Vec<u8> = Vec::new();
        core::mem::swap(&mut all, &mut self.bytes);
        let mut i: usize = 0;
        while i < chunk.len() && all.len() < ERROR_BODY_MAX_BYTES
            invariant
                i <= chunk@.len(),
                all@ == before + chunk@.take(i as int),
                all@.len() <= ERROR_BODY_MAX_BYTES,
            decreases chunk@.len() - i,
        {
            all.push(chunk[i]);
            i += 1;
            proof {
                assert(chunk@.take(i as int) =~= chunk@.take(i - 1).push(chunk@[i - 1]));
            }
        }
        proof {
            assert(all@ =~= (before + chunk@).take(all@.len() as int));
        }
        self.bytes = all;
    }

    /// The text of what was read.
    pub fn text(&self) -> (r: String)
        ensures
            r@ == lossy_text(self.read()),
    {
        utf8_lossy(self.bytes.as_slice())
    }
}

/// Names of levels are read as the levels that they name, in any other case a level of the
/// model's own; the empty name is none. A level is sent under its name, where any effort is
/// made; a service that knows three levels is sent the nearest.
pub proof fn levels_have_their_names(name: Seq<char>)
    ensures
        EffortV::named(""@) is None,
        EffortV::named("off"@) == Some(EffortV::Off),
        EffortV::named("low"@) == Some(EffortV::Low),
        EffortV::named("medium"@) == Some(EffortV::Medium),
        EffortV::named("high"@) == Some(EffortV::High),
        name != ""@ && name != "off"@ && name != "low"@ && name != "medium"@ && name != "high"@
            ==> EffortV::named(name) == Some(EffortV::Custom(name)),
        EffortV::Off.wire() is None && EffortV::Off.hosted() is None,
        EffortV::Low.wire() == Some("low"@) && EffortV::Low.hosted() == Some("low"@),
        EffortV::Medium.wire() == Some("medium"@) && EffortV::Medium.hosted() == Some("medium"@),
        EffortV::High.wire() == Some("high"@) && EffortV::High.hosted() == Some("high"@),
        EffortV::Custom(name).wire() == Some(name) && EffortV::Custom(name).hosted() == Some(
            "high"@,
        ),
{
    reveal_strlit("");
    reveal_strlit("off");
    reveal_strlit("low");
    reveal_strlit("medium");
    reveal_strlit("high");
    assert("low"@.len() == 3 && "off"@.len() == 3 && "high"@.len() == 4 && "medium"@.len() == 6);
    assert("low"@[0] != "off"@[0]);
}

/// An answer is shown to the user without the white space around it: whole up to so many
/// characters, and else its beginning with a mark that it was cut.
pub proof fn answers_are_shown_or_cut(body: Seq<char>)
    ensures
        trimmed(body).len() <= 300 ==> shown_body(body) == trimmed(body),
        trimmed(body).len() > 300 ==> shown_body(body) == trimmed(body).take(300)
            + "…[truncated]"@,
{
}

/// What an answer that is no success means: the status of a refusal, then the words and the
/// status of an empty account, then the words of too long a conversation. Anything else may be
/// tried again.
pub proof fn answers_mean_their_status_and_words(status_code: u16, lower: Seq<char>)
    ensures
        ({
            let class = class_of(status_code, lower);
            let refused = status_code == 401 || status_code == 403;
            let broke = status_code == 402 || contains_text(lower, "quota"@) || contains_text(
                lower,
                "billing"@,
            ) || contains_text(lower, "credit"@) || contains_text(lower, "insufficient_quota"@);
            let long = contains_text(lower, "context_length_exceeded"@) || contains_text(
                lower,
                "too long"@,
            ) || (contains_text(lower, "context"@) && contains_text(lower, "maximum"@)) || (
            contains_text(lower, "context"@) && contains_text(lower, "limit"@));
            &&& class == ErrorClass::Auth <==> refused
            &&& class == ErrorClass::Credits <==> !refused && broke
            &&& class == ErrorClass::Context <==> !refused && !broke && long
            &&& class == ErrorClass::Other <==> !refused && !broke && !long
        }),
{
}

/// An error keeps the answer and its status, tells the user what to do, and keeps the hint how
/// long to wait where waiting helps.
pub proof fn errors_say_what_came(
    e: ProviderError,
    class: ErrorClass,
    status_code: u16,
    body: Seq<char>,
    retry_after: Option<u64>,
)
    requires
        is_error_of(e, class, status_code, body, retry_after),
    ensures
        match e {
            ProviderError::AuthFailed { user_message, raw_message, http_status } => class
                == ErrorClass::Auth && raw_message@ == body && http_status == status_code
                && user_message@ == "Authentication failed. Check the API key for this provider."@,
            ProviderError::InsufficientCredits { user_message, raw_message, http_status } => class
                == ErrorClass::Credits && raw_message@ == body && http_status == status_code
                && user_message@ == "Insufficient credits. Check your provider billing."@,
            ProviderError::ContextExceeded { user_message, raw_message, http_status } => class
                == ErrorClass::Context && raw_message@ == body && http_status == status_code
                && user_message@
                == "Context window exceeded. Consider compacting the session."@,
            ProviderError::Other { user_message, raw_message, http_status, retry_after_secs } =>
            class == ErrorClass::Other && raw_message@ == body && http_status == status_code
                && user_message@ == "Provider error: "@ + shown_body(body) && retry_after_secs
                == retry_after,
            _ => false,
        },
{
}

/// A request that got no answer timed out, could not connect, or failed in flight, in this
/// order; its error keeps both messages.
pub proof fn failures_say_what_failed(
    e: ProviderError,
    timeout: bool,
    connect: bool,
    raw: Seq<char>,
    user: Seq<char>,
)
    requires
        is_transport_failure(e, timeout, connect, raw, user),
    ensures
        match e {
            ProviderError::Timeout { user_message, raw_message, http_status } => timeout
                && user_message@ == user && raw_message@ == raw && http_status == 0,
            ProviderError::ConnectFailed { user_message, raw_message, http_status } => !timeout
                && connect && user_message@ == user && raw_message@ == raw && http_status == 0,
            ProviderError::Request { user_message, raw_message, http_status } => !timeout
                && !connect && user_message@ == user && raw_message@ == raw && http_status == 0,
            _ => false,
        },
{
}

/// The fragments that every stream begins from: one that says nothing, and one that ends a
/// stream as a failure that may pass.
pub proof fn blank_and_failed_fragments()
    ensures
        blank_delta().role == "assistant"@,
        blank_delta().content is None && blank_delta().reasoning is None
            && blank_delta().tool_calls is None && blank_delta().finish_reason is None
            && blank_delta().usage is None && blank_delta().error_type is None,
        failed_delta().finish_reason == Some("error"@),
        failed_delta().error_type == Some("request"@),
        failed_delta().content is None && failed_delta().reasoning is None
            && failed_delta().tool_calls is None && failed_delta().usage is None,
{
}

/// The first 8192 bytes of an error are kept, as they came.
pub proof fn errors_are_read_up_to_a_limit(read: Seq<u8>, chunk: Seq<u8>)
    requires
        read.len() <= 8192,
    ensures
        read.len() + chunk.len() <= 8192 ==> kept_bytes(read, chunk) == read + chunk,
        read.len() + chunk.len() > 8192 ==> kept_bytes(read, chunk) == (read + chunk).take(8192),
        read.is_prefix_of(kept_bytes(read, chunk)),
{
    assert((read + chunk).take((read.len() + chunk.len()) as int) =~= read + chunk);
    assert(kept_bytes(read, chunk).take(read.len() as int) =~= read);
}

/// Two fragments with one model say the same in every field, and so do two calls, two states,
/// two models and two sets of parameters: the models lose nothing.
pub proof fn models_lose_nothing(
    d: Delta,
    e: Delta,
    c: ToolCall,
    b: ToolCall,
    h: HealthStatus,
    g: HealthStatus,
    m: ModelInfo,
    n: ModelInfo,
    s: SamplingParams,
    p: SamplingParams,
)
    ensures
        d@ == e@ ==> d.role@ == e.role@ && opt_string(d.content) == opt_string(e.content)
            && opt_string(d.reasoning) == opt_string(e.reasoning) && opt_string(d.finish_reason)
            == opt_string(e.finish_reason) && opt_string(d.error_type) == opt_string(e.error_type),
        d@ == e@ && d.usage is Some ==> e.usage is Some && d.usage->0@ == e.usage->0@,
        d@ == e@ && d.tool_calls is Some ==> e.tool_calls is Some && d.tool_calls->0@.len()
            == e.tool_calls->0@.len(),
        d@ == e@ && d.tool_calls is None ==> e.tool_calls is None,
        forall|i: int|
            d@ == e@ && d.tool_calls is Some && 0 <= i < d.tool_calls->0@.len()
                ==> #[trigger] d.tool_calls->0@[i]@ == e.tool_calls->0@[i]@,
        c@ == b@ ==> c.id@ == b.id@ && c.kind@ == b.kind@ && c.function@ == b.function@,
        h@ == g@ ==> h.status@ == g.status@ && opt_string(h.latency_ms) == opt_string(g.latency_ms)
            && opt_string(h.error) == opt_string(g.error),
        m@ == n@ ==> m.id@ == n.id@ && opt_string(m.name) == opt_string(n.name) && opt_string(
            m.provider_id,
        ) == opt_string(n.provider_id) && m.context_length == n.context_length,
        s@ == p@ ==> opt_string(s.temperature) == opt_string(p.temperature) && opt_string(s.top_p)
            == opt_string(p.top_p) && s.top_k == p.top_k && opt_string(s.min_p) == opt_string(
            p.min_p,
        ) && opt_string(s.presence_penalty) == opt_string(p.presence_penalty) && opt_string(
            s.frequency_penalty,
        ) == opt_string(p.frequency_penalty) && s.max_tokens == p.max_tokens,
        s@ == p@ ==> (s.effort is Some <==> p.effort is Some),
        s@ == p@ && s.effort is Some ==> s.effort->0@ == p.effort->0@,
{
    if d@ == e@ && d.tool_calls is Some {
        assert(d@.tool_calls == Some(calls_model(d.tool_calls->0@)));
        assert(e@.tool_calls == Some(calls_model(e.tool_calls->0@)));
        assert(calls_model(d.tool_calls->0@).len() == d.tool_calls->0@.len());
        assert(calls_model(e.tool_calls->0@).len() == e.tool_calls->0@.len());
        assert forall|i: int| 0 <= i < d.tool_calls->0@.len() implies #[trigger] d.tool_calls->0@[i]@
            == e.tool_calls->0@[i]@ by {
            assert(calls_model(d.tool_calls->0@)[i] == d.tool_calls->0@[i]@);
            assert(calls_model(e.tool_calls->0@)[i] == e.tool_calls->0@[i]@);
        }
    }
}

} // verus!
