//! The errors of providers.

use crate::text::{join2, join3};
use vstd::prelude::*;

verus! {

/// Why a provider could not serve a request.
#[derive(Debug, Clone, PartialEq)]
pub enum ProviderError {
    /// The request failed in flight.
    Request { user_message: String, raw_message: String, http_status: i32 },
    /// No connection to the provider could be made.
    ConnectFailed { user_message: String, raw_message: String, http_status: i32 },
    /// The provider stalled.
    Timeout { user_message: String, raw_message: String, http_status: i32 },
    /// The provider refused the credentials.
    AuthFailed { user_message: String, raw_message: String, http_status: i32 },
    /// The account has no credits left.
    InsufficientCredits { user_message: String, raw_message: String, http_status: i32 },
    /// The conversation does not fit in the model's context.
    ContextExceeded { user_message: String, raw_message: String, http_status: i32 },
    /// Any other answer that is not a success.
    Other {
        user_message: String,
        raw_message: String,
        http_status: i32,
        retry_after_secs: Option<u64>,
    },
    /// No provider is registered, or none under the name asked for.
    NoHealthyProvider { user_message: String },
}

impl ProviderError {
    /// The failure came before any answer of the provider.
    pub open spec fn is_transport(&self) -> bool {
        self is Request || self is ConnectFailed || self is Timeout
    }

    /// The provider's answer rules out that the same request succeeds later.
    pub open spec fn is_fatal(&self) -> bool {
        self is AuthFailed || self is InsufficientCredits || self is ContextExceeded
    }

    /// How long the provider asked to wait, in seconds.
    pub open spec fn hint(&self) -> Option<u64> {
        match self {
            ProviderError::Other { retry_after_secs, .. } => *retry_after_secs,
            _ => None,
        }
    }

    /// Whether the same request may be tried again.
    pub fn is_retryable(&self) -> (r: bool)
        ensures
            r == !self.is_fatal(),
    {
        match self {
            ProviderError::AuthFailed { .. } => false,
            ProviderError::InsufficientCredits { .. } => false,
            ProviderError::ContextExceeded { .. } => false,
            _ => true,
        }
    }

    /// Whether the provider could not be reached.
    pub fn is_transport_error(&self) -> (r: bool)
        ensures
            r == self.is_transport(),
    {
        match self {
            ProviderError::Request { .. } => true,
            ProviderError::ConnectFailed { .. } => true,
            ProviderError::Timeout { .. } => true,
            _ => false,
        }
    }

    /// How long the provider asked to wait, in seconds.
    pub fn retry_after(&self) -> (r: Option<u64>)
        ensures
            r == self.hint(),
    {
        match self {
            ProviderError::Other { retry_after_secs, .. } => *retry_after_secs,
            _ => None,
        }
    }

    /// The tag by which a client knows the errors it can act on.
    pub open spec fn tag(&self) -> Option<Seq<char>> {
        if self.is_transport() {
            Some("network_unreachable"@)
        } else if self is AuthFailed {
            Some("auth_failed"@)
        } else if self is InsufficientCredits {
            Some("insufficient_credits"@)
        } else if self is ContextExceeded {
            Some("context_exceeded"@)
        } else {
            None
        }
    }

    /// The tag by which a client knows the errors it can act on.
    pub fn wire_type_tag(&self) -> (r: Option<&'static str>)
        ensures
            crate::json::opt_text(r) == self.tag(),
    {
        match self {
            ProviderError::Request { .. } => Some("network_unreachable"),
            ProviderError::ConnectFailed { .. } => Some("network_unreachable"),
            ProviderError::Timeout { .. } => Some("network_unreachable"),
            ProviderError::AuthFailed { .. } => Some("auth_failed"),
            ProviderError::InsufficientCredits { .. } => Some("insufficient_credits"),
            ProviderError::ContextExceeded { .. } => Some("context_exceeded"),
            _ => None,
        }
    }
}

/// Why a tool server could not be used.
#[derive(Debug, Clone, PartialEq)]
pub enum MCPServerError {
    Generic(String),
    NotFound(String),
    /// A wait was given up after so many seconds.
    Timeout(u64),
    Transport(String),
    /// The server answered with an error.
    Protocol { code: i64, message: String },
}

/// Why the in-process engine could not be used.
#[derive(Debug, Clone, PartialEq)]
pub enum LocalEngineError {
    NotConfigured(String),
    ModelNotFound(String),
    Backend(String),
    Load { path: String, source: String },
    Context(String),
    Inference(String),
}

impl LocalEngineError {
    /// What the error says.
    pub fn message(&self) -> (r: String)
        ensures
            r@ == (match self {
                LocalEngineError::NotConfigured(m) => "local engine is not configured: "@ + m@,
                LocalEngineError::ModelNotFound(m) => "model file not found: "@ + m@,
                LocalEngineError::Backend(m) => "llama backend init failed: "@ + m@,
                LocalEngineError::Load { path, source } => "failed to load model "@ + path@ + ": "@
                    + source@,
                LocalEngineError::Context(m) => "failed to create context: "@ + m@,
                LocalEngineError::Inference(m) => "inference failed: "@ + m@,
            }),
    {
        match self {
            LocalEngineError::NotConfigured(m) => join2(
                "local engine is not configured: ",
                m.as_str(),
            ),
            LocalEngineError::ModelNotFound(m) => join2("model file not found: ", m.as_str()),
            LocalEngineError::Backend(m) => join2("llama backend init failed: ", m.as_str()),
            LocalEngineError::Load { path, source } => {
                let mut s = join3("failed to load model ", path.as_str(), ": ");
                s.push_str(source.as_str());
                s
            },
            LocalEngineError::Context(m) => join2("failed to create context: ", m.as_str()),
            LocalEngineError::Inference(m) => join2("inference failed: ", m.as_str()),
        }
    }
}

/// Why a schedule could not be changed.
#[derive(Debug, Clone, PartialEq)]
pub enum SchedulerError {
    /// The times are not understood, or the clockwork failed.
    Cron(String),
    NotFound(String),
    Storage(String),
}

/// Why a recipe could not be run.
#[derive(Debug, Clone, PartialEq)]
pub enum RecipeError {
    NotFound(String),
    Template(String),
    Storage(String),
    TurnFailed(String),
}

/// An error that no retry can mend always carries a tag, so a client can act on it; a
/// failure to reach the provider is tagged and may be retried.
pub proof fn tags_and_retries(e: ProviderError)
    ensures
        e.is_fatal() ==> e.tag() is Some,
        e.is_transport() ==> e.tag() == Some("network_unreachable"@) && !e.is_fatal(),
{
}

/// Which errors may be retried, which came before any answer, and what each is tagged with.
pub proof fn errors_are_told_apart(e: ProviderError)
    ensures
        e.is_fatal() == (match e {
            ProviderError::AuthFailed { .. } => true,
            ProviderError::InsufficientCredits { .. } => true,
            ProviderError::ContextExceeded { .. } => true,
            _ => false,
        }),
        e.is_transport() == (match e {
            ProviderError::Request { .. } => true,
            ProviderError::ConnectFailed { .. } => true,
            ProviderError::Timeout { .. } => true,
            _ => false,
        }),
        e.tag() == (match e {
            ProviderError::Request { .. } => Some("network_unreachable"@),
            ProviderError::ConnectFailed { .. } => Some("network_unreachable"@),
            ProviderError::Timeout { .. } => Some("network_unreachable"@),
            ProviderError::AuthFailed { .. } => Some("auth_failed"@),
            ProviderError::InsufficientCredits { .. } => Some("insufficient_credits"@),
            ProviderError::ContextExceeded { .. } => Some("context_exceeded"@),
            ProviderError::Other { .. } => None,
            ProviderError::NoHealthyProvider { .. } => None,
        }),
        e.hint() == (match e {
            ProviderError::Other { retry_after_secs, .. } => retry_after_secs,
            _ => None,
        }),
{
}

} // verus!
