//! Per-client rate limiting through a Durable Object (sliding window).
use vstd::prelude::*;

use crate::text::owned;
use crate::wasm_server::durable_objects::DoCall;

verus! {

/// Configuration of a rate limit.
#[derive(Clone, Copy, Debug)]
pub struct RateLimitConfig {
    /// Maximum number of requests allowed in the window.
    pub limit: u64,
    /// Window in milliseconds.
    pub window_ms: u64,
}

impl Default for RateLimitConfig {
    /// 100 requests per minute.
    fn default() -> (r: Self)
        ensures
            r.limit == 100,
            r.window_ms == 60000,
    {
        RateLimitConfig { limit: 100, window_ms: 60000 }
    }
}

impl RateLimitConfig {
    /// `limit` requests per `window_ms` milliseconds.
    pub fn new(limit: u64, window_ms: u64) -> (r: Self)
        ensures
            r.limit == limit,
            r.window_ms == window_ms,
    {
        RateLimitConfig { limit, window_ms }
    }

    /// `limit` requests per second.
    pub fn per_second(limit: u64) -> (r: Self)
        ensures
            r.limit == limit,
            r.window_ms == 1000,
    {
        RateLimitConfig::new(limit, 1000)
    }

    /// `limit` requests per minute.
    pub fn per_minute(limit: u64) -> (r: Self)
        ensures
            r.limit == limit,
            r.window_ms == 60000,
    {
        RateLimitConfig::new(limit, 60000)
    }

    /// `limit` requests per hour.
    pub fn per_hour(limit: u64) -> (r: Self)
        ensures
            r.limit == limit,
            r.window_ms == 3600000,
    {
        RateLimitConfig::new(limit, 3600000)
    }
}

/// Result of a rate limit check.
#[derive(Clone, Debug)]
pub struct RateLimitResult {
    /// Whether the request is allowed.
    pub allowed: bool,
    /// Requests remaining in the current window.
    pub remaining: u64,
    /// Total limit.
    pub limit: u64,
    /// Milliseconds until the window resets.
    pub reset_ms: u64,
    /// Milliseconds to wait before retrying (only when not allowed).
    pub retry_after_ms: Option<u64>,
}

/// A check command: the limit, the window, whether to count this request,
/// and the client.
#[derive(Debug)]
pub struct CheckRequest {
    /// Maximum number of requests in the window.
    pub limit: u64,
    /// Window in milliseconds.
    pub window_ms: u64,
    /// Whether the request counts against the limit.
    pub record: bool,
    /// Client checked.
    pub client_id: String,
}

/// Rate limiter backed by a Durable Object namespace.
#[derive(Debug)]
pub struct DurableObjectRateLimiter {
    namespace: String,
    config: RateLimitConfig,
}

/// Error of a rate limiter operation.
#[derive(Debug)]
pub enum RateLimitError {
    /// No environment has been set.
    NoEnvironment,
    /// Worker or Durable Object communication error, as reported.
    Worker(String),
    /// Serialisation error.
    Serialization(String),
    /// Deserialisation error.
    Deserialization(String),
}

/// How a rate limiter error reads.
pub open spec fn rate_limit_message(e: RateLimitError) -> Seq<char> {
    match e {
        RateLimitError::NoEnvironment => "No environment set"@,
        RateLimitError::Worker(m) => "Worker error: "@ + m@,
        RateLimitError::Serialization(m) => "Serialization error: "@ + m@,
        RateLimitError::Deserialization(m) => "Deserialization error: "@ + m@,
    }
}

impl RateLimitError {
    /// The error as text.
    pub fn to_string(&self) -> (r: String)
        ensures
            r@ == rate_limit_message(*self),
    {
        crate::wasm_server::durable_objects::store_error_text(
            match self {
                RateLimitError::NoEnvironment => None,
                RateLimitError::Worker(m) => Some(("Worker error: ", m.as_str())),
                RateLimitError::Serialization(m) => Some(("Serialization error: ", m.as_str())),
                RateLimitError::Deserialization(m) => Some(("Deserialization error: ", m.as_str())),
            },
        )
    }
}

impl DurableObjectRateLimiter {
    /// A limiter on namespace `namespace` with the default configuration.
    pub fn new(namespace: &str) -> (r: Self)
        ensures
            r.namespace_view() == namespace@,
            r.config_view().limit == 100,
            r.config_view().window_ms == 60000,
    {
        DurableObjectRateLimiter { namespace: owned(namespace), config: RateLimitConfig::default() }
    }

    /// The namespace binding, as a value.
    pub closed spec fn namespace_view(self) -> Seq<char> {
        self.namespace@
    }

    /// The configuration, as a value.
    pub closed spec fn config_view(self) -> RateLimitConfig {
        self.config
    }

    /// The namespace binding.
    pub fn namespace(&self) -> (r: &str)
        ensures
            r@ == self.namespace_view(),
    {
        self.namespace.as_str()
    }

    /// The configuration.
    pub fn config(&self) -> (r: RateLimitConfig)
        ensures
            r == self.config_view(),
    {
        self.config
    }

    /// Use `config`.
    pub fn with_config(self, config: RateLimitConfig) -> (r: Self)
        ensures
            r.namespace_view() == self.namespace_view(),
            r.config_view() == config,
    {
        let mut s = self;
        s.config = config;
        s
    }

    /// Allow `limit` requests per window.
    pub fn with_limit(self, limit: u64) -> (r: Self)
        ensures
            r.namespace_view() == self.namespace_view(),
            r.config_view() == (RateLimitConfig { limit, ..self.config_view() }),
    {
        let mut s = self;
        s.config.limit = limit;
        s
    }

    /// Use a window of `window_ms` milliseconds.
    pub fn with_window_ms(self, window_ms: u64) -> (r: Self)
        ensures
            r.namespace_view() == self.namespace_view(),
            r.config_view() == (RateLimitConfig { window_ms, ..self.config_view() }),
    {
        let mut s = self;
        s.config.window_ms = window_ms;
        s
    }

    /// The command checking `client_id`, counted (`record`) or only peeked
    /// at; it goes to the client's own instance.
    pub fn check_call(&self, client_id: &str, record: bool) -> (r: DoCall<CheckRequest>)
        ensures
            r.key@ == client_id@,
            r.path@ == "/rate-limit/check"@,
            r.body.limit == self.config_view().limit,
            r.body.window_ms == self.config_view().window_ms,
            r.body.record == record,
            r.body.client_id@ == client_id@,
    {
        DoCall {
            key: owned(client_id),
            path: "/rate-limit/check",
            body: CheckRequest {
                limit: self.config.limit,
                window_ms: self.config.window_ms,
                record,
                client_id: owned(client_id),
            },
        }
    }

    /// The command resetting `client_id`'s window.
    pub fn reset_call(&self, client_id: &str) -> (r: DoCall<()>)
        ensures
            r.key@ == client_id@,
            r.path@ == "/rate-limit/reset"@,
    {
        DoCall { key: owned(client_id), path: "/rate-limit/reset", body: () }
    }
}

} // verus!
