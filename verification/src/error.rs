//! What can go wrong on the way to an upstream provider, and what it means.
use crate::clock::{
    Moment, now_moment, parse_rfc2822, parse_rfc3339, rfc2822_date, rfc3339_date, seconds_until,
    whole_seconds_until,
};
use crate::json::{group_json_views, items_view, Json, JsonView, members_view, ObjectBuilder};
use crate::json_text::{document, parse_json};
use crate::patterns::{capture_groups, first_match};
use crate::text::{
    concat2, contains, decimal, decimals_read_back, is_digit, lower, occurs, opt_view, parse_u64,
    same, to_lower, trim, trimmed, u64_of, u64_text,
};
use vstd::prelude::*;

verus! {

/// Unified error type for the gateway.
#[derive(Debug)]
pub enum GatewayError {
    Config(String),
    ProviderNotFound(String),
    ModelNotFound(String),
    NoAvailableKeys(String),
    AllProvidersFailed,
    UpstreamError(String),
    HttpError { status: u16, message: String, retry_after_seconds: Option<u64> },
    Timeout(String),
    InvalidRequest(String),
    StateError(String),
    RateLimited,
    AuthFailed,
    ProviderDisabled(String),
    Serialization(String),
    Io(String),
    Reqwest(String),
    Json(String),
    Yaml(String),
    Database(String),
}

/// Convenient Result alias.
pub type GatewayResult<T> = Result<T, GatewayError>;

// ---------------------------------------------------------------- messages
/// Whether a message tells of Cloudflare or of a firewall that turned the
/// request away.
pub open spec fn tells_of_waf(message: Seq<char>) -> bool {
    let l = lower(message);
    ||| occurs(l, "cloudflare"@)
    ||| occurs(l, "error code: 1009"@)
    ||| occurs(l, "error code 1009"@)
    ||| occurs(l, "cf-error"@)
    ||| occurs(l, "access denied"@)
    ||| occurs(l, "the owner of this website has banned"@)
    ||| occurs(l, "waf"@)
}

/// Whether a message tells that a region is not served.
pub open spec fn tells_of_region(message: Seq<char>) -> bool {
    let l = lower(message);
    ||| occurs(l, "not available in your region"@)
    ||| occurs(l, "region restricted"@)
    ||| occurs(l, "region is not supported"@)
    ||| occurs(l, "not supported in your region"@)
}

/// Whether a message tells that a model is closed to the caller.
pub open spec fn tells_of_model(message: Seq<char>) -> bool {
    let l = lower(message);
    ||| occurs(l, "do not have access to model"@)
    ||| occurs(l, "model is not available"@)
    ||| occurs(l, "model not available"@)
    ||| occurs(l, "model is not accessible"@)
    ||| occurs(l, "model_not_found"@)
    ||| occurs(l, "does not have access to model"@)
    ||| occurs(l, "not authorized for model"@)
}

/// Whether a message tells of a broken stream.
pub open spec fn tells_of_broken_stream(message: Seq<char>) -> bool {
    let l = lower(message);
    ||| occurs(l, "error decoding response body"@)
    ||| occurs(l, "incomplete streaming tool call arguments"@)
    ||| occurs(l, "invalid tool call"@)
    ||| occurs(l, "malformed sse"@)
    ||| occurs(l, "malformed stream"@)
    ||| occurs(l, "invalid streaming"@)
}

/// Whether a message tells of an answer without contents.
pub open spec fn tells_of_empty_answer(message: Seq<char>) -> bool {
    let l = lower(message);
    ||| occurs(l, "empty chat completion response"@)
    ||| occurs(l, "empty streaming chat completion response"@)
    ||| occurs(l, "empty upstream response"@)
}

/// Whether a message blames the credentials.
pub open spec fn tells_of_credentials(message: Seq<char>) -> bool {
    let l = lower(message);
    ||| occurs(l, "invalid api key"@)
    ||| occurs(l, "invalid token"@)
    ||| occurs(l, "unauthorized"@)
    ||| occurs(l, "authentication"@)
    ||| occurs(l, "permission denied"@)
    ||| occurs(l, "forbidden"@)
    ||| occurs(l, "insufficient"@)
    ||| occurs(l, "quota"@)
}

/// Whether a message tells of Cloudflare or of a firewall that turned the
/// request away.
pub fn is_cloudflare_or_waf_block(message: &str) -> (r: bool)
    ensures
        r == tells_of_waf(message@),
{
    let l = to_lower(message);
    let s = l.as_str();
    contains(s, "cloudflare") || contains(s, "error code: 1009") || contains(s, "error code 1009")
        || contains(s, "cf-error") || contains(s, "access denied") || contains(
        s,
        "the owner of this website has banned",
    ) || contains(s, "waf")
}

/// Whether a message tells that a model or a region is closed.
pub fn is_model_or_region_forbidden(message: &str) -> (r: bool)
    ensures
        r == (tells_of_region(message@) || tells_of_model(message@)),
{
    is_region_forbidden(message) || is_model_forbidden(message)
}

/// Whether a message tells that a region is not served.
pub fn is_region_forbidden(message: &str) -> (r: bool)
    ensures
        r == tells_of_region(message@),
{
    let l = to_lower(message);
    let s = l.as_str();
    contains(s, "not available in your region") || contains(s, "region restricted") || contains(
        s,
        "region is not supported",
    ) || contains(s, "not supported in your region")
}

/// Whether a message tells that a model is closed to the caller.
pub fn is_model_forbidden(message: &str) -> (r: bool)
    ensures
        r == tells_of_model(message@),
{
    let l = to_lower(message);
    let s = l.as_str();
    contains(s, "do not have access to model") || contains(s, "model is not available")
        || contains(s, "model not available") || contains(s, "model is not accessible")
        || contains(s, "model_not_found") || contains(s, "does not have access to model")
        || contains(s, "not authorized for model")
}

/// Whether a message tells of a broken stream.
pub fn is_malformed_stream_error(message: &str) -> (r: bool)
    ensures
        r == tells_of_broken_stream(message@),
{
    let l = to_lower(message);
    let s = l.as_str();
    contains(s, "error decoding response body") || contains(
        s,
        "incomplete streaming tool call arguments",
    ) || contains(s, "invalid tool call") || contains(s, "malformed sse") || contains(
        s,
        "malformed stream",
    ) || contains(s, "invalid streaming")
}

/// Whether a message tells of an answer without contents.
pub fn is_empty_response_error(message: &str) -> (r: bool)
    ensures
        r == tells_of_empty_answer(message@),
{
    let l = to_lower(message);
    let s = l.as_str();
    contains(s, "empty chat completion response") || contains(
        s,
        "empty streaming chat completion response",
    ) || contains(s, "empty upstream response")
}

fn looks_like_auth_forbidden(message: &str) -> (r: bool)
    ensures
        r == tells_of_credentials(message@),
{
    let l = to_lower(message);
    let s = l.as_str();
    contains(s, "invalid api key") || contains(s, "invalid token") || contains(s, "unauthorized")
        || contains(s, "authentication") || contains(s, "permission denied") || contains(
        s,
        "forbidden",
    ) || contains(s, "insufficient") || contains(s, "quota")
}

// ---------------------------------------------------------------- meaning
/// The HTTP status that an error stands for.
pub open spec fn status_of(e: GatewayError) -> u16 {
    match e {
        GatewayError::HttpError { status, .. } => status,
        GatewayError::RateLimited => 429,
        GatewayError::AuthFailed => 401,
        GatewayError::Timeout(_) => 504,
        _ => 500,
    }
}

/// Whether the provider turned the credentials away.
pub open spec fn auth_failure(e: GatewayError) -> bool {
    match e {
        GatewayError::AuthFailed => true,
        GatewayError::HttpError { status, message, .. } => {
            ||| status == 401
            ||| status == 403 && !tells_of_waf(message@) && !tells_of_region(message@)
                && !tells_of_model(message@)
        },
        _ => false,
    }
}

/// Whether the error speaks against the key that was used.
pub open spec fn key_attributable(e: GatewayError) -> bool {
    match e {
        GatewayError::AuthFailed => true,
        GatewayError::HttpError { status, message, .. } => {
            ||| status == 401 || status == 429 || status >= 500
            ||| status == 403 && !tells_of_waf(message@) && !tells_of_region(message@)
                && !tells_of_model(message@) && tells_of_credentials(message@)
        },
        GatewayError::Timeout(_) => true,
        GatewayError::Reqwest(_) => true,
        GatewayError::UpstreamError(_) => true,
        _ => false,
    }
}

/// The category of an HTTP status and message.
pub open spec fn http_category(status: u16, message: Seq<char>) -> Seq<char> {
    if status == 429 {
        "rate_limited"@
    } else if status == 401 {
        "auth_failed"@
    } else if status == 403 {
        if tells_of_waf(message) {
            "waf_blocked"@
        } else if tells_of_region(message) {
            "region_forbidden"@
        } else if tells_of_model(message) {
            "model_forbidden"@
        } else {
            "auth_failed"@
        }
    } else if status == 503 {
        "upstream_error"@
    } else {
        "upstream_http_error"@
    }
}

/// The category under which an error is counted.
pub open spec fn category_of(e: GatewayError) -> Seq<char> {
    match e {
        GatewayError::Config(_) => "config_error"@,
        GatewayError::ProviderNotFound(_) => "provider_not_found"@,
        GatewayError::ModelNotFound(_) => "model_not_found"@,
        GatewayError::NoAvailableKeys(_) => "no_keys"@,
        GatewayError::AllProvidersFailed => "all_providers_failed"@,
        GatewayError::UpstreamError(message) => if tells_of_empty_answer(message@) {
            "empty_response"@
        } else if tells_of_broken_stream(message@) {
            "malformed_stream"@
        } else {
            "upstream_error"@
        },
        GatewayError::Reqwest(_) => "upstream_error"@,
        GatewayError::HttpError { status, message, .. } => http_category(status, message@),
        GatewayError::Timeout(_) => "timeout"@,
        GatewayError::InvalidRequest(_) => "invalid_request"@,
        GatewayError::StateError(_) => "state_error"@,
        GatewayError::RateLimited => "rate_limited"@,
        GatewayError::AuthFailed => "auth_failed"@,
        GatewayError::ProviderDisabled(_) => "provider_disabled"@,
        GatewayError::Serialization(_) => "serialization_error"@,
        GatewayError::Json(_) => "serialization_error"@,
        GatewayError::Yaml(_) => "serialization_error"@,
        GatewayError::Io(_) => "io_error"@,
        GatewayError::Database(_) => "database_error"@,
    }
}

/// The message of an error.
pub open spec fn message_of(e: GatewayError) -> Seq<char> {
    match e {
        GatewayError::Config(m) => "Configuration error: "@ + m@,
        GatewayError::ProviderNotFound(m) => "Provider not found: "@ + m@,
        GatewayError::ModelNotFound(m) => "Model not found: "@ + m@,
        GatewayError::NoAvailableKeys(m) => "No available keys for provider: "@ + m@,
        GatewayError::AllProvidersFailed => "All providers failed, including fallbacks"@,
        GatewayError::UpstreamError(m) => "Upstream request failed: "@ + m@,
        GatewayError::HttpError { status, message, .. } => "HTTP error "@ + decimal(status as nat)
            + ": "@ + message@,
        GatewayError::Timeout(m) => "Timeout: "@ + m@,
        GatewayError::InvalidRequest(m) => "Invalid request: "@ + m@,
        GatewayError::StateError(m) => "State persistence error: "@ + m@,
        GatewayError::RateLimited => "Rate limited by upstream"@,
        GatewayError::AuthFailed => "Authentication failed with upstream"@,
        GatewayError::ProviderDisabled(m) => "Provider disabled: "@ + m@,
        GatewayError::Serialization(m) => "Serialization error: "@ + m@,
        GatewayError::Io(m) => "I/O error: "@ + m@,
        GatewayError::Reqwest(m) => "Reqwest error: "@ + m@,
        GatewayError::Json(m) => "JSON error: "@ + m@,
        GatewayError::Yaml(m) => "YAML error: "@ + m@,
        GatewayError::Database(m) => "Database error: "@ + m@,
    }
}

/// The status, error type and message that a client is answered with.
pub open spec fn answer_of(e: GatewayError) -> (u16, Seq<char>, Seq<char>) {
    match e {
        GatewayError::Config(m) => (500, "config_error"@, m@),
        GatewayError::ProviderNotFound(m) => (404, "provider_not_found"@, m@),
        GatewayError::ModelNotFound(m) => (404, "model_not_found"@, m@),
        GatewayError::NoAvailableKeys(m) => (503, "no_keys"@, m@),
        GatewayError::AllProvidersFailed => (
            503,
            "all_providers_failed"@,
            "All providers and fallbacks exhausted"@,
        ),
        GatewayError::UpstreamError(_) => (
            502,
            "upstream_error"@,
            "Upstream provider request failed"@,
        ),
        GatewayError::HttpError { status, message, .. } => (
            if 100 <= status <= 999 {
                status
            } else {
                502
            },
            "http_error"@,
            "Upstream provider returned HTTP "@ + decimal(status as nat) + ": "@ + message@,
        ),
        GatewayError::Timeout(m) => (504, "timeout"@, m@),
        GatewayError::InvalidRequest(m) => (400, "invalid_request"@, m@),
        GatewayError::StateError(m) => (500, "state_error"@, m@),
        GatewayError::RateLimited => (
            429,
            "rate_limited"@,
            "Rate limited by upstream provider"@,
        ),
        GatewayError::AuthFailed => (
            401,
            "auth_failed"@,
            "Authentication failed with upstream provider"@,
        ),
        GatewayError::ProviderDisabled(m) => (403, "provider_disabled"@, m@),
        GatewayError::Serialization(m) => (500, "serialization_error"@, m@),
        GatewayError::Io(_) => (500, "internal_error"@, message_of(e)),
        GatewayError::Reqwest(_) => (500, "internal_error"@, message_of(e)),
        GatewayError::Json(_) => (500, "internal_error"@, message_of(e)),
        GatewayError::Yaml(_) => (500, "internal_error"@, message_of(e)),
        GatewayError::Database(_) => (500, "internal_error"@, message_of(e)),
    }
}

/// The body of an error answer in the OpenAI envelope.
pub open spec fn error_envelope(kind: Seq<char>, message: Seq<char>) -> JsonView {
    JsonView::Object(
        seq![
            (
                "error"@,
                JsonView::Object(
                    seq![
                        ("type"@, JsonView::Text(kind)),
                        ("message"@, JsonView::Text(message)),
                        ("param"@, JsonView::Null),
                        ("code"@, JsonView::Text(kind)),
                    ],
                ),
            ),
        ],
    )
}

impl GatewayError {
    /// An error of the upstream provider with an HTTP status.
    pub fn http_error(status: u16, message: &str, retry_after_seconds: Option<u64>) -> (r:
        GatewayError)
        ensures
            r matches GatewayError::HttpError { status: s, message: m, retry_after_seconds: a }
                && s == status && m@ == message@ && a == retry_after_seconds,
    {
        GatewayError::HttpError { status, message: message.to_owned(), retry_after_seconds }
    }

    /// The HTTP status that the error stands for.
    pub fn http_status(&self) -> (r: u16)
        ensures
            r == status_of(*self),
    {
        match self {
            GatewayError::HttpError { status, .. } => *status,
            GatewayError::RateLimited => 429,
            GatewayError::AuthFailed => 401,
            GatewayError::Timeout(_) => 504,
            _ => 500,
        }
    }

    /// Whether the provider turned the credentials away.
    pub fn is_auth_failure(&self) -> (r: bool)
        ensures
            r == auth_failure(*self),
    {
        match self {
            GatewayError::AuthFailed => true,
            GatewayError::HttpError { status, message, .. } => {
                *status == 401 || (*status == 403 && !is_cloudflare_or_waf_block(message.as_str())
                    && !is_model_or_region_forbidden(message.as_str()))
            },
            _ => false,
        }
    }

    /// Whether the error speaks against the key that was used.
    pub fn is_key_attributable_failure(&self) -> (r: bool)
        ensures
            r == key_attributable(*self),
    {
        match self {
            GatewayError::AuthFailed => true,
            GatewayError::HttpError { status, message, .. } => {
                if *status == 403 {
                    !is_cloudflare_or_waf_block(message.as_str())
                        && !is_model_or_region_forbidden(message.as_str())
                        && looks_like_auth_forbidden(message.as_str())
                } else {
                    *status == 401 || *status == 429 || *status >= 500
                }
            },
            GatewayError::Timeout(_) => true,
            GatewayError::Reqwest(_) => true,
            GatewayError::UpstreamError(_) => true,
            _ => false,
        }
    }

    /// The category under which the error is counted.
    pub fn category(&self) -> (r: &'static str)
        ensures
            r@ == category_of(*self),
    {
        match self {
            GatewayError::Config(_) => "config_error",
            GatewayError::ProviderNotFound(_) => "provider_not_found",
            GatewayError::ModelNotFound(_) => "model_not_found",
            GatewayError::NoAvailableKeys(_) => "no_keys",
            GatewayError::AllProvidersFailed => "all_providers_failed",
            GatewayError::UpstreamError(message) => {
                if is_empty_response_error(message.as_str()) {
                    "empty_response"
                } else if is_malformed_stream_error(message.as_str()) {
                    "malformed_stream"
                } else {
                    "upstream_error"
                }
            },
            GatewayError::Reqwest(_) => "upstream_error",
            GatewayError::HttpError { status, message, .. } => {
                if *status == 429 {
                    "rate_limited"
                } else if *status == 401 {
                    "auth_failed"
                } else if *status == 403 {
                    if is_cloudflare_or_waf_block(message.as_str()) {
                        "waf_blocked"
                    } else if is_region_forbidden(message.as_str()) {
                        "region_forbidden"
                    } else if is_model_forbidden(message.as_str()) {
                        "model_forbidden"
                    } else {
                        "auth_failed"
                    }
                } else if *status == 503 {
                    "upstream_error"
                } else {
                    "upstream_http_error"
                }
            },
            GatewayError::Timeout(_) => "timeout",
            GatewayError::InvalidRequest(_) => "invalid_request",
            GatewayError::StateError(_) => "state_error",
            GatewayError::RateLimited => "rate_limited",
            GatewayError::AuthFailed => "auth_failed",
            GatewayError::ProviderDisabled(_) => "provider_disabled",
            GatewayError::Serialization(_) => "serialization_error",
            GatewayError::Json(_) => "serialization_error",
            GatewayError::Yaml(_) => "serialization_error",
            GatewayError::Io(_) => "io_error",
            GatewayError::Database(_) => "database_error",
        }
    }

    /// The message of the error.
    pub fn to_string(&self) -> (r: String)
        ensures
            r@ == message_of(*self),
    {
        match self {
            GatewayError::Config(m) => concat2("Configuration error: ", m.as_str()),
            GatewayError::ProviderNotFound(m) => concat2("Provider not found: ", m.as_str()),
            GatewayError::ModelNotFound(m) => concat2("Model not found: ", m.as_str()),
            GatewayError::NoAvailableKeys(m) => concat2(
                "No available keys for provider: ",
                m.as_str(),
            ),
            GatewayError::AllProvidersFailed =>
                "All providers failed, including fallbacks".to_owned(),
            GatewayError::UpstreamError(m) => concat2("Upstream request failed: ", m.as_str()),
            GatewayError::HttpError { status, message, .. } => {
                let mut out = concat2("HTTP error ", u64_text(*status as u64).as_str());
                out.push_str(": ");
                out.push_str(message.as_str());
                out
            },
            GatewayError::Timeout(m) => concat2("Timeout: ", m.as_str()),
            GatewayError::InvalidRequest(m) => concat2("Invalid request: ", m.as_str()),
            GatewayError::StateError(m) => concat2("State persistence error: ", m.as_str()),
            GatewayError::RateLimited => "Rate limited by upstream".to_owned(),
            GatewayError::AuthFailed => "Authentication failed with upstream".to_owned(),
            GatewayError::ProviderDisabled(m) => concat2("Provider disabled: ", m.as_str()),
            GatewayError::Serialization(m) => concat2("Serialization error: ", m.as_str()),
            GatewayError::Io(m) => concat2("I/O error: ", m.as_str()),
            GatewayError::Reqwest(m) => concat2("Reqwest error: ", m.as_str()),
            GatewayError::Json(m) => concat2("JSON error: ", m.as_str()),
            GatewayError::Yaml(m) => concat2("YAML error: ", m.as_str()),
            GatewayError::Database(m) => concat2("Database error: ", m.as_str()),
        }
    }

    /// The status, error type and message that a client is answered with.
    pub fn answer(&self) -> (r: (u16, &'static str, String))
        ensures
            (r.0, r.1@, r.2@) == answer_of(*self),
    {
        match self {
            GatewayError::Config(m) => (500, "config_error", m.clone()),
            GatewayError::ProviderNotFound(m) => (404, "provider_not_found", m.clone()),
            GatewayError::ModelNotFound(m) => (404, "model_not_found", m.clone()),
            GatewayError::NoAvailableKeys(m) => (503, "no_keys", m.clone()),
            GatewayError::AllProvidersFailed => (
                503,
                "all_providers_failed",
                "All providers and fallbacks exhausted".to_owned(),
            ),
            GatewayError::UpstreamError(_) => (
                502,
                "upstream_error",
                "Upstream provider request failed".to_owned(),
            ),
            GatewayError::HttpError { status, message, .. } => {
                let mut out = concat2(
                    "Upstream provider returned HTTP ",
                    u64_text(*status as u64).as_str(),
                );
                out.push_str(": ");
                out.push_str(message.as_str());
                let code: u16 = if 100 <= *status && *status <= 999 {
                    *status
                } else {
                    502
                };
                (code, "http_error", out)
            },
            GatewayError::Timeout(m) => (504, "timeout", m.clone()),
            GatewayError::InvalidRequest(m) => (400, "invalid_request", m.clone()),
            GatewayError::StateError(m) => (500, "state_error", m.clone()),
            GatewayError::RateLimited => (
                429,
                "rate_limited",
                "Rate limited by upstream provider".to_owned(),
            ),
            GatewayError::AuthFailed => (
                401,
                "auth_failed",
                "Authentication failed with upstream provider".to_owned(),
            ),
            GatewayError::ProviderDisabled(m) => (403, "provider_disabled", m.clone()),
            GatewayError::Serialization(m) => (500, "serialization_error", m.clone()),
            _ => (500, "internal_error", self.to_string()),
        }
    }

    /// The status and body that a client is answered with: the OpenAI error
    /// envelope.
    pub fn into_response(&self) -> (r: (u16, Json))
        ensures
            r.0 == answer_of(*self).0,
            r.1@ == error_envelope(answer_of(*self).1, answer_of(*self).2),
    {
        let (status, kind, message) = self.answer();
        let mut inner = ObjectBuilder::new();
        inner.put_text("type", kind);
        inner.put_text("message", message.as_str());
        inner.put("param", Json::Null);
        inner.put_text("code", kind);
        assert(inner@ =~= error_envelope(kind@, message@)->Object_0[0].1->Object_0);
        let mut outer = ObjectBuilder::new();
        outer.put("error", inner.done());
        assert(outer@ =~= error_envelope(kind@, message@)->Object_0);
        (status, outer.done())
    }

    /// After how many seconds the provider asked to be tried again: as the
    /// error says, else as its message says at the moment `now`.
    pub fn retry_after_seconds_at(&self, now: Moment) -> (r: Option<u64>)
        requires
            0 <= now.seconds,
        ensures
            r == error_retry(*self, now),
    {
        match self {
            GatewayError::HttpError { message, retry_after_seconds, .. } => {
                match retry_after_seconds {
                    Some(seconds) => Some(*seconds),
                    None => parse_retry_after_seconds_at(message.as_str(), now),
                }
            },
            _ => None,
        }
    }

    /// After how many seconds the provider asked to be tried again.
    pub fn retry_after_seconds(&self) -> (r: Option<u64>)
        ensures
            exists|now: Moment| 0 <= now.seconds && r == #[trigger] error_retry(*self, now),
    {
        let now = now_moment();
        self.retry_after_seconds_at(now)
    }
}

// ---------------------------------------------------------------- retry times
/// After how many seconds an error asks to be tried again.
pub open spec fn error_retry(e: GatewayError, now: Moment) -> Option<u64> {
    match e {
        GatewayError::HttpError { message, retry_after_seconds, .. } => match retry_after_seconds {
            Some(seconds) => Some(seconds),
            None => text_retry(message@, now),
        },
        _ => None,
    }
}

/// The delay that a header value or a JSON string asks for: seconds, or a date.
pub open spec fn value_retry(value: Seq<char>, now: Moment) -> Option<u64> {
    let t = trimmed(value);
    match u64_of(t) {
        Some(seconds) => Some(seconds),
        None => match rfc2822_date(t) {
            Some(date) => Some(whole_seconds_until(date, now) as u64),
            None => match rfc3339_date(t) {
                Some(date) => Some(whole_seconds_until(date, now) as u64),
                None => None,
            },
        },
    }
}

/// The delay that a JSON value asks for.
pub open spec fn scalar_retry(value: JsonView, now: Moment) -> Option<u64> {
    match value.unsigned() {
        Some(seconds) => Some(seconds),
        None => match value.text() {
            Some(t) => value_retry(t, now),
            None => None,
        },
    }
}

/// The delay that a member of an object asks for.
pub open spec fn field_retry(value: JsonView, field: Seq<char>, now: Moment) -> Option<u64> {
    match value.get(field) {
        Some(v) => scalar_retry(v, now),
        None => None,
    }
}

/// The delay that the members of an object with a known name ask for.
pub open spec fn fields_retry(value: JsonView, now: Moment) -> Option<u64> {
    if field_retry(value, "retry_after"@, now) is Some {
        field_retry(value, "retry_after"@, now)
    } else if field_retry(value, "retry_after_seconds"@, now) is Some {
        field_retry(value, "retry_after_seconds"@, now)
    } else if field_retry(value, "cooldown_seconds"@, now) is Some {
        field_retry(value, "cooldown_seconds"@, now)
    } else if field_retry(value, "reset_after"@, now) is Some {
        field_retry(value, "reset_after"@, now)
    } else {
        field_retry(value, "reset_after_seconds"@, now)
    }
}

/// The delay that a document asks for: that of its own members, else of the
/// first part that asks for one.
pub open spec fn json_retry(value: JsonView, now: Moment) -> Option<u64>
    decreases value,
{
    match value {
        JsonView::Object(members) => match fields_retry(value, now) {
            Some(seconds) => Some(seconds),
            None => members_retry(members, now),
        },
        JsonView::Array(items) => items_retry(items, now),
        _ => None,
    }
}

/// The delay that the first of some items asks for that asks for one.
pub open spec fn items_retry(items: Seq<JsonView>, now: Moment) -> Option<u64>
    decreases items,
{
    if items.len() == 0 {
        None
    } else {
        match json_retry(items[0], now) {
            Some(seconds) => Some(seconds),
            None => items_retry(items.subrange(1, items.len() as int), now),
        }
    }
}

/// The delay that the first of some members asks for that asks for one.
pub open spec fn members_retry(members: Seq<(Seq<char>, JsonView)>, now: Moment) -> Option<u64>
    decreases members,
{
    if members.len() == 0 {
        None
    } else {
        match json_retry(members[0].1, now) {
            Some(seconds) => Some(seconds),
            None => members_retry(members.subrange(1, members.len() as int), now),
        }
    }
}

/// A delay stands before its unit, after a word that announces it.
pub open spec fn retry_word_first() -> Seq<char> {
    r"(?i)(?:retry|try again|reset|available).{0,40}?(\d+)\s*(second|seconds|sec|s|minute|minutes|min|m|hour|hours|hr|h|day|days|d)\b"@
}

/// A delay stands before its unit, and a word that announces it follows.
pub open spec fn retry_word_last() -> Seq<char> {
    r"(?i)(\d+)\s*(second|seconds|sec|s|minute|minutes|min|m|hour|hours|hr|h|day|days|d).{0,40}?(?:retry|try again|reset|available)"@
}

/// The seconds of a unit of time.
pub open spec fn unit_seconds(unit: Seq<char>) -> Option<u64> {
    let u = lower(unit);
    if u == "s"@ || u == "sec"@ || u == "second"@ || u == "seconds"@ {
        Some(1)
    } else if u == "m"@ || u == "min"@ || u == "minute"@ || u == "minutes"@ {
        Some(60)
    } else if u == "h"@ || u == "hr"@ || u == "hour"@ || u == "hours"@ {
        Some(3600)
    } else if u == "d"@ || u == "day"@ || u == "days"@ {
        Some(86400)
    } else {
        None
    }
}

/// A product, or the largest number where it does not fit.
pub open spec fn times(a: u64, b: u64) -> u64 {
    if a * b <= u64::MAX {
        (a * b) as u64
    } else {
        u64::MAX
    }
}

/// What a match says: nothing to go by, so that the next pattern is tried; or
/// the answer.
pub open spec fn match_retry(found: Option<(Option<Seq<char>>, Option<Seq<char>>)>) -> Option<
    Option<u64>,
> {
    match found {
        None => None,
        Some((Some(amount), Some(unit))) => match u64_of(amount) {
            None => Some(None),
            Some(n) => match unit_seconds(unit) {
                Some(s) => Some(Some(times(n, s))),
                None => None,
            },
        },
        Some(_) => Some(None),
    }
}

/// The delay that a sentence asks for.
pub open spec fn sentence_retry(text: Seq<char>) -> Option<u64> {
    match match_retry(first_match(retry_word_first(), text)) {
        Some(answer) => answer,
        None => match match_retry(first_match(retry_word_last(), text)) {
            Some(answer) => answer,
            None => None,
        },
    }
}

/// The delay that a text asks for: as a JSON document, else as a sentence.
pub open spec fn text_retry(text: Seq<char>, now: Moment) -> Option<u64> {
    match document(text) {
        Some(doc) => match json_retry(doc, now) {
            Some(seconds) => Some(seconds),
            None => sentence_retry(text),
        },
        None => sentence_retry(text),
    }
}

/// The delay that a header value asks for at the moment `now`: seconds, or a
/// date.
pub fn parse_retry_after_value_at(value: &str, now: Moment) -> (r: Option<u64>)
    requires
        0 <= now.seconds,
    ensures
        r == value_retry(value@, now),
{
    let trimmed = trim(value);
    let t = trimmed.as_str();
    match parse_u64(t) {
        Some(seconds) => Some(seconds),
        None => match parse_rfc2822(t) {
            Some(date) => Some(seconds_until(date, now)),
            None => match parse_rfc3339(t) {
                Some(date) => Some(seconds_until(date, now)),
                None => None,
            },
        },
    }
}

/// The delay that a header value asks for: seconds, or a date.
pub fn parse_retry_after_value(value: &str) -> (r: Option<u64>)
    ensures
        exists|now: Moment| 0 <= now.seconds && r == #[trigger] value_retry(value@, now),
{
    let now = now_moment();
    parse_retry_after_value_at(value, now)
}

fn json_retry_after_value(value: &Json, now: Moment) -> (r: Option<u64>)
    requires
        0 <= now.seconds,
    ensures
        r == scalar_retry(value@, now),
{
    match value.as_u64() {
        Some(seconds) => Some(seconds),
        None => match value.as_str() {
            Some(t) => parse_retry_after_value_at(t, now),
            None => None,
        },
    }
}

fn field_retry_after(value: &Json, field: &str, now: Moment) -> (r: Option<u64>)
    requires
        0 <= now.seconds,
    ensures
        r == field_retry(value@, field@, now),
{
    match value.get(field) {
        Some(v) => json_retry_after_value(v, now),
        None => None,
    }
}

/// The delay that a document asks for.
pub fn retry_after_from_json(value: &Json, now: Moment) -> (r: Option<u64>)
    requires
        0 <= now.seconds,
    ensures
        r == json_retry(value@, now),
    decreases value,
{
    broadcast use group_json_views;

    match value {
        Json::Object(members) => {
            let a = field_retry_after(value, "retry_after", now);
            if a.is_some() {
                return a;
            }
            let b = field_retry_after(value, "retry_after_seconds", now);
            if b.is_some() {
                return b;
            }
            let c = field_retry_after(value, "cooldown_seconds", now);
            if c.is_some() {
                return c;
            }
            let d = field_retry_after(value, "reset_after", now);
            if d.is_some() {
                return d;
            }
            let e = field_retry_after(value, "reset_after_seconds", now);
            if e.is_some() {
                return e;
            }
            let ghost all = members_view(members@);
            assert(all.skip(0) =~= all);
            let mut i: usize = 0;
            while i < members.len()
                invariant
                    i <= members@.len(),
                    0 <= now.seconds,
                    *value == Json::Object(*members),
                    all == members_view(members@),
                    json_retry(value@, now) == members_retry(all.skip(i as int), now),
                decreases members@.len() - i,
            {
                assert(decreases_to!(value => value->Object_0));
                assert(decreases_to!(members@ => members@[i as int]));
                let found = retry_after_from_json(&members[i].1, now);
                assert(all.skip(i as int)[0].1 == members@[i as int].1@);
                if found.is_some() {
                    return found;
                }
                i += 1;
                assert(all.skip(i as int) =~= all.skip(i - 1).subrange(
                    1,
                    all.skip(i - 1).len() as int,
                ));
            }
            None
        },
        Json::Array(items) => {
            let ghost all = items_view(items@);
            assert(all.skip(0) =~= all);
            let mut i: usize = 0;
            while i < items.len()
                invariant
                    i <= items@.len(),
                    0 <= now.seconds,
                    *value == Json::Array(*items),
                    all == items_view(items@),
                    json_retry(value@, now) == items_retry(all.skip(i as int), now),
                decreases items@.len() - i,
            {
                assert(decreases_to!(value => value->Array_0));
                assert(decreases_to!(items@ => items@[i as int]));
                let found = retry_after_from_json(&items[i], now);
                assert(all.skip(i as int)[0] == items@[i as int]@);
                if found.is_some() {
                    return found;
                }
                i += 1;
                assert(all.skip(i as int) =~= all.skip(i - 1).subrange(
                    1,
                    all.skip(i - 1).len() as int,
                ));
            }
            None
        },
        _ => None,
    }
}

/// A product, or the largest number where it does not fit.
fn saturating_times(a: u64, b: u64) -> (r: u64)
    ensures
        r == times(a, b),
{
    match a.checked_mul(b) {
        Some(p) => p,
        None => u64::MAX,
    }
}

fn seconds_in_unit(unit: &str) -> (r: Option<u64>)
    ensures
        r == unit_seconds(unit@),
{
    let lowered = to_lower(unit);
    let u = lowered.as_str();
    if same(u, "s") || same(u, "sec") || same(u, "second") || same(u, "seconds") {
        Some(1)
    } else if same(u, "m") || same(u, "min") || same(u, "minute") || same(u, "minutes") {
        Some(60)
    } else if same(u, "h") || same(u, "hr") || same(u, "hour") || same(u, "hours") {
        Some(3600)
    } else if same(u, "d") || same(u, "day") || same(u, "days") {
        Some(86400)
    } else {
        None
    }
}

/// What the groups of a match say of a delay.
pub fn retry_from_groups(found: Option<(Option<String>, Option<String>)>) -> (r: Option<
    Option<u64>,
>)
    ensures
        r == match_retry(
            match found {
                Some(g) => Some((opt_view(g.0), opt_view(g.1))),
                None => None,
            },
        ),
{
    match found {
        None => None,
        Some((amount, unit)) => match (amount, unit) {
            (Some(a), Some(u)) => match parse_u64(a.as_str()) {
                None => Some(None),
                Some(n) => match seconds_in_unit(u.as_str()) {
                    Some(s) => Some(Some(saturating_times(n, s))),
                    None => None,
                },
            },
            _ => Some(None),
        },
    }
}

/// The delay that a text asks for at the moment `now`.
pub fn parse_retry_after_seconds_at(text: &str, now: Moment) -> (r: Option<u64>)
    requires
        0 <= now.seconds,
    ensures
        r == text_retry(text@, now),
{
    if let Some(doc) = parse_json(text) {
        let found = retry_after_from_json(&doc, now);
        if found.is_some() {
            return found;
        }
    }
    let first = capture_groups(
        r"(?i)(?:retry|try again|reset|available).{0,40}?(\d+)\s*(second|seconds|sec|s|minute|minutes|min|m|hour|hours|hr|h|day|days|d)\b",
        text,
    );
    if let Some(answer) = retry_from_groups(first) {
        return answer;
    }
    let second = capture_groups(
        r"(?i)(\d+)\s*(second|seconds|sec|s|minute|minutes|min|m|hour|hours|hr|h|day|days|d).{0,40}?(?:retry|try again|reset|available)",
        text,
    );
    match retry_from_groups(second) {
        Some(answer) => answer,
        None => None,
    }
}

/// The delay that a text asks for.
pub fn parse_retry_after_seconds(text: &str) -> (r: Option<u64>)
    ensures
        exists|now: Moment| 0 <= now.seconds && r == #[trigger] text_retry(text@, now),
{
    let now = now_moment();
    parse_retry_after_seconds_at(text, now)
}

// ---------------------------------------------------------------- laws
/// An error is counted as an authentication failure exactly when it is one.
pub proof fn auth_failures_are_counted_as_such(e: GatewayError)
    ensures
        auth_failure(e) <==> category_of(e) == "auth_failed"@,
{
    reveal_strlit("auth_failed");
    reveal_strlit("config_error");
    reveal_strlit("provider_not_found");
    reveal_strlit("model_not_found");
    reveal_strlit("no_keys");
    reveal_strlit("all_providers_failed");
    reveal_strlit("empty_response");
    reveal_strlit("malformed_stream");
    reveal_strlit("upstream_error");
    reveal_strlit("rate_limited");
    reveal_strlit("waf_blocked");
    reveal_strlit("region_forbidden");
    reveal_strlit("model_forbidden");
    reveal_strlit("upstream_http_error");
    reveal_strlit("timeout");
    reveal_strlit("invalid_request");
    reveal_strlit("state_error");
    reveal_strlit("provider_disabled");
    reveal_strlit("serialization_error");
    reveal_strlit("io_error");
    reveal_strlit("database_error");
    let c = category_of(e);
    if c == "auth_failed"@ {
        assert(c[0] == 'a' && c[1] == 'u' && c.len() == 11);
    }
}

/// A firewall, region or model refusal is never held against the key.
pub proof fn refusals_are_not_held_against_the_key(e: GatewayError)
    requires
        e matches GatewayError::HttpError { status, message, .. } && status == 403 && (tells_of_waf(
            message@,
        ) || tells_of_region(message@) || tells_of_model(message@)),
    ensures
        !auth_failure(e),
        !key_attributable(e),
{
}

/// What is held against a key with status 401 or 403 is an authentication
/// failure.
pub proof fn charged_refusals_are_auth_failures(e: GatewayError)
    requires
        key_attributable(e),
        status_of(e) == 401 || status_of(e) == 403,
    ensures
        auth_failure(e),
{
}

/// A delay that is given as a number of seconds is the number, whenever it is
/// read.
pub proof fn delays_in_seconds_are_kept(seconds: u64, now: Moment)
    ensures
        value_retry(decimal(seconds as nat), now) == Some(seconds),
{
    let text = decimal(seconds as nat);
    decimals_read_back(seconds as nat);
    assert(is_digit(text[0]) && is_digit(text.last()));
    assert(trimmed(text) =~= text);
}

} // verus!
