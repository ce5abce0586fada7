use free_agent_gateway::clock::Moment;
use free_agent_gateway::error::{
    is_cloudflare_or_waf_block, is_empty_response_error, is_malformed_stream_error,
    is_model_forbidden, is_model_or_region_forbidden, is_region_forbidden,
    parse_retry_after_seconds, parse_retry_after_seconds_at, parse_retry_after_value_at,
    GatewayError,
};
use free_agent_gateway::sanitize::sanitize_diagnostic;

#[test]
fn error_response_uses_openai_compatible_envelope() {
    let (status, json) = GatewayError::ModelNotFound("missing".into()).into_response();

    assert_eq!(status, 404);
    let error = json.get("error").unwrap();
    assert_eq!(error.get("type").unwrap().as_str(), Some("model_not_found"));
    assert_eq!(error.get("code").unwrap().as_str(), Some("model_not_found"));
    assert!(error.get("param").unwrap().is_null());
    assert!(error.get("message").unwrap().as_str().is_some());
}

#[test]
fn diagnostic_sanitizer_removes_sensitive_values() {
    let sanitized = sanitize_diagnostic(
        "Authorization: Bearer secret-token key=secret-key token=secret-token-2",
    );

    assert!(!sanitized.contains("secret-token"));
    assert!(!sanitized.contains("secret-key"));
    assert!(sanitized.contains("Bearer [REDACTED]"));
    assert!(sanitized.contains("key=[REDACTED]"));
    assert!(sanitized.contains("token=[REDACTED]"));
}

#[test]
fn cloudflare_403_is_not_auth_failure() {
    let error = GatewayError::http_error(
        403,
        "Access denied | api.groq.com used Cloudflare to restrict access. Error code: 1009",
        None,
    );

    assert_eq!(error.category(), "waf_blocked");
    assert!(!error.is_auth_failure());
    assert!(!error.is_key_attributable_failure());
}

#[test]
fn region_model_403_is_not_key_attributable() {
    let error = GatewayError::http_error(403, "This model is not available in your region.", None);

    assert_eq!(error.category(), "region_forbidden");
    assert!(!error.is_auth_failure());
    assert!(!error.is_key_attributable_failure());
}

#[test]
fn model_forbidden_403_is_distinct_from_region_forbidden() {
    let error = GatewayError::http_error(403, "You do not have access to model foo.", None);

    assert_eq!(error.category(), "model_forbidden");
    assert!(!error.is_auth_failure());
    assert!(!error.is_key_attributable_failure());
}

#[test]
fn malformed_stream_errors_have_specific_category() {
    let decode = GatewayError::UpstreamError("error decoding response body".into());
    let tool = GatewayError::UpstreamError("incomplete streaming tool call arguments".into());

    assert_eq!(decode.category(), "malformed_stream");
    assert_eq!(tool.category(), "malformed_stream");
}

#[test]
fn empty_upstream_response_has_specific_category() {
    let error = GatewayError::UpstreamError("empty streaming chat completion response".into());

    assert_eq!(error.category(), "empty_response");
}

#[test]
fn plain_403_remains_auth_failure() {
    let error = GatewayError::http_error(403, "invalid api key", None);

    assert_eq!(error.category(), "auth_failed");
    assert!(error.is_auth_failure());
    assert!(error.is_key_attributable_failure());
}

#[test]
fn every_kind_of_error_has_its_answer() {
    let s = || "m".to_string();
    let cases = vec![
        (GatewayError::Config(s()), 500, "config_error", "Configuration error: m"),
        (GatewayError::ProviderNotFound(s()), 404, "provider_not_found", "Provider not found: m"),
        (GatewayError::ModelNotFound(s()), 404, "model_not_found", "Model not found: m"),
        (
            GatewayError::NoAvailableKeys(s()),
            503,
            "no_keys",
            "No available keys for provider: m",
        ),
        (
            GatewayError::AllProvidersFailed,
            503,
            "all_providers_failed",
            "All providers failed, including fallbacks",
        ),
        (GatewayError::UpstreamError(s()), 502, "upstream_error", "Upstream request failed: m"),
        (GatewayError::http_error(418, "m", None), 418, "http_error", "HTTP error 418: m"),
        (GatewayError::http_error(7, "m", None), 502, "http_error", "HTTP error 7: m"),
        (GatewayError::Timeout(s()), 504, "timeout", "Timeout: m"),
        (GatewayError::InvalidRequest(s()), 400, "invalid_request", "Invalid request: m"),
        (GatewayError::StateError(s()), 500, "state_error", "State persistence error: m"),
        (GatewayError::RateLimited, 429, "rate_limited", "Rate limited by upstream"),
        (GatewayError::AuthFailed, 401, "auth_failed", "Authentication failed with upstream"),
        (GatewayError::ProviderDisabled(s()), 403, "provider_disabled", "Provider disabled: m"),
        (GatewayError::Serialization(s()), 500, "serialization_error", "Serialization error: m"),
        (GatewayError::Io(s()), 500, "internal_error", "I/O error: m"),
        (GatewayError::Reqwest(s()), 500, "internal_error", "Reqwest error: m"),
        (GatewayError::Json(s()), 500, "internal_error", "JSON error: m"),
        (GatewayError::Yaml(s()), 500, "internal_error", "YAML error: m"),
        (GatewayError::Database(s()), 500, "internal_error", "Database error: m"),
    ];
    for (error, status, kind, message) in cases {
        let (s, k, _) = error.answer();
        assert_eq!(s, status);
        assert_eq!(k, kind);
        assert_eq!(error.to_string(), message);
    }
}

#[test]
fn messages_are_told_apart() {
    assert!(is_cloudflare_or_waf_block("Sorry, you have been blocked. Cloudflare Ray ID"));
    assert!(is_region_forbidden("not available in your region"));
    assert!(is_model_forbidden("You do not have access to model x"));
    assert!(is_model_or_region_forbidden("not available in your region"));
    assert!(!is_model_or_region_forbidden("invalid api key"));
    assert!(is_malformed_stream_error("error decoding response body"));
    assert!(is_empty_response_error("empty streaming chat completion response"));
    assert!(!is_empty_response_error("fine"));
}

#[test]
fn waits_are_read_from_values_json_dates_and_sentences() {
    let now = Moment { seconds: 784_111_700, nanos: 0 };
    assert_eq!(parse_retry_after_value_at("120", now), Some(120));
    assert_eq!(parse_retry_after_value_at(" 7 ", now), Some(7));
    // Sun, 06 Nov 1994 08:49:37 GMT is 784111777
    assert_eq!(
        parse_retry_after_value_at("Sun, 06 Nov 1994 08:49:37 GMT", now),
        Some(77)
    );
    assert_eq!(
        parse_retry_after_value_at("1994-11-06T08:49:37Z", now),
        Some(77)
    );
    assert_eq!(parse_retry_after_value_at("soon", now), None);
    assert_eq!(
        parse_retry_after_seconds_at(r#"{"error":{"retry_after":12}}"#, now),
        Some(12)
    );
    assert_eq!(
        parse_retry_after_seconds_at("Please retry after 2 minutes.", now),
        Some(120)
    );
    assert_eq!(parse_retry_after_seconds("nothing here"), None);
}

#[test]
fn an_error_knows_when_to_try_again() {
    let told = GatewayError::http_error(429, "retry after 9 seconds", Some(60));
    assert_eq!(told.retry_after_seconds(), Some(60));
    let said = GatewayError::http_error(429, "retry after 9 seconds", None);
    assert_eq!(said.retry_after_seconds(), Some(9));
    assert_eq!(GatewayError::RateLimited.retry_after_seconds(), None);
}

#[test]
fn sanitizing_stops_at_the_end_of_a_value() {
    assert_eq!(sanitize_diagnostic("key=abc,rest"), "key=[REDACTED],rest");
    assert_eq!(sanitize_diagnostic("plain"), "plain");
    assert_eq!(
        sanitize_diagnostic("token=x Bearer y"),
        "token=[REDACTED] Bearer [REDACTED]"
    );
}

#[test]
fn waits_until_a_leap_second_are_those_of_the_clock() {
    // 1990-12-31T13:00:00Z on the day of a leap second, and a time of day before it
    let now = Moment { seconds: 662_648_400, nanos: 0 };
    assert_eq!(parse_retry_after_value_at("1990-12-31T23:59:60Z", now), Some(39_600));
    let later = Moment { seconds: 662_688_000, nanos: 0 };
    assert_eq!(parse_retry_after_value_at("1990-12-31T23:59:60Z", later), Some(0));
}
