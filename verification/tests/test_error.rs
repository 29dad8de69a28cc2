use axum::http::StatusCode;
use crewride::error::{DetailValue, ErrorParts, ProxyError};

#[test]
fn test_proxy_error_display() {
    let error = ProxyError::UpstreamError {
        provider: "openai".to_string(),
        message: "connection timeout".to_string(),
    };
    assert_eq!(error.to_string(), "upstream error: openai - connection timeout");

    let error = ProxyError::Timeout { provider: "anthropic".to_string() };
    assert_eq!(error.to_string(), "request timeout: anthropic");

    let error = ProxyError::CircuitOpen { provider: "gemini".to_string() };
    assert_eq!(error.to_string(), "circuit breaker open: gemini");

    let error = ProxyError::RateLimitExceeded { limit: 60, window: "per minute".to_string(), retry_after: 30 };
    assert_eq!(error.to_string(), "rate limit exceeded: 60 per per minute");

    let error = ProxyError::InvalidRequest {
        field: "model".to_string(),
        message: "missing required field".to_string(),
    };
    assert_eq!(error.to_string(), "invalid request: model - missing required field");

    let error = ProxyError::ConfigError("invalid config".to_string());
    assert_eq!(error.to_string(), "configuration error: invalid config");

    let error = ProxyError::Internal("something went wrong".to_string());
    assert_eq!(error.to_string(), "internal error: something went wrong");
}

#[test]
fn test_proxy_error_into_response() {
    let status = |e: ProxyError| StatusCode::from_u16(e.response_parts().status).unwrap();

    let error = ProxyError::UpstreamError { provider: "openai".to_string(), message: "test error".to_string() };
    assert_eq!(status(error), StatusCode::BAD_GATEWAY);

    let error = ProxyError::Timeout { provider: "openai".to_string() };
    assert_eq!(status(error), StatusCode::GATEWAY_TIMEOUT);

    let error = ProxyError::CircuitOpen { provider: "openai".to_string() };
    assert_eq!(status(error), StatusCode::SERVICE_UNAVAILABLE);

    let error = ProxyError::RateLimitExceeded { limit: 60, window: "per minute".to_string(), retry_after: 30 };
    assert_eq!(status(error), StatusCode::TOO_MANY_REQUESTS);

    let error = ProxyError::InvalidRequest { field: "model".to_string(), message: "test".to_string() };
    assert_eq!(status(error), StatusCode::BAD_REQUEST);

    let error = ProxyError::ConfigError("test".to_string());
    assert_eq!(status(error), StatusCode::INTERNAL_SERVER_ERROR);

    let error = ProxyError::Internal("test".to_string());
    assert_eq!(status(error), StatusCode::INTERNAL_SERVER_ERROR);
}

#[test]
fn status_code_and_error_type_per_variant() {
    let cases = vec![
        (ProxyError::Timeout { provider: "p".to_string() }, 504, "timeout"),
        (ProxyError::CircuitOpen { provider: "p".to_string() }, 503, "circuit_breaker_open"),
        (ProxyError::ConfigError("c".to_string()), 500, "internal_error"),
        (ProxyError::InvalidRequest { field: "f".to_string(), message: "m".to_string() }, 400, "invalid_request"),
    ];
    for (error, code, kind) in cases {
        assert_eq!(error.status_code(), code);
        assert_eq!(error.error_type(), kind);
    }
}

#[test]
fn rate_limit_response_parts_carry_details_and_wait() {
    let error = ProxyError::RateLimitExceeded { limit: 7, window: "minute".to_string(), retry_after: 12 };
    let parts = error.response_parts();
    assert_eq!(parts.status, 429);
    assert_eq!(parts.error_type, "rate_limit_exceeded");
    assert_eq!(parts.message, "rate limit exceeded: 7 per minute");
    assert_eq!(parts.retry_after, Some(12));
    assert_eq!(parts.details.len(), 3);
    assert_eq!(parts.details[0].key, "limit");
    assert!(matches!(parts.details[0].value, DetailValue::Number(7)));
    assert_eq!(parts.details[1].key, "window");
    assert!(matches!(&parts.details[1].value, DetailValue::Text(t) if t == "minute"));
    assert_eq!(parts.details[2].key, "retry_after");
    assert!(matches!(parts.details[2].value, DetailValue::Number(12)));
}

#[test]
fn upstream_response_parts_name_provider_and_message() {
    let error = ProxyError::UpstreamError { provider: "openai".to_string(), message: "boom".to_string() };
    let parts = error.response_parts();
    assert_eq!(parts.status, 502);
    assert_eq!(parts.retry_after, None);
    let keys: Vec<&str> = parts.details.iter().map(|d| d.key.as_str()).collect();
    assert_eq!(keys, vec!["provider", "message"]);
}

#[test]
fn server_status_parts() {
    let parts = ErrorParts::for_server_status(503).unwrap();
    assert_eq!(parts.status, 503);
    assert_eq!(parts.error_type, "circuit_breaker_open");
    assert_eq!(parts.message, "HTTP 503");
    assert!(parts.details.is_empty());
    assert_eq!(parts.retry_after, None);

    assert_eq!(ErrorParts::for_server_status(500).unwrap().error_type, "internal_error");
    assert_eq!(ErrorParts::for_server_status(599).unwrap().message, "HTTP 599");
    assert!(ErrorParts::for_server_status(499).is_none());
    assert!(ErrorParts::for_server_status(600).is_none());
    assert!(ErrorParts::for_server_status(200).is_none());
}

#[test]
fn test_from_url_parse_error() {
    let url_err = url::ParseError::EmptyHost;
    let proxy_error: ProxyError = url_err.into();
    assert!(matches!(proxy_error, ProxyError::ConfigError(_)));
}

#[test]
fn url_error_message_names_the_parse_error() {
    let proxy_error: ProxyError = url::ParseError::EmptyHost.into();
    assert_eq!(proxy_error.to_string(), "configuration error: URL parse error: empty host");
    let e = ProxyError::from_url_error("bad port");
    assert!(matches!(e, ProxyError::ConfigError(ref m) if m == "URL parse error: bad port"));
}

#[test]
fn transport_errors_are_timeouts_or_upstream_errors() {
    let e = ProxyError::from_transport_error(true, "ignored".to_string());
    assert!(matches!(e, ProxyError::Timeout { ref provider } if provider == "unknown"));
    let e = ProxyError::from_transport_error(false, "connection refused".to_string());
    assert_eq!(e.to_string(), "upstream error: unknown - connection refused");
}

#[test]
fn url_errors_carry_the_variant_description() {
    let e: ProxyError = url::ParseError::InvalidPort.into();
    assert_eq!(e.to_string(), "configuration error: URL parse error: invalid port number");
    let e: ProxyError = url::ParseError::SetHostOnCannotBeABaseUrl.into();
    assert_eq!(e.to_string(), "configuration error: URL parse error: a cannot-be-a-base URL doesn\u{2019}t have a host to set");
}
