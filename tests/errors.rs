use flaresync::errors::{contains_ignoring_case, ApiError, FlareSyncError, NetworkFailure};

fn http(status: u16) -> FlareSyncError {
    FlareSyncError::Network(NetworkFailure {
        status: Some(status),
        timed_out: false,
        message: String::new(),
    })
}

fn provider(code: Option<i64>, message: Option<&str>) -> FlareSyncError {
    FlareSyncError::Cloudflare(vec![ApiError { code, message: message.map(|m| m.to_string()) }])
}

#[test]
fn too_many_requests_and_unavailable_are_transient() {
    assert!(http(429).is_transient());
    assert!(http(503).is_transient());
    assert!(http(500).is_transient());
    assert!(http(599).is_transient());
}

#[test]
fn client_errors_are_permanent() {
    assert!(!http(404).is_transient());
    assert!(!http(400).is_transient());
    assert!(!http(403).is_transient());
    assert!(!http(600).is_transient());
}

#[test]
fn network_failure_without_status_or_with_timeout_is_transient() {
    let no_status = FlareSyncError::Network(NetworkFailure {
        status: None,
        timed_out: false,
        message: "connection refused".to_string(),
    });
    assert!(no_status.is_transient());
    let timed_out = FlareSyncError::Network(NetworkFailure {
        status: Some(404),
        timed_out: true,
        message: String::new(),
    });
    assert!(timed_out.is_transient());
}

#[test]
fn rate_limit_code_is_transient_whatever_the_message() {
    assert!(provider(Some(1015), None).is_transient());
    assert!(provider(Some(1015), Some("Authentication error")).is_transient());
}

#[test]
fn provider_messages_are_matched_ignoring_case() {
    assert!(provider(Some(9999), Some("Rate Limit exceeded")).is_transient());
    assert!(provider(None, Some("RATELIMIT")).is_transient());
    assert!(provider(None, Some("Too Many Requests")).is_transient());
    assert!(provider(None, Some("Service temporarily unavailable")).is_transient());
    assert!(provider(None, Some("upstream Timeout")).is_transient());
    assert!(provider(None, Some("Please try again later")).is_transient());
}

#[test]
fn other_provider_errors_are_permanent() {
    assert!(!provider(Some(9109), Some("Invalid access token")).is_transient());
    assert!(!provider(None, None).is_transient());
    assert!(!FlareSyncError::Cloudflare(vec![]).is_transient());
}

#[test]
fn one_transient_provider_error_is_enough() {
    let e = FlareSyncError::Cloudflare(vec![
        ApiError { code: Some(81057), message: Some("Record already exists.".to_string()) },
        ApiError { code: Some(1015), message: None },
    ]);
    assert!(e.is_transient());
}

#[test]
fn other_errors_are_permanent() {
    assert!(!FlareSyncError::Config("x".to_string()).is_transient());
    assert!(!FlareSyncError::Io("disk full".to_string()).is_transient());
    assert!(!FlareSyncError::Json("bad".to_string()).is_transient());
    assert!(!FlareSyncError::InvalidIp("x".to_string()).is_transient());
    assert!(!FlareSyncError::QuorumNotReached.is_transient());
}

#[test]
fn substring_search_ignores_case_of_haystack() {
    assert!(contains_ignoring_case("Try Again", "try again"));
    assert!(!contains_ignoring_case("try", "try again"));
    assert!(contains_ignoring_case("abc", ""));
    assert!(!contains_ignoring_case("tr y again", "try again"));
}

#[test]
fn error_texts() {
    assert_eq!(
        FlareSyncError::Config("DOMAIN_NAME must be set".to_string()).to_string(),
        "Configuration error: DOMAIN_NAME must be set"
    );
    assert_eq!(FlareSyncError::Io("denied".to_string()).to_string(), "IO error: denied");
    assert_eq!(http(503).to_string(), "Network error: ");
    assert_eq!(FlareSyncError::Json("eof".to_string()).to_string(), "JSON error: eof");
    assert_eq!(
        FlareSyncError::InvalidIp("<html>".to_string()).to_string(),
        "Failed to parse IP address: <html>"
    );
    assert_eq!(FlareSyncError::QuorumNotReached.to_string(), "IP address quorum not reached");
    assert_eq!(FlareSyncError::OutOfOrder.to_string(), "Reconciliation event out of order");
}

#[test]
fn provider_error_text_joins_messages() {
    let e = FlareSyncError::Cloudflare(vec![
        ApiError { code: Some(1), message: Some("first".to_string()) },
        ApiError { code: Some(2), message: None },
        ApiError { code: None, message: Some("second".to_string()) },
    ]);
    assert_eq!(e.to_string(), "Cloudflare API error: first; second");
    assert_eq!(FlareSyncError::Cloudflare(vec![]).to_string(), "Cloudflare API error: ");
}
