use bibin::plaintext::is_plaintext_request;

#[test]
fn isplaintextrequest_test_no_header() {
    assert!(is_plaintext_request(None, None).0);
}

#[test]
fn test_api_headers() {
    for user_agent in ["curl/8.1.2", "HTTPie/3.2.1", "Wget/1.21.4"] {
        assert!(is_plaintext_request(None, Some(user_agent)).0);
    }
}

#[test]
fn test_browser_headers() {
    for user_agent in [
        "Mozilla/5.0 (X11; Linux x86_64) AppleWebKit/537.36 (KHTML, like Gecko) Chrome/114.0.0.0 Safari/537.36",
        "Mozilla/5.0 (X11; Linux x86_64; rv:109.0) Gecko/20100101 Firefox/114.0",
    ] {
        assert!(!is_plaintext_request(None, Some(user_agent)).0);
    }
}

#[test]
fn plain_format_wins_over_browser_agent() {
    assert!(is_plaintext_request(Some(true), Some("Mozilla/5.0 (X11; Linux x86_64)")).0);
}

#[test]
fn non_plain_format_defers_to_user_agent() {
    assert!(is_plaintext_request(Some(false), Some("curl/8.1.2")).0);
    assert!(!is_plaintext_request(Some(false), Some("Mozilla/5.0 (X11) Gecko/20100101")).0);
}

#[test]
fn agent_without_version_separator_is_plaintext() {
    assert!(is_plaintext_request(None, Some("SomeOddClient")).0);
}
