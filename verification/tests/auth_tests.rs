use bibin::auth::{auth_from_api_header, auth_from_auth_header, auth_outcome, AuthError, AuthKey};

fn key(s: &str) -> AuthKey {
    AuthKey::new(String::from(s))
}

#[test]
fn auth_test_no_header() {
    let outcome = auth_outcome(&vec![], &vec![]);
    assert!(matches!(outcome, Err(AuthError::Missing)));
}

#[test]
fn test_auth_from_auth_header() {
    // my_name:my_password
    let outcome = auth_outcome(&vec![], &vec![String::from("Basic bXlfbmFtZTpteV9wYXNzd29yZA==")]);
    let k = outcome.unwrap();
    assert!(k.is_valid(&key("my_password")));
    assert!(!k.is_valid(&key("my_name")));

    let outcome = auth_outcome(&vec![], &vec![String::from("Basic NOT_BASE64")]);
    assert!(outcome.is_err());

    let outcome = auth_outcome(&vec![], &vec![String::from("NotBasic NOT_BASE64")]);
    assert!(outcome.is_err());
}

#[test]
fn test_auth_from_api_key() {
    let outcome = auth_outcome(&vec![], &vec![]);
    assert!(outcome.is_err());

    let outcome = auth_outcome(&vec![String::from("my_password")], &vec![]);
    assert!(outcome.unwrap().is_valid(&key("my_password")));

    let outcome = auth_outcome(&vec![String::from("")], &vec![]);
    assert!(outcome.unwrap().is_valid(&key("")));
}

#[test]
fn api_key_wins_over_auth_header() {
    let outcome = auth_outcome(
        &vec![String::from("api_value")],
        &vec![String::from("Basic bXlfbmFtZTpteV9wYXNzd29yZA==")],
    );
    assert!(outcome.unwrap().is_valid(&key("api_value")));
}

#[test]
fn repeated_api_key_is_bad_count() {
    let headers = vec![String::from("a"), String::from("b")];
    assert!(matches!(auth_from_api_header(&headers), Err(AuthError::BadCount)));
    assert!(matches!(auth_outcome(&headers, &vec![]), Err(AuthError::BadCount)));
}

#[test]
fn repeated_auth_header_is_bad_count() {
    let headers = vec![String::from("Basic YTpi"), String::from("Basic YTpi")];
    assert!(matches!(auth_from_auth_header(&headers), Err(AuthError::BadCount)));
}

#[test]
fn wrong_scheme_is_unsupported() {
    let headers = vec![String::from("Bearer token")];
    assert!(matches!(auth_from_auth_header(&headers), Err(AuthError::UnsupportedAuth)));
}

#[test]
fn bad_base64_is_invalid_data() {
    let headers = vec![String::from("Basic NOT_BASE64")];
    assert!(matches!(auth_from_auth_header(&headers), Err(AuthError::InvalidData)));
}

#[test]
fn missing_colon_is_invalid_data() {
    // "nocolon" in base64
    let headers = vec![String::from("Basic bm9jb2xvbg==")];
    assert!(matches!(auth_from_auth_header(&headers), Err(AuthError::InvalidData)));
}

#[test]
fn invalid_utf8_is_invalid_data() {
    // the single byte 0xff in base64
    let headers = vec![String::from("Basic /w==")];
    assert!(matches!(auth_from_auth_header(&headers), Err(AuthError::InvalidData)));
}

#[test]
fn password_may_contain_colons() {
    // a:b:c decodes to the password b:c (split at the first colon only)
    let headers = vec![String::from("Basic YTpiOmM=")];
    let k = auth_from_auth_header(&headers).unwrap().unwrap();
    assert!(k.is_valid(&key("b:c")));
}

#[test]
fn auth_from_api_header_absent_is_none() {
    assert!(matches!(auth_from_api_header(&vec![]), Ok(None)));
}
