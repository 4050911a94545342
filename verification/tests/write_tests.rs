use bibin::auth::AuthKey;
use bibin::config::BibinConfig;
use bibin::store::{get_paste, IOError, PasteStore};
use bibin::write::{delete, submit, submit_raw, submit_raw_with_key, submit_with_key, WriteError};
use bibin::IndexForm;

fn test_config() -> BibinConfig {
    BibinConfig::from_parts(
        AuthKey::new(String::from("password123")),
        String::from("https://bin.example"),
        Some(4),
        None,
        None,
        Some(100),
    )
}

fn form(password: &str, val: &str) -> IndexForm {
    IndexForm { val: String::from(val), password: AuthKey::new(String::from(password)) }
}

#[test]
fn submit_requires_the_password() {
    let config = test_config();
    let mut store = PasteStore::new();
    let outcome = submit(&config, form("wrong", "body"), &mut store);
    assert!(matches!(outcome, Err(WriteError::Unauthorized)));
    assert_eq!(store.len(), 0);
}

#[test]
fn submit_stores_and_redirects() {
    let config = test_config();
    let mut store = PasteStore::new();
    let uri = submit(&config, form("password123", "body"), &mut store).unwrap();
    assert!(uri.starts_with('/'));
    let id = &uri[1..];
    assert_eq!(id.len(), 4);
    assert_eq!(get_paste(&store, id), Ok(Some(String::from("body"))));
}

#[test]
fn submit_with_key_overwrites_that_id() {
    let config = test_config();
    let mut store = PasteStore::new();
    let uri = submit_with_key(&config, form("password123", "v1"), &mut store, String::from("abcd"))
        .unwrap();
    assert_eq!(uri, "/abcd");
    submit_with_key(&config, form("password123", "v2"), &mut store, String::from("abcd")).unwrap();
    assert_eq!(get_paste(&store, "abcd"), Ok(Some(String::from("v2"))));
}

#[test]
fn submit_raw_returns_the_full_url() {
    let config = test_config();
    let mut store = PasteStore::new();
    let url = submit_raw(String::from("raw body"), &config, &AuthKey::new(String::from(
        "password123",
    )), &mut store)
        .unwrap();
    assert!(url.starts_with("https://bin.example/"));
    let id = &url["https://bin.example/".len()..];
    assert_eq!(get_paste(&store, id), Ok(Some(String::from("raw body"))));
}

#[test]
fn submit_raw_requires_the_password() {
    let config = test_config();
    let mut store = PasteStore::new();
    let outcome = submit_raw(
        String::from("raw body"),
        &config,
        &AuthKey::new(String::from("wrong")),
        &mut store,
    );
    assert!(matches!(outcome, Err(WriteError::Unauthorized)));
    assert_eq!(store.len(), 0);
}

#[test]
fn submit_raw_with_key_returns_the_full_url() {
    let config = test_config();
    let mut store = PasteStore::new();
    let url = submit_raw_with_key(
        String::from("raw body"),
        &config,
        &AuthKey::new(String::from("password123")),
        &mut store,
        String::from("abcd"),
    )
    .unwrap();
    assert_eq!(url, "https://bin.example/abcd");
    assert_eq!(get_paste(&store, "abcd"), Ok(Some(String::from("raw body"))));
}

#[test]
fn delete_frees_the_id() {
    let config = test_config();
    let mut store = PasteStore::new();
    submit_with_key(&config, form("password123", "v"), &mut store, String::from("abcd")).unwrap();
    let password = AuthKey::new(String::from("password123"));
    let message = delete(String::from("abcd"), &config, &password, &mut store).unwrap();
    assert_eq!(message, "abcd deleted");
    assert_eq!(get_paste(&store, "abcd"), Ok(None));
}

#[test]
fn delete_of_absent_id_reports_the_store_error() {
    let config = test_config();
    let mut store = PasteStore::new();
    let password = AuthKey::new(String::from("password123"));
    let outcome = delete(String::from("zzzz"), &config, &password, &mut store);
    assert!(matches!(outcome, Err(WriteError::Store(IOError::NotFound))));
}

#[test]
fn delete_requires_the_password() {
    let config = test_config();
    let mut store = PasteStore::new();
    submit_with_key(&config, form("password123", "v"), &mut store, String::from("abcd")).unwrap();
    let outcome = delete(
        String::from("abcd"),
        &config,
        &AuthKey::new(String::from("wrong")),
        &mut store,
    );
    assert!(matches!(outcome, Err(WriteError::Unauthorized)));
    assert_eq!(get_paste(&store, "abcd"), Ok(Some(String::from("v"))));
}
