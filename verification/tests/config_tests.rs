use bibin::auth::AuthKey;
use bibin::config::{
    default_database_connections, default_database_file, default_id_length, default_max_entries,
    BibinConfig,
};

#[test]
fn check_default_values() {
    let default_values = BibinConfig::from_parts(
        AuthKey::new(String::from("A")),
        String::from("/"),
        None,
        None,
        None,
        None,
    );
    assert_eq!(default_values.prefix, "/");
    assert_eq!(default_values.id_length, default_id_length());
    assert_eq!(default_values.database_connections, default_database_connections());
    assert_eq!(default_values.max_entries, default_max_entries());
    assert_eq!(default_values.database_file, default_database_file());
}

#[test]
fn explicit_values_override_defaults() {
    let config = BibinConfig::from_parts(
        AuthKey::new(String::from("A")),
        String::from("https://bin.example"),
        Some(6),
        Some(String::from("store.sqlite")),
        Some(3),
        Some(50),
    );
    assert_eq!(config.prefix, "https://bin.example");
    assert_eq!(config.id_length, 6);
    assert_eq!(config.database_file, "store.sqlite");
    assert_eq!(config.database_connections, 3);
    assert_eq!(config.max_entries, 50);
}

#[test]
fn default_constants() {
    assert_eq!(default_id_length(), 4);
    assert_eq!(default_database_connections(), 10);
    assert_eq!(default_max_entries(), 10000);
    assert_eq!(default_database_file(), "bibin.sqlite");
}
