//! Deployment configuration, with the defaults applied to fields the loader
//! did not find. Only the password and the URL prefix are mandatory.
use crate::auth::AuthKey;
use vstd::prelude::*;

verus! {

/// The identifier length used when none is configured.
pub fn default_id_length() -> (r: usize)
    ensures
        r == 4,
{
    4
}

/// The reader-pool connection count used when none is configured.
pub fn default_database_connections() -> (r: u32)
    ensures
        r == 10,
{
    10
}

/// The bound on live entries used when none is configured.
pub fn default_max_entries() -> (r: i32)
    ensures
        r == 10000,
{
    10000
}

/// The backing-store location used when none is configured.
pub fn default_database_file() -> (r: String)
    ensures
        r@ == "bibin.sqlite"@,
{
    String::from_str("bibin.sqlite")
}

/// The deployment configuration the enclosing layer loads at startup.
pub struct BibinConfig {
    /// The password every mutating request must present.
    pub password: AuthKey,
    /// The URL prefix under which the service is reachable.
    pub prefix: String,
    /// How many characters a generated identifier has.
    pub id_length: usize,
    /// Where the backing store lives.
    pub database_file: String,
    /// How many connections the reader pool may open.
    pub database_connections: u32,
    /// The capacity bound on live entries.
    pub max_entries: i32,
}

impl BibinConfig {
    /// Builds a configuration from loaded fields, filling each absent
    /// optional field with its default.
    pub fn from_parts(
        password: AuthKey,
        prefix: String,
        id_length: Option<usize>,
        database_file: Option<String>,
        database_connections: Option<u32>,
        max_entries: Option<i32>,
    ) -> (r: BibinConfig)
        ensures
            r.password@ == password@,
            r.prefix@ == prefix@,
            r.id_length == match id_length {
                Some(v) => v,
                None => 4usize,
            },
            r.database_file@ == match database_file {
                Some(f) => f@,
                None => "bibin.sqlite"@,
            },
            r.database_connections == match database_connections {
                Some(v) => v,
                None => 10u32,
            },
            r.max_entries == match max_entries {
                Some(v) => v,
                None => 10000i32,
            },
    {
        let id_length = match id_length {
            Some(v) => v,
            None => default_id_length(),
        };
        let database_file = match database_file {
            Some(f) => f,
            None => default_database_file(),
        };
        let database_connections = match database_connections {
            Some(v) => v,
            None => default_database_connections(),
        };
        let max_entries = match max_entries {
            Some(v) => v,
            None => default_max_entries(),
        };
        BibinConfig { password, prefix, id_length, database_file, database_connections, max_entries }
    }
}

} // verus!
