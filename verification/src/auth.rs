//! Authentication keys and the parsing of the two supported request headers:
//! an API-key header carrying the key verbatim, and a Basic Authorization
//! header carrying `user:password` in base64, of which only the password is
//! kept.
use crate::text::{find_char, str_eq};
use base64::Engine;
use vstd::prelude::*;
use vstd::utf8::{decode_utf8, valid_utf8};

verus! {

/// A key supplied by a client or configured as the deployment's password.
#[derive(Clone)]
pub struct AuthKey(String);

impl View for AuthKey {
    type V = Seq<char>;

    closed spec fn view(&self) -> Seq<char> {
        self.0@
    }
}

impl AuthKey {
    /// Wraps a raw key value.
    pub fn new(value: String) -> (r: AuthKey)
        ensures
            r@ == value@,
    {
        AuthKey(value)
    }

    /// Whether this supplied key matches the configured password.
    pub fn is_valid(&self, password: &AuthKey) -> (r: bool)
        ensures
            r == (self@ == password@),
    {
        password.0 == self.0
    }
}

/// The user name a tailnet proxy reports for the caller.
#[derive(Clone)]
pub struct TailscaleUser(String);

impl View for TailscaleUser {
    type V = Seq<char>;

    closed spec fn view(&self) -> Seq<char> {
        self.0@
    }
}

impl TailscaleUser {
    /// Wraps a raw user name.
    pub fn new(value: String) -> (r: TailscaleUser)
        ensures
            r@ == value@,
    {
        TailscaleUser(value)
    }

    /// Whether this reported user matches the configured one.
    pub fn is_valid(&self, tailscale_user: &TailscaleUser) -> (r: bool)
        ensures
            r == (self@ == tailscale_user@),
    {
        tailscale_user.0 == self.0
    }
}

/// Why a request could not be authenticated.
#[derive(Clone, Copy, Debug, PartialEq, Eq)]
pub enum AuthError {
    /// No recognised authentication header was present.
    Missing,
    /// A header that must occur at most once occurred more than once.
    BadCount,
    /// An Authorization header with a scheme other than Basic.
    UnsupportedAuth,
    /// A Basic credential that is not base64, not UTF-8, or lacks the
    /// `user:password` separator.
    InvalidData,
}

/// What base64's standard-alphabet decoder returns on a given input; `None`
/// stands for a rejected input.
pub uninterp spec fn b64_decoded(s: Seq<char>) -> Option<Seq<u8>>;

/// Relies on base64::Engine::decode with the general_purpose::STANDARD
/// engine: the result is a function of the input alone, and inputs with a
/// bad symbol, length or padding are rejected rather than decoded.
#[verifier::external_body]
fn b64_decode(s: &str) -> (r: Option<Vec<u8>>)
    ensures
        r is Some <==> b64_decoded(s@) is Some,
        r is Some ==> r->Some_0@ == b64_decoded(s@)->Some_0,
{
    match base64::engine::general_purpose::STANDARD.decode(s) {
        Ok(v) => Some(v),
        Err(_) => None,
    }
}

/// Relies on String::from_utf8: it succeeds on exactly the byte strings that
/// are valid UTF-8 and decodes them; success and result are stated with
/// vstd's own UTF-8 model.
#[verifier::external_body]
fn bytes_to_string(bytes: Vec<u8>) -> (r: Option<String>)
    ensures
        r is Some <==> valid_utf8(bytes@),
        r is Some ==> r->Some_0@ == decode_utf8(bytes@),
{
    match String::from_utf8(bytes) {
        Ok(s) => Some(s),
        Err(_) => None,
    }
}

/// What parsing one Basic Authorization header value yields: the password
/// part of the decoded `user:password` credential, or the error.
pub open spec fn spec_parse_basic(h: Seq<char>) -> Result<Seq<char>, AuthError> {
    if !(h.len() >= 6 && h.subrange(0, 6) == "Basic "@) {
        Err(AuthError::UnsupportedAuth)
    } else {
        match b64_decoded(h.skip(6)) {
            None => Err(AuthError::InvalidData),
            Some(bytes) => {
                if !valid_utf8(bytes) {
                    Err(AuthError::InvalidData)
                } else {
                    let d = decode_utf8(bytes);
                    match d.index_of_first(':') {
                        None => Err(AuthError::InvalidData),
                        Some(i) => Ok(d.skip(i + 1)),
                    }
                }
            },
        }
    }
}

/// Reads the key from the API-key header values: absent with no value,
/// taken verbatim from a single value, an error when the header repeats.
pub fn auth_from_api_header(api_keys: &Vec<String>) -> (r: Result<Option<AuthKey>, AuthError>)
    ensures
        api_keys@.len() == 0 ==> r == Ok::<Option<AuthKey>, AuthError>(None),
        api_keys@.len() == 1 ==> r is Ok && r->Ok_0 is Some && r->Ok_0->Some_0@ == api_keys@[0]@,
        api_keys@.len() > 1 ==> r == Err::<Option<AuthKey>, AuthError>(AuthError::BadCount),
{
    if api_keys.len() == 0 {
        Ok(None)
    } else if api_keys.len() == 1 {
        Ok(Some(AuthKey(api_keys[0].clone())))
    } else {
        Err(AuthError::BadCount)
    }
}

/// Reads the password from the Authorization header values: absent with no
/// value; from a single `Basic <base64>` value the password part of the
/// decoded credential; an error when the header repeats, the scheme is not
/// Basic, or the credential does not decode.
pub fn auth_from_auth_header(auth_headers: &Vec<String>) -> (r: Result<Option<AuthKey>, AuthError>)
    ensures
        auth_headers@.len() == 0 ==> r == Ok::<Option<AuthKey>, AuthError>(None),
        auth_headers@.len() > 1 ==> r == Err::<Option<AuthKey>, AuthError>(AuthError::BadCount),
        auth_headers@.len() == 1 ==> ({
            let s = spec_parse_basic(auth_headers@[0]@);
            match r {
                Ok(Some(k)) => s is Ok && k@ == s->Ok_0,
                Ok(None) => false,
                Err(e) => s == Err::<Seq<char>, AuthError>(e),
            }
        }),
{
    if auth_headers.len() == 0 {
        Ok(None)
    } else if auth_headers.len() > 1 {
        Err(AuthError::BadCount)
    } else {
        match parse_basic(&auth_headers[0]) {
            Ok(k) => Ok(Some(k)),
            Err(e) => Err(e),
        }
    }
}

/// Parses one Basic Authorization header value into the password it
/// carries.
fn parse_basic(header: &String) -> (r: Result<AuthKey, AuthError>)
    ensures
        ({
            let s = spec_parse_basic(header@);
            match r {
                Ok(k) => s is Ok && k@ == s->Ok_0,
                Err(e) => s == Err::<Seq<char>, AuthError>(e),
            }
        }),
{
    let h = header.as_str();
    let n = h.unicode_len();
    if n < 6 {
        return Err(AuthError::UnsupportedAuth);
    }
    let prefix = h.substring_char(0, 6);
    if !str_eq(prefix, "Basic ") {
        return Err(AuthError::UnsupportedAuth);
    }
    let token = h.substring_char(6, n);
    proof {
        assert(token@ =~= header@.skip(6));
    }
    let bytes = match b64_decode(token) {
        Some(b) => b,
        None => {
            return Err(AuthError::InvalidData);
        },
    };
    let decoded = match bytes_to_string(bytes) {
        Some(d) => d,
        None => {
            return Err(AuthError::InvalidData);
        },
    };
    let d = decoded.as_str();
    let dn = d.unicode_len();
    match find_char(d, ':') {
        None => {
            proof {
                d@.index_of_first_ensures(':');
                if d@.index_of_first(':') is Some {
                    let i = d@.index_of_first(':')->Some_0;
                    assert(d@[i] == ':');
                }
            }
            Err(AuthError::InvalidData)
        },
        Some(i) => {
            let password = d.substring_char(i + 1, dn);
            proof {
                d@.index_of_first_ensures(':');
                assert(d@.contains(':'));
                let fi = d@.index_of_first(':')->Some_0;
                assert(d@[fi] == ':');
                assert(fi == i as int);
                assert(password@ =~= d@.skip(i + 1));
            }
            Ok(AuthKey(password.to_owned()))
        },
    }
}

/// The request-level authentication decision: a single API-key header wins;
/// otherwise a single Basic Authorization header; with neither present, the
/// request is unauthenticated. Errors from either header are reported as
/// they are.
pub fn auth_outcome(api_keys: &Vec<String>, auth_headers: &Vec<String>) -> (r: Result<
    AuthKey,
    AuthError,
>)
    ensures
        api_keys@.len() == 1 ==> r is Ok && r->Ok_0@ == api_keys@[0]@,
        api_keys@.len() > 1 ==> r == Err::<AuthKey, AuthError>(AuthError::BadCount),
        api_keys@.len() == 0 && auth_headers@.len() == 0 ==> r == Err::<AuthKey, AuthError>(
            AuthError::Missing,
        ),
        api_keys@.len() == 0 && auth_headers@.len() > 1 ==> r == Err::<AuthKey, AuthError>(
            AuthError::BadCount,
        ),
        api_keys@.len() == 0 && auth_headers@.len() == 1 ==> ({
            let s = spec_parse_basic(auth_headers@[0]@);
            match r {
                Ok(k) => s is Ok && k@ == s->Ok_0,
                Err(e) => s == Err::<Seq<char>, AuthError>(e),
            }
        }),
{
    match auth_from_api_header(api_keys) {
        Ok(Some(k)) => {
            return Ok(k);
        },
        Err(e) => {
            return Err(e);
        },
        Ok(None) => {},
    }
    match auth_from_auth_header(auth_headers) {
        Ok(Some(k)) => Ok(k),
        Err(e) => Err(e),
        Ok(None) => Err(AuthError::Missing),
    }
}

} // verus!
