//! The decision whether a request wants a plaintext response rather than an
//! HTML page.
use crate::text::{find_char, str_eq};
use vstd::prelude::*;

verus! {

/// Holds whether the request wanted a plaintext response.
///
/// Anything that asks for plain text outright is plaintext, and so is
/// anything calling from the console or that cannot be identified.
pub struct IsPlaintextRequest(pub bool);

/// The plaintext decision. A format that is explicitly plain wins; otherwise
/// the client product before the first `/` of the User-Agent value decides:
/// a missing User-Agent, one without a version separator, and the console
/// clients Wget, curl and HTTPie are treated as wanting plain text.
pub open spec fn spec_is_plaintext(
    format_is_plain: Option<bool>,
    user_agent: Option<Seq<char>>,
) -> bool {
    if format_is_plain == Some(true) {
        true
    } else {
        match user_agent {
            None => true,
            Some(ua) => match ua.index_of_first('/') {
                None => true,
                Some(i) => {
                    let product = ua.subrange(0, i);
                    product == "Wget"@ || product == "curl"@ || product == "HTTPie"@
                },
            },
        }
    }
}

/// Decides whether the request wants plain text, from the request format's
/// plainness (when the request declared a format) and the User-Agent header
/// value (when one was sent).
pub fn is_plaintext_request(format_is_plain: Option<bool>, user_agent: Option<&str>) -> (r:
    IsPlaintextRequest)
    ensures
        r.0 == spec_is_plaintext(
            format_is_plain,
            match user_agent {
                Some(u) => Some(u@),
                None => None,
            },
        ),
{
    match format_is_plain {
        Some(true) => {
            return IsPlaintextRequest(true);
        },
        _ => {},
    }
    let ua = match user_agent {
        None => {
            return IsPlaintextRequest(true);
        },
        Some(u) => u,
    };
    match find_char(ua, '/') {
        None => {
            proof {
                ua@.index_of_first_ensures('/');
                if ua@.index_of_first('/') is Some {
                    let i = ua@.index_of_first('/')->Some_0;
                    assert(ua@[i] == '/');
                }
            }
            IsPlaintextRequest(true)
        },
        Some(i) => {
            let product = ua.substring_char(0, i);
            proof {
                ua@.index_of_first_ensures('/');
                assert(ua@.contains('/'));
                let fi = ua@.index_of_first('/')->Some_0;
                assert(ua@[fi] == '/');
                assert(fi == i as int);
            }
            IsPlaintextRequest(
                str_eq(product, "Wget") || str_eq(product, "curl") || str_eq(product, "HTTPie"),
            )
        },
    }
}

} // verus!
