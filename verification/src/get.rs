//! The read path: retrieval by identifier and the rendering decisions around
//! it. Reads never mutate the store and never take the writer's exclusive
//! borrow.
use crate::auth::AuthKey;
use crate::store::{get_all_paste, get_paste, has_id, lookup_id, PasteStore};
use crate::text::{find_char, str_eq};
use crate::{HtmlOrPlain, RedirectOrContent};
use base64::Engine;
use vstd::prelude::*;

verus! {

/// A PNG image response body.
pub struct PngResponder(pub Vec<u8>);

/// The index page shown to browsers.
pub struct Index;

/// The help text shown to console clients, parameterised by the URL the
/// service is reachable under.
pub struct CurlIndex {
    pub root_url: String,
}

/// Why a retrieval request failed.
#[derive(Clone, Copy, Debug, PartialEq, Eq)]
pub enum GetError {
    /// No live entry has the requested id.
    NotFound,
    /// The supplied password does not match the configured one.
    Unauthorized,
    /// Rendering failed (the stored content cannot be drawn as a QR code).
    Internal,
}

/// The side length, in pixels, of a rendered QR image.
pub const QR_IMAGE_SIZE: usize = 1024;

/// What base64's standard-alphabet encoder returns on a given input.
pub uninterp spec fn b64_encoded(s: Seq<char>) -> Seq<char>;

/// Relies on base64::Engine::encode with the general_purpose::STANDARD
/// engine: the result is a function of the input bytes alone, and encoding
/// cannot fail.
#[verifier::external_body]
fn b64_encode(s: &str) -> (r: String)
    ensures
        r@ == b64_encoded(s@),
{
    base64::engine::general_purpose::STANDARD.encode(s)
}

/// What the QR encoder returns for a text and an image side length; `None`
/// stands for a failed encoding.
pub uninterp spec fn qr_png_of(data: Seq<char>, size: int) -> Option<Seq<u8>>;

/// Relies on qrcode_generator::to_png_to_vec with medium error correction:
/// the PNG bytes are a function of the encoded text and the image size, and
/// a failure (text too long for one QR symbol, unusable image size) is an
/// error, not a panic.
#[verifier::external_body]
fn qr_png(data: &str, size: usize) -> (r: Option<Vec<u8>>)
    ensures
        r is Some <==> qr_png_of(data@, size as int) is Some,
        r is Some ==> r->Some_0@ == qr_png_of(data@, size as int)->Some_0,
{
    match qrcode_generator::to_png_to_vec(data, qrcode_generator::QrCodeEcc::Medium, size) {
        Ok(v) => Some(v),
        Err(_) => None,
    }
}

/// The identifier part of a request path: what stands before the first dot.
pub open spec fn spec_key_of(name: Seq<char>) -> Seq<char> {
    match name.index_of_first('.') {
        None => name,
        Some(i) => name.subrange(0, i),
    }
}

/// The extension part of a request path: what stands after the first dot, if
/// there is one.
pub open spec fn spec_ext_of(name: Seq<char>) -> Option<Seq<char>> {
    match name.index_of_first('.') {
        None => None,
        Some(i) => Some(name.skip(i + 1)),
    }
}

/// Splits a request path into the identifier before the first dot and the
/// extension after it.
pub fn split_key(name: &str) -> (r: (String, Option<String>))
    ensures
        r.0@ == spec_key_of(name@),
        match r.1 {
            None => spec_ext_of(name@) is None,
            Some(e) => spec_ext_of(name@) == Some(e@),
        },
{
    let n = name.unicode_len();
    match find_char(name, '.') {
        None => {
            proof {
                name@.index_of_first_ensures('.');
                if name@.index_of_first('.') is Some {
                    let i = name@.index_of_first('.')->Some_0;
                    assert(name@[i] == '.');
                }
            }
            (name.to_owned(), None)
        },
        Some(i) => {
            let key = name.substring_char(0, i);
            let ext = name.substring_char(i + 1, n);
            proof {
                name@.index_of_first_ensures('.');
                assert(name@.contains('.'));
                let fi = name@.index_of_first('.')->Some_0;
                assert(name@[fi] == '.');
                assert(fi == i as int);
                assert(ext@ =~= name@.skip(i + 1));
            }
            (key.to_owned(), Some(ext.to_owned()))
        },
    }
}

/// Serves the raw content stored under the identifier before the first dot
/// of the request path, as plain text. Absence is `NotFound`.
pub fn get_item_raw(store: &PasteStore, key: &str) -> (r: Result<HtmlOrPlain, GetError>)
    requires
        store.inv(),
    ensures
        match lookup_id(store@, spec_key_of(key@)) {
            None => r == Err::<HtmlOrPlain, GetError>(GetError::NotFound),
            Some(c) => r is Ok && r->Ok_0 is Plain && r->Ok_0->Plain_0@ == c,
        },
{
    let (k, _ext) = split_key(key);
    match get_paste(store, k.as_str()) {
        Ok(Some(content)) => Ok(HtmlOrPlain::Plain(content)),
        Ok(None) => Err(GetError::NotFound),
        Err(_) => Err(GetError::NotFound),
    }
}

/// Serves a QR image of the stored entry's URL: the configured prefix, a
/// slash, and the request path as given (extension included). The entry must
/// exist; a content that cannot be drawn is an internal error.
pub fn get_qr(store: &PasteStore, prefix: &str, name: &str) -> (r: Result<PngResponder, GetError>)
    requires
        store.inv(),
    ensures
        !has_id(store@, spec_key_of(name@)) ==> r == Err::<PngResponder, GetError>(
            GetError::NotFound,
        ),
        has_id(store@, spec_key_of(name@)) ==> ({
            let png = qr_png_of(prefix@ + "/"@ + name@, QR_IMAGE_SIZE as int);
            match r {
                Ok(p) => png is Some && p.0@ == png->Some_0,
                Err(e) => e == GetError::Internal && png is None,
            }
        }),
{
    let (k, _ext) = split_key(name);
    match get_paste(store, k.as_str()) {
        Ok(None) => Err(GetError::NotFound),
        Err(_) => Err(GetError::NotFound),
        Ok(Some(_)) => {
            let mut url = prefix.to_owned();
            url.append("/");
            url.append(name);
            match qr_png(url.as_str(), QR_IMAGE_SIZE) {
                Some(png) => Ok(PngResponder(png)),
                None => Err(GetError::Internal),
            }
        },
    }
}

/// How one character is written in HTML text: the five significant
/// characters become entity references, everything else stands as it is.
pub open spec fn escape_char(c: char) -> Seq<char> {
    if c == '&' {
        "&amp;"@
    } else if c == '<' {
        "&lt;"@
    } else if c == '>' {
        "&gt;"@
    } else if c == '"' {
        "&quot;"@
    } else if c == '\'' {
        "&#39;"@
    } else {
        seq![c]
    }
}

/// A text written in HTML, character by character.
pub open spec fn html_escaped(s: Seq<char>) -> Seq<char>
    decreases s.len(),
{
    if s.len() == 0 {
        Seq::empty()
    } else {
        html_escaped(s.drop_last()) + escape_char(s.last())
    }
}

/// How one character of prepared HTML is placed into per-line code cells: a
/// newline closes one cell and opens the next.
pub open spec fn code_cell(c: char) -> Seq<char> {
    if c == '\n' {
        "</code><code>"@
    } else {
        seq![c]
    }
}

/// Prepared HTML split into per-line cells.
pub open spec fn code_lines(s: Seq<char>) -> Seq<char>
    decreases s.len(),
{
    if s.len() == 0 {
        Seq::empty()
    } else {
        code_lines(s.drop_last()) + code_cell(s.last())
    }
}

/// Prepared HTML wrapped into `code` tags, one tag per line, which enables
/// line numbering with CSS.
pub open spec fn code_block(s: Seq<char>) -> Seq<char> {
    "<code>"@ + code_lines(s) + "</code>"@
}

/// Writes a text as HTML: the five significant characters become entity
/// references.
pub fn html_escape(s: &str) -> (r: String)
    ensures
        r@ == html_escaped(s@),
{
    let n = s.unicode_len();
    let mut r = String::new();
    let mut i: usize = 0;
    while i < n
        invariant
            i <= n,
            n == s@.len(),
            r@ == html_escaped(s@.take(i as int)),
        decreases n - i,
    {
        let c = s.get_char(i);
        if c == '&' {
            r.append("&amp;");
        } else if c == '<' {
            r.append("&lt;");
        } else if c == '>' {
            r.append("&gt;");
        } else if c == '"' {
            r.append("&quot;");
        } else if c == '\'' {
            r.append("&#39;");
        } else {
            let cs = s.substring_char(i, i + 1);
            proof {
                assert(cs@ =~= seq![s@[i as int]]);
            }
            r.append(cs);
        }
        proof {
            assert(s@.take(i as int + 1).drop_last() =~= s@.take(i as int));
            assert(s@.take(i as int + 1).last() == s@[i as int]);
        }
        i += 1;
    }
    proof {
        assert(s@.take(n as int) =~= s@);
    }
    r
}

/// Wraps prepared HTML into `code` tags, one per line.
pub fn wrap_code_lines(s: &str) -> (r: String)
    ensures
        r@ == code_block(s@),
{
    let n = s.unicode_len();
    let mut r = String::from_str("<code>");
    let mut i: usize = 0;
    while i < n
        invariant
            i <= n,
            n == s@.len(),
            r@ == "<code>"@ + code_lines(s@.take(i as int)),
        decreases n - i,
    {
        let c = s.get_char(i);
        if c == '\n' {
            r.append("</code><code>");
        } else {
            let cs = s.substring_char(i, i + 1);
            proof {
                assert(cs@ =~= seq![s@[i as int]]);
            }
            r.append(cs);
        }
        proof {
            assert(s@.take(i as int + 1).drop_last() =~= s@.take(i as int));
            assert(s@.take(i as int + 1).last() == s@[i as int]);
            assert(("<code>"@ + code_lines(s@.take(i as int))) + code_cell(s@[i as int]) =~= "<code>"@
                + (code_lines(s@.take(i as int)) + code_cell(s@[i as int])));
        }
        i += 1;
    }
    r.append("</code>");
    proof {
        assert(s@.take(n as int) =~= s@);
        assert(("<code>"@ + code_lines(s@)) + "</code>"@ =~= code_block(s@));
    }
    r
}

/// The rendering a retrieval request calls for.
pub enum GetItemOutcome {
    /// The response is fully determined.
    Done(RedirectOrContent),
    /// The content (first field) must be syntax-highlighted for the given
    /// extension (second field) by the enclosing layer, and the resulting
    /// HTML wrapped with `wrap_code_lines`.
    NeedsHighlight(String, String),
}

/// The outcome `get_item` owes, stated over the store's view.
pub enum SpecGetItem {
    NotFound,
    Redirect(Seq<char>),
    Png(Seq<u8>),
    QrFailed,
    Plain(Seq<char>),
    Html(Seq<char>),
    Highlight(Seq<char>, Seq<char>),
}

/// What retrieving a request path yields. The identifier is what stands
/// before the first dot; the extension after it picks the rendering: `url`
/// redirects to the stored content, `qr` draws it as a QR image, `b64` sends
/// it base64-encoded; any other request serves the content as plain text to
/// a plaintext client, and as HTML (highlighted when an extension names a
/// syntax, escaped otherwise) to a browser.
pub open spec fn spec_get_item(
    s: Seq<(Seq<char>, Seq<char>)>,
    name: Seq<char>,
    plaintext: bool,
) -> SpecGetItem {
    match lookup_id(s, spec_key_of(name)) {
        None => SpecGetItem::NotFound,
        Some(entry) => {
            let ext = spec_ext_of(name);
            if ext == Some("url"@) {
                SpecGetItem::Redirect(entry)
            } else if ext == Some("qr"@) {
                match qr_png_of(entry, QR_IMAGE_SIZE as int) {
                    Some(png) => SpecGetItem::Png(png),
                    None => SpecGetItem::QrFailed,
                }
            } else if ext == Some("b64"@) {
                SpecGetItem::Plain(b64_encoded(entry))
            } else if plaintext {
                SpecGetItem::Plain(entry)
            } else {
                match ext {
                    Some(e) => SpecGetItem::Highlight(entry, e),
                    None => SpecGetItem::Html(code_block(html_escaped(entry))),
                }
            }
        },
    }
}

/// Retrieves and renders the entry a request path names; `spec_get_item`
/// states the owed outcome. A failed QR drawing is the one internal error.
pub fn get_item(store: &PasteStore, name: &str, plaintext: bool) -> (r: Result<
    GetItemOutcome,
    GetError,
>)
    requires
        store.inv(),
    ensures
        ({
            let expected = spec_get_item(store@, name@, plaintext);
            match r {
                Err(GetError::NotFound) => expected == SpecGetItem::NotFound,
                Err(GetError::Internal) => expected == SpecGetItem::QrFailed,
                Err(GetError::Unauthorized) => false,
                Ok(GetItemOutcome::Done(RedirectOrContent::Redirect(u))) => expected
                    == SpecGetItem::Redirect(u@),
                Ok(GetItemOutcome::Done(RedirectOrContent::Png(p))) => expected == SpecGetItem::Png(
                    p@,
                ),
                Ok(GetItemOutcome::Done(RedirectOrContent::Plain(t))) => expected
                    == SpecGetItem::Plain(t@),
                Ok(GetItemOutcome::Done(RedirectOrContent::Html(h))) => expected
                    == SpecGetItem::Html(h@),
                Ok(GetItemOutcome::NeedsHighlight(c, e)) => expected == SpecGetItem::Highlight(
                    c@,
                    e@,
                ),
            }
        }),
{
    let (key, ext) = split_key(name);
    let entry = match get_paste(store, key.as_str()) {
        Ok(Some(c)) => c,
        Ok(None) => {
            return Err(GetError::NotFound);
        },
        Err(_) => {
            return Err(GetError::NotFound);
        },
    };
    match &ext {
        Some(e) => {
            if str_eq(e.as_str(), "url") {
                return Ok(GetItemOutcome::Done(RedirectOrContent::Redirect(entry)));
            }
            if str_eq(e.as_str(), "qr") {
                return match qr_png(entry.as_str(), QR_IMAGE_SIZE) {
                    Some(png) => Ok(GetItemOutcome::Done(RedirectOrContent::Png(png))),
                    None => Err(GetError::Internal),
                };
            }
            if str_eq(e.as_str(), "b64") {
                return Ok(
                    GetItemOutcome::Done(RedirectOrContent::Plain(b64_encode(entry.as_str()))),
                );
            }
        },
        None => {},
    }
    if plaintext {
        return Ok(GetItemOutcome::Done(RedirectOrContent::Plain(entry)));
    }
    match ext {
        Some(e) => Ok(GetItemOutcome::NeedsHighlight(entry, e)),
        None => {
            let escaped = html_escape(entry.as_str());
            let html = wrap_code_lines(escaped.as_str());
            Ok(GetItemOutcome::Done(RedirectOrContent::Html(html)))
        },
    }
}

/// Lists every live entry as an (id, content) pair, oldest first, to a
/// caller that presents the configured password.
pub fn all_entries(store: &PasteStore, password: &AuthKey, config_password: &AuthKey) -> (r: Result<
    Vec<(String, String)>,
    GetError,
>)
    ensures
        password@ != config_password@ ==> r == Err::<Vec<(String, String)>, GetError>(
            GetError::Unauthorized,
        ),
        password@ == config_password@ ==> r is Ok && r->Ok_0@.len() == store@.len() && forall|
            i: int,
        |
            0 <= i < store@.len() ==> (#[trigger] r->Ok_0@[i]).0@ == store@[i].0
                && r->Ok_0@[i].1@ == store@[i].1,
{
    if !password.is_valid(config_password) {
        return Err(GetError::Unauthorized);
    }
    Ok(get_all_paste(store))
}

} // verus!
