//! A short-lived content store: clients submit opaque text blobs and get a
//! short, human-typeable identifier back; later requests retrieve the blob by
//! identifier. The store bounds how many entries stay live (FIFO eviction of
//! the oldest), retries identifier collisions, and keeps the read path free
//! of any mutation.
use vstd::prelude::*;

pub mod auth;
pub mod config;
pub mod get;
pub mod plaintext;
pub mod store;
pub mod text;
pub mod write;

verus! {

/// A response body that is either an HTML page or plain text.
pub enum HtmlOrPlain {
    Html(String),
    Plain(String),
}

/// What a retrieval can answer with: a redirect to the stored target, a PNG
/// image, an HTML page, or plain text.
pub enum RedirectOrContent {
    Redirect(String),
    Png(Vec<u8>),
    Html(String),
    Plain(String),
}

/// The fields of the submission form on the index page.
pub struct IndexForm {
    /// The paste body.
    pub val: String,
    /// The password the client supplied.
    pub password: crate::auth::AuthKey,
}

} // verus!
