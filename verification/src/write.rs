//! The write path's request handlers: they check the password, mutate the
//! store through its exclusive borrow, and build the reply. Reading request
//! bodies and sending responses stay with the enclosing layer.
use crate::auth::AuthKey;
use crate::config::BibinConfig;
use crate::store::{
    delete_paste, has_id, is_id_string, lookup_id, remove_id, store_paste, store_paste_given_id,
    IOError, PasteStore,
};
use crate::IndexForm;
use vstd::prelude::*;

verus! {

/// Why a mutating request failed.
#[derive(Clone, Copy, Debug, PartialEq, Eq)]
pub enum WriteError {
    /// The supplied password does not match the configured one.
    Unauthorized,
    /// The store refused the operation.
    Store(IOError),
}

/// Handles the index form: with a valid password the body is stored under a
/// fresh id and the reply redirects to `/<id>`.
pub fn submit(config: &BibinConfig, input: IndexForm, store: &mut PasteStore) -> (r: Result<
    String,
    WriteError,
>)
    requires
        old(store).inv(),
        1 <= config.max_entries,
    ensures
        final(store).inv(),
        input.password@ != config.password@ ==> r == Err::<String, WriteError>(
            WriteError::Unauthorized,
        ) && final(store)@ == old(store)@,
        input.password@ == config.password@ ==> r is Ok && final(store)@.len()
            <= config.max_entries as int && exists|id: Seq<char>|
            is_id_string(id, config.id_length as int) && r->Ok_0@ == "/"@ + id && #[trigger]
            lookup_id(final(store)@, id) == Some(input.val@),
{
    if !input.password.is_valid(&config.password) {
        return Err(WriteError::Unauthorized);
    }
    match store_paste(store, config.id_length, config.max_entries, input.val) {
        Ok(id) => {
            let mut uri = String::from_str("/");
            uri.append(id.as_str());
            Ok(uri)
        },
        Err(e) => Err(WriteError::Store(e)),
    }
}

/// Handles a form submission to an explicit id: with a valid password the
/// body is stored under exactly that id, replacing any entry there, and the
/// reply redirects to `/<id>`.
pub fn submit_with_key(
    config: &BibinConfig,
    input: IndexForm,
    store: &mut PasteStore,
    key: String,
) -> (r: Result<String, WriteError>)
    requires
        old(store).inv(),
    ensures
        final(store).inv(),
        input.password@ != config.password@ ==> r == Err::<String, WriteError>(
            WriteError::Unauthorized,
        ) && final(store)@ == old(store)@,
        input.password@ == config.password@ ==> r is Ok && r->Ok_0@ == "/"@ + key@ && final(store)@
            == remove_id(old(store)@, key@).push((key@, input.val@)),
{
    if !input.password.is_valid(&config.password) {
        return Err(WriteError::Unauthorized);
    }
    match store_paste_given_id(store, key, input.val) {
        Ok(id) => {
            let mut uri = String::from_str("/");
            uri.append(id.as_str());
            Ok(uri)
        },
        Err(e) => Err(WriteError::Store(e)),
    }
}

/// Handles a raw upload: with a valid password the body is stored under a
/// fresh id and the reply carries the entry's full URL, prefix included.
pub fn submit_raw(
    data: String,
    config: &BibinConfig,
    password: &AuthKey,
    store: &mut PasteStore,
) -> (r: Result<String, WriteError>)
    requires
        old(store).inv(),
        1 <= config.max_entries,
    ensures
        final(store).inv(),
        password@ != config.password@ ==> r == Err::<String, WriteError>(WriteError::Unauthorized)
            && final(store)@ == old(store)@,
        password@ == config.password@ ==> r is Ok && final(store)@.len()
            <= config.max_entries as int && exists|id: Seq<char>|
            is_id_string(id, config.id_length as int) && r->Ok_0@ == config.prefix@ + "/"@ + id
                && #[trigger] lookup_id(final(store)@, id) == Some(data@),
{
    if !password.is_valid(&config.password) {
        return Err(WriteError::Unauthorized);
    }
    match store_paste(store, config.id_length, config.max_entries, data) {
        Ok(id) => {
            let mut url = config.prefix.clone();
            url.append("/");
            url.append(id.as_str());
            Ok(url)
        },
        Err(e) => Err(WriteError::Store(e)),
    }
}

/// Handles a raw upload to an explicit id: with a valid password the body is
/// stored under exactly that id, replacing any entry there, and the reply
/// carries the entry's full URL, prefix included.
pub fn submit_raw_with_key(
    data: String,
    config: &BibinConfig,
    password: &AuthKey,
    store: &mut PasteStore,
    key: String,
) -> (r: Result<String, WriteError>)
    requires
        old(store).inv(),
    ensures
        final(store).inv(),
        password@ != config.password@ ==> r == Err::<String, WriteError>(WriteError::Unauthorized)
            && final(store)@ == old(store)@,
        password@ == config.password@ ==> r is Ok && r->Ok_0@ == config.prefix@ + "/"@ + key@
            && final(store)@ == remove_id(old(store)@, key@).push((key@, data@)),
{
    if !password.is_valid(&config.password) {
        return Err(WriteError::Unauthorized);
    }
    match store_paste_given_id(store, key, data) {
        Ok(id) => {
            let mut url = config.prefix.clone();
            url.append("/");
            url.append(id.as_str());
            Ok(url)
        },
        Err(e) => Err(WriteError::Store(e)),
    }
}

/// Handles a deletion: with a valid password the entry under exactly this id
/// is removed and the reply names the freed id; deleting an id with no live
/// entry is an error, never silent success.
pub fn delete(id: String, config: &BibinConfig, password: &AuthKey, store: &mut PasteStore) -> (r:
    Result<String, WriteError>)
    requires
        old(store).inv(),
    ensures
        final(store).inv(),
        password@ != config.password@ ==> r == Err::<String, WriteError>(WriteError::Unauthorized)
            && final(store)@ == old(store)@,
        password@ == config.password@ && has_id(old(store)@, id@) ==> r is Ok && r->Ok_0@ == id@
            + " deleted"@ && final(store)@ == remove_id(old(store)@, id@),
        password@ == config.password@ && !has_id(old(store)@, id@) ==> r == Err::<
            String,
            WriteError,
        >(WriteError::Store(IOError::NotFound)) && final(store)@ == old(store)@,
{
    if !password.is_valid(&config.password) {
        return Err(WriteError::Unauthorized);
    }
    match delete_paste(store, id) {
        Ok(freed) => {
            let mut message = freed;
            message.append(" deleted");
            Ok(message)
        },
        Err(e) => Err(WriteError::Store(e)),
    }
}

} // verus!
