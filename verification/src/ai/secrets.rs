//! Model API keys kept in the operating system's credential store.
use vstd::prelude::*;
use crate::ai::tasks::{AiError, SecretStore};
use crate::ids::{RecordId, uuid_hyphenated};
use crate::text::{chars_of, extend_str, is_blank_str, string_of, trim};

verus! {

/// The service name under which keys are stored.
pub const SECRET_SERVICE: &'static str = "AINovelTools";

/// `keyring::Entry::new(service, user)` then `Entry::set_password`. The outcome
/// depends on the credential store, so the contract says nothing of it.
/// (`Entry::new` panics only if the crate's credential-builder lock is poisoned.)
#[verifier::external_body]
fn keyring_set(service: &str, user: &str, password: &str) -> (r: bool) {
    match keyring::Entry::new(service, user) {
        Ok(entry) => entry.set_password(password).is_ok(),
        Err(_) => false,
    }
}

/// `keyring::Entry::new(service, user)` then `Entry::get_password`; the
/// stored password, or `None` on any error. Nothing is promised of it: it is
/// whatever the credential store holds.
#[verifier::external_body]
fn keyring_get(service: &str, user: &str) -> (r: Option<String>) {
    match keyring::Entry::new(service, user) {
        Ok(entry) => entry.get_password().ok(),
        Err(_) => None,
    }
}

/// `keyring::Entry::new(service, user)` then `Entry::delete_credential`, the
/// result ignored.
#[verifier::external_body]
fn keyring_delete(service: &str, user: &str) {
    if let Ok(entry) = keyring::Entry::new(service, user) {
        let _ = entry.delete_credential();
    }
}

impl SecretStore {
    /// The reference under which a model profile's key is stored.
    pub fn secret_ref(profile_id: RecordId) -> (r: String)
        ensures
            r@ == "model-profile:"@ + uuid_hyphenated(profile_id.value),
    {
        let mut v = chars_of("model-profile:");
        let id = profile_id.to_text();
        extend_str(&mut v, id.as_str());
        string_of(&v)
    }

    /// Stores a key. A blank key is refused; a store that fails reports a
    /// secret-store error.
    pub fn set(secret_ref: &str, secret: &str) -> (r: Result<(), AiError>)
        ensures
            trim(secret@).len() == 0 ==> r == Err::<(), AiError>(AiError::MissingSecret),
            trim(secret@).len() > 0 ==> (r is Ok || r == Err::<(), AiError>(AiError::SecretStore)),
    {
        if is_blank_str(secret) {
            return Err(AiError::MissingSecret);
        }
        if keyring_set(SECRET_SERVICE, secret_ref, secret) {
            Ok(())
        } else {
            Err(AiError::SecretStore)
        }
    }

    /// Reads a key; a store that fails or holds none reports a secret-store
    /// error.
    pub fn get(secret_ref: &str) -> (r: Result<String, AiError>)
        ensures
            r is Err ==> r == Err::<String, AiError>(AiError::SecretStore),
    {
        match keyring_get(SECRET_SERVICE, secret_ref) {
            Some(s) => Ok(s),
            None => Err(AiError::SecretStore),
        }
    }

    /// Removes a key; removing one that is not there is no error.
    pub fn delete(secret_ref: &str) -> (r: Result<(), AiError>)
        ensures
            r is Ok,
    {
        keyring_delete(SECRET_SERVICE, secret_ref);
        Ok(())
    }
}

} // verus!
