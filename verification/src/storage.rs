//! Where the application keeps things between runs: the access token in the
//! system's credential store, and (written by the caller) the login and the
//! conferences in files under the application's configuration directory.
use vstd::prelude::*;

verus! {

/// The application's name, for its configuration directory.
pub const APP_NAME: &'static str = "telemost-app";

/// The qualifier of the application's configuration directory.
pub const QUALIFIER: &'static str = "com";

/// The organization of the application's configuration directory.
pub const ORGANIZATION: &'static str = "quaintsorcery";

/// The credential store's service under which the token is kept.
pub const SERVICE: &'static str = "telemost-app-auth";

/// The credential store's account under which the token is kept.
pub const ACCOUNT: &'static str = "current_user_token";

/// The file, in the configuration directory, that holds the login.
pub const LOGIN_FILE: &'static str = "user.txt";

/// The file, in the configuration directory, that holds the conferences.
pub const CONFERENCES_FILE: &'static str = "conferences.json";

#[verifier::external_type_specification]
#[verifier::external_body]
pub struct ExEntry(keyring::Entry);

#[verifier::external_type_specification]
#[verifier::external_body]
pub struct ExKeyringError(keyring::Error);

/// Calls `keyring::Entry::new(service, user)`. Whether an entry can be made
/// depends on the platform's credential store, so nothing is stated of the result.
#[verifier::external_body]
fn keyring_entry(service: &str, user: &str) -> Result<keyring::Entry, keyring::Error> {
    keyring::Entry::new(service, user)
}

/// The text of a credential store error (its `Display`). The text is the
/// crate's own wording, so nothing is stated of it.
#[verifier::external_body]
fn keyring_error_text(e: &keyring::Error) -> String {
    e.to_string()
}

/// Calls `keyring::Entry::set_password`. Whether it succeeds depends on the
/// platform's credential store, so nothing is stated of it.
#[verifier::external_body]
fn keyring_set_password(entry: &keyring::Entry, password: &str) -> Result<(), keyring::Error> {
    entry.set_password(password)
}

/// Calls `keyring::Entry::get_password`. What comes back depends on the
/// platform's credential store, so nothing is stated of it.
#[verifier::external_body]
fn keyring_get_password(entry: &keyring::Entry) -> Result<String, keyring::Error> {
    entry.get_password()
}

/// Calls `keyring::Entry::delete_credential`. Whether it succeeds depends on
/// the platform's credential store, so nothing is stated of it.
#[verifier::external_body]
fn keyring_delete_credential(entry: &keyring::Entry) -> Result<(), keyring::Error> {
    entry.delete_credential()
}

/// The application's storage.
pub struct Storage;

impl Storage {
    /// Where the token is kept in the credential store: the service and the
    /// account.
    pub fn token_credential() -> (target: (&'static str, &'static str))
        ensures
            target.0@ == SERVICE@,
            target.1@ == ACCOUNT@,
    {
        (SERVICE, ACCOUNT)
    }

    /// The credential store's entry for the token.
    fn get_entry() -> Result<keyring::Entry, String> {
        let (service, account) = Self::token_credential();
        match keyring_entry(service, account) {
            Ok(entry) => Ok(entry),
            Err(e) => Err(keyring_error_text(&e)),
        }
    }

    /// Keeps `token` in the credential store; a failure is ignored.
    pub fn save_token(token: &str) {
        if let Ok(entry) = Self::get_entry() {
            let _ = keyring_set_password(&entry, token);
        }
    }

    /// The token kept in the credential store, if it can be read.
    pub fn get_token() -> Option<String> {
        match Self::get_entry() {
            Ok(entry) => match keyring_get_password(&entry) {
                Ok(token) => Some(token),
                Err(_) => None,
            },
            Err(_) => None,
        }
    }

    /// Removes the token from the credential store; a failure is ignored.
    pub fn clear_token() {
        if let Ok(entry) = Self::get_entry() {
            let _ = keyring_delete_credential(&entry);
        }
    }
}

} // verus!
