//! Where the keyring keeps the application's secrets: the service name and
//! the account names under which passwords and key passphrases are stored.

use vstd::prelude::*;
use crate::text::concat3;

verus! {

/// The keyring service under which secrets are stored.
pub open spec fn keyring_service() -> Seq<char> {
    "ssh-t"@
}

/// The credential store in the system keyring (macOS Keychain, Linux Secret
/// Service, Windows Credential Manager).
#[derive(Debug, Clone, Copy)]
pub struct CredentialStore;

impl CredentialStore {
    /// The keyring service name.
    pub fn service_name() -> (r: String)
        ensures
            r@ == keyring_service(),
    {
        String::from_str("ssh-t")
    }

    /// The keyring account holding the password of `user` on `host`: `user@host`.
    pub fn password_account(host: &str, user: &str) -> (r: String)
        ensures
            r@ == user@ + "@"@ + host@,
    {
        concat3(user, "@", host)
    }

    /// The keyring account holding the passphrase of the key at `key_path`: `key:<path>`.
    pub fn key_account(key_path: &str) -> (r: String)
        ensures
            r@ == "key:"@ + key_path@,
    {
        crate::text::concat("key:", key_path)
    }
}

} // verus!
