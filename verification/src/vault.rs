//! The secret vault: one account's login secrets stored as separate
//! entries of the operating system's credential store.
//!
//! Every entry lives under the fixed service namespace `"TwoBlade"`. The
//! remembered username occupies the fixed key `"username"`; the password
//! and the optional clearance token are keyed per username
//! (`password_<username>`, `cf_clearance_<username>`), so secrets of
//! previously used accounts do not collide. The store itself is the
//! `keyring` crate's, reached only through the trusted wrappers below;
//! every decision taken on what the store answers is verified.

use vstd::prelude::*;
use vstd::string::StringExecFns;
use crate::errors::VaultError;
use crate::errors::VaultField;
use crate::store::StoreModel;

verus! {

/// The fixed key of the remembered username's entry.
pub open spec fn username_entry_key() -> Seq<char> {
    "username"@
}

/// The key of `username`'s password entry.
pub open spec fn password_entry_key(username: Seq<char>) -> Seq<char> {
    "password_"@ + username
}

/// The key of `username`'s clearance-token entry.
pub open spec fn token_entry_key(username: Seq<char>) -> Seq<char> {
    "cf_clearance_"@ + username
}

/// The key under which `username`'s password is stored.
pub fn password_key(username: &str) -> (k: String)
    ensures
        k@ == password_entry_key(username@),
{
    String::from_str("password_").concat(username)
}

/// The key under which `username`'s clearance token is stored.
pub fn token_key(username: &str) -> (k: String)
    ensures
        k@ == token_entry_key(username@),
{
    String::from_str("cf_clearance_").concat(username)
}

#[verifier::external_type_specification]
#[verifier::external_body]
pub struct ExEntry(keyring::Entry);

#[verifier::external_type_specification]
#[verifier::external_body]
pub struct ExKeyringError(keyring::Error);

/// Relies on keyring::Entry::new: opens a handle for the (service, key)
/// pair in the platform credential store; whether it succeeds depends on
/// the platform store alone.
#[verifier::external_body]
fn entry_new(service: &str, key: &str) -> (r: Result<keyring::Entry, keyring::Error>) {
    keyring::Entry::new(service, key)
}

/// Relies on keyring::Entry::set_password: writes the secret of this
/// entry; whether it succeeds depends on the platform store alone.
#[verifier::external_body]
fn entry_set_password(entry: &keyring::Entry, value: &str) -> (r: Result<(), keyring::Error>) {
    entry.set_password(value)
}

/// Relies on keyring::Entry::get_password: reads the secret of this entry;
/// what comes back depends on the platform store alone.
#[verifier::external_body]
fn entry_get_password(entry: &keyring::Entry) -> (r: Result<String, keyring::Error>) {
    entry.get_password()
}

/// Relies on keyring::Entry::delete_credential: removes the credential of
/// this entry; whether it succeeds depends on the platform store alone.
#[verifier::external_body]
fn entry_delete_credential(entry: &keyring::Entry) -> (r: Result<(), keyring::Error>) {
    entry.delete_credential()
}

/// Relies on the Display rendering of keyring::Error for a diagnostic
/// message; nothing is assumed of the text.
#[verifier::external_body]
fn store_error_text(e: &keyring::Error) -> (r: String) {
    format!("{}", e)
}

/// One account's secrets, as a load hands them back.
#[derive(Debug)]
pub struct AccountSecretSet {
    /// The remembered username.
    pub username: String,
    /// The password stored for that username.
    pub password: String,
    /// The clearance token stored for that username, if its entry could be
    /// read.
    pub auxiliary_token: Option<String>,
}

/// What a load returns once the store has answered: a missing username
/// entry means there are no credentials at all; a username without a
/// readable password is corrupted state, reported against the password
/// field; the token read is best-effort and its failure is simply an
/// absent token.
pub open spec fn load_outcome_spec(
    username_read: Result<String, String>,
    password_read: Result<String, String>,
    token_read: Option<String>,
) -> Result<AccountSecretSet, VaultError> {
    match username_read {
        Result::Err(m) => Result::Err(VaultError::NoCredentials(m)),
        Result::Ok(u) => match password_read {
            Result::Err(m) => Result::Err(VaultError::ReadFailed(VaultField::Password, m)),
            Result::Ok(p) => Result::Ok(
                AccountSecretSet { username: u, password: p, auxiliary_token: token_read },
            ),
        },
    }
}

/// The load decision over the store's three answers. Each `Result::Err`
/// argument carries the store's diagnostic message for that read.
pub fn load_outcome(
    username_read: Result<String, String>,
    password_read: Result<String, String>,
    token_read: Option<String>,
) -> (r: Result<AccountSecretSet, VaultError>)
    ensures
        r == load_outcome_spec(username_read, password_read, token_read),
{
    match username_read {
        Err(m) => Err(VaultError::NoCredentials(m)),
        Ok(u) => match password_read {
            Err(m) => Err(VaultError::ReadFailed(VaultField::Password, m)),
            Ok(p) => Ok(AccountSecretSet { username: u, password: p, auxiliary_token: token_read }),
        },
    }
}

/// Law (round trip): when the store's reads hand back exactly the username
/// and password a save wrote, the load decision returns exactly those
/// values, and the auxiliary token is present iff its best-effort read
/// succeeded.
pub proof fn lemma_vault_round_trip(username: String, password: String, token_read: Option<String>)
    ensures
        load_outcome_spec(Result::Ok(username), Result::Ok(password), token_read) matches Result::Ok(
            set,
        ) && set.username == username && set.password == password && set.auxiliary_token
            == token_read,
{
}

/// Law (missing username): with no remembered username the load decision
/// fails with `NoCredentials`, whatever the password and token reads hold.
pub proof fn lemma_missing_username_is_no_credentials(
    message: String,
    password_read: Result<String, String>,
    token_read: Option<String>,
)
    ensures
        load_outcome_spec(Result::Err(message), password_read, token_read) == Result::<
            AccountSecretSet,
            VaultError,
        >::Err(VaultError::NoCredentials(message)),
{
}

/// The vault's three entry keys for one username are pairwise distinct:
/// no write of one field can shadow another.
pub proof fn lemma_entry_keys_distinct(username: Seq<char>)
    ensures
        username_entry_key() != password_entry_key(username),
        username_entry_key() != token_entry_key(username),
        password_entry_key(username) != token_entry_key(username),
{
    reveal_strlit("username");
    reveal_strlit("password_");
    reveal_strlit("cf_clearance_");
    assert(username_entry_key().len() == 8);
    assert(password_entry_key(username).len() == 9 + username.len());
    assert(token_entry_key(username).len() == 13 + username.len());
}

/// Save one account's secrets into a store with known contents: the
/// username under the fixed key, the password and — when present — the
/// clearance token under their per-username keys.
pub fn save_to_store(
    store: &mut StoreModel,
    username: &str,
    password: &str,
    cf_clearance: &Option<String>,
)
    requires
        old(store).wf(),
    ensures
        final(store).wf(),
        final(store).as_mapping() == match *cf_clearance {
            Some(t) => old(store).as_mapping().insert(username_entry_key(), username@).insert(
                password_entry_key(username@),
                password@,
            ).insert(token_entry_key(username@), t@),
            None => old(store).as_mapping().insert(username_entry_key(), username@).insert(
                password_entry_key(username@),
                password@,
            ),
        },
{
    store.set(String::from_str("username"), String::from_str(username));
    store.set(password_key(username), String::from_str(password));
    if let Some(cf) = cf_clearance {
        store.set(token_key(username), cf.clone());
    }
}

/// Load the remembered account's secrets from a store with known
/// contents, deciding exactly as `load_outcome` does: no username entry
/// means no credentials; a username whose password entry is missing is a
/// password read failure; the token is returned iff its entry is there.
pub fn load_from_store(store: &StoreModel) -> (r: Result<AccountSecretSet, VaultError>)
    requires
        store.wf(),
    ensures
        !store.as_mapping().dom().contains(username_entry_key()) ==> (r matches Err(e)
            && e matches VaultError::NoCredentials(_)),
        store.as_mapping().dom().contains(username_entry_key()) ==> ({
            let u = store.as_mapping()[username_entry_key()];
            &&& !store.as_mapping().dom().contains(password_entry_key(u)) ==> (r matches Err(e)
                && e matches VaultError::ReadFailed(f, _) && f == VaultField::Password)
            &&& store.as_mapping().dom().contains(password_entry_key(u)) ==> (r matches Ok(set)
                && set.username@ == u && set.password@ == store.as_mapping()[password_entry_key(u)]
                && (if store.as_mapping().dom().contains(token_entry_key(u)) {
                set.auxiliary_token matches Some(t) && t@ == store.as_mapping()[token_entry_key(u)]
            } else {
                set.auxiliary_token is None
            }))
        }),
{
    let username = match store.get("username") {
        Some(u) => u.clone(),
        None => {
            return load_outcome(
                Err(String::from_str("No saved credentials found: no username entry")),
                Ok(String::new()),
                None,
            );
        },
    };
    let pw_key = password_key(username.as_str());
    let password_read: Result<String, String> = match store.get(pw_key.as_str()) {
        Some(p) => Ok(p.clone()),
        None => Err(String::from_str("Failed to load password: no password entry")),
    };
    let cf_key = token_key(username.as_str());
    let token_read = match store.get(cf_key.as_str()) {
        Some(t) => Some(t.clone()),
        None => None,
    };
    load_outcome(Ok(username), password_read, token_read)
}

/// Remove the remembered username's entry and the given username's
/// password and token entries from a store with known contents; absent
/// entries are no obstacle and nothing can make this fail.
pub fn delete_from_store(store: &mut StoreModel, username: &str)
    requires
        old(store).wf(),
    ensures
        final(store).wf(),
        final(store).as_mapping() == old(store).as_mapping().remove(username_entry_key()).remove(
            password_entry_key(username@),
        ).remove(token_entry_key(username@)),
{
    store.remove("username");
    let pw_key = password_key(username);
    store.remove(pw_key.as_str());
    let cf_key = token_key(username);
    store.remove(cf_key.as_str());
}

/// Law (round trip): after saving an account with a clearance token into
/// any store, the three entries hold exactly the saved values — with
/// `load_from_store`'s contract, a load straight after a save returns
/// what was saved.
pub proof fn lemma_store_round_trip(
    m: Map<Seq<char>, Seq<char>>,
    u: Seq<char>,
    p: Seq<char>,
    t: Seq<char>,
)
    ensures
        ({
            let m1 = m.insert(username_entry_key(), u).insert(password_entry_key(u), p).insert(
                token_entry_key(u),
                t,
            );
            &&& m1.dom().contains(username_entry_key()) && m1[username_entry_key()] == u
            &&& m1.dom().contains(password_entry_key(u)) && m1[password_entry_key(u)] == p
            &&& m1.dom().contains(token_entry_key(u)) && m1[token_entry_key(u)] == t
        }),
{
    lemma_entry_keys_distinct(u);
}

/// Law (round trip without a token): after saving an account with no
/// clearance token, the username and password entries hold the saved
/// values and the token entry is exactly as it was.
pub proof fn lemma_store_round_trip_without_token(
    m: Map<Seq<char>, Seq<char>>,
    u: Seq<char>,
    p: Seq<char>,
)
    ensures
        ({
            let m1 = m.insert(username_entry_key(), u).insert(password_entry_key(u), p);
            &&& m1.dom().contains(username_entry_key()) && m1[username_entry_key()] == u
            &&& m1.dom().contains(password_entry_key(u)) && m1[password_entry_key(u)] == p
            &&& m1.dom().contains(token_entry_key(u)) == m.dom().contains(token_entry_key(u))
            &&& m1.dom().contains(token_entry_key(u)) ==> m1[token_entry_key(u)]
                == m[token_entry_key(u)]
        }),
{
    lemma_entry_keys_distinct(u);
}

/// A store diagnostic behind a fixed prefix, as the vault reports it.
fn prefixed_message(prefix: &str, e: &keyring::Error) -> (r: String) {
    let text = store_error_text(e);
    String::from_str(prefix).concat(text.as_str())
}

/// Save one account's secrets: the username under the fixed key, the
/// password and — when present — the clearance token under their
/// per-username keys. Each write is independent; the first failure fails
/// the call without rolling back earlier writes.
pub fn save_credentials(username: &str, password: &str, cf_clearance: &Option<String>) -> (r: Result<
    (),
    VaultError,
>)
    ensures
        r matches Err(e) ==> e.is_save_error(),
{
    let username_entry = match entry_new("TwoBlade", "username") {
        Ok(entry) => entry,
        Err(e) => {
            return Err(
                VaultError::Unavailable(
                    VaultField::Username,
                    prefixed_message("Failed to create username entry: ", &e),
                ),
            );
        },
    };
    if let Err(e) = entry_set_password(&username_entry, username) {
        return Err(
            VaultError::WriteFailed(
                VaultField::Username,
                prefixed_message("Failed to save username: ", &e),
            ),
        );
    }
    let pw_key = password_key(username);
    let password_entry = match entry_new("TwoBlade", pw_key.as_str()) {
        Ok(entry) => entry,
        Err(e) => {
            return Err(
                VaultError::Unavailable(
                    VaultField::Password,
                    prefixed_message("Failed to create password entry: ", &e),
                ),
            );
        },
    };
    if let Err(e) = entry_set_password(&password_entry, password) {
        return Err(
            VaultError::WriteFailed(
                VaultField::Password,
                prefixed_message("Failed to save password: ", &e),
            ),
        );
    }
    if let Some(cf) = cf_clearance {
        let cf_key = token_key(username);
        let cf_entry = match entry_new("TwoBlade", cf_key.as_str()) {
            Ok(entry) => entry,
            Err(e) => {
                return Err(
                    VaultError::Unavailable(
                        VaultField::AuxiliaryToken,
                        prefixed_message("Failed to create CF clearance entry: ", &e),
                    ),
                );
            },
        };
        if let Err(e) = entry_set_password(&cf_entry, cf.as_str()) {
            return Err(
                VaultError::WriteFailed(
                    VaultField::AuxiliaryToken,
                    prefixed_message("Failed to save CF clearance: ", &e),
                ),
            );
        }
    }
    Ok(())
}

/// Load the remembered account's secrets. The username entry is read
/// first; the password entry is resolved relative to that username; the
/// token read is best-effort. Every decision on the answers is
/// `load_outcome`'s.
pub fn load_credentials() -> (r: Result<AccountSecretSet, VaultError>)
    ensures
        r matches Err(e) ==> e.is_load_error(),
{
    let username_entry = match entry_new("TwoBlade", "username") {
        Ok(entry) => entry,
        Err(e) => {
            return Err(
                VaultError::Unavailable(
                    VaultField::Username,
                    prefixed_message("Failed to create username entry: ", &e),
                ),
            );
        },
    };
    let username = match entry_get_password(&username_entry) {
        Ok(u) => u,
        Err(e) => {
            let message = prefixed_message("No saved credentials found: ", &e);
            return load_outcome(Err(message), Ok(String::new()), None);
        },
    };
    let pw_key = password_key(username.as_str());
    let password_entry = match entry_new("TwoBlade", pw_key.as_str()) {
        Ok(entry) => entry,
        Err(e) => {
            return Err(
                VaultError::Unavailable(
                    VaultField::Password,
                    prefixed_message("Failed to create password entry: ", &e),
                ),
            );
        },
    };
    let password_read = match entry_get_password(&password_entry) {
        Ok(p) => Ok(p),
        Err(e) => Err(prefixed_message("Failed to load password: ", &e)),
    };
    let cf_key = token_key(username.as_str());
    let token_read = match entry_new("TwoBlade", cf_key.as_str()) {
        Ok(entry) => match entry_get_password(&entry) {
            Ok(t) => Some(t),
            Err(_) => None,
        },
        Err(_) => None,
    };
    load_outcome(Ok(username), password_read, token_read)
}

/// Remove the remembered username's entry and the given username's
/// password and token entries. Each removal is independent and
/// best-effort: nothing that the store answers can make this fail.
pub fn delete_credentials(username: &str) -> (r: Result<(), VaultError>)
    ensures
        r is Ok,
{
    if let Ok(username_entry) = entry_new("TwoBlade", "username") {
        let _ = entry_delete_credential(&username_entry);
    }
    let pw_key = password_key(username);
    if let Ok(password_entry) = entry_new("TwoBlade", pw_key.as_str()) {
        let _ = entry_delete_credential(&password_entry);
    }
    let cf_key = token_key(username);
    if let Ok(cf_entry) = entry_new("TwoBlade", cf_key.as_str()) {
        let _ = entry_delete_credential(&cf_entry);
    }
    Ok(())
}

} // verus!
