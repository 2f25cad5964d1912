//! The license key kept in the operating system's credential store.
use vstd::prelude::*;
use keyring::Entry;

verus! {

/// Why the credential store could not be used.
#[derive(Debug, Clone, PartialEq, Eq)]
pub enum KeychainError {
    AccessError(String),
    NotFound,
}

#[verifier::external_type_specification]
#[verifier::external_body]
pub struct ExEntry(Entry);

/// Relies on keyring's `Entry::new`: the store's entry for the license key
/// of this application. What the store answers is not known in advance.
#[verifier::external_body]
fn open_entry() -> (r: Result<Entry, KeychainError>) {
    Entry::new("com.exad.sync2bucket", "license_key").map_err(
        |e| KeychainError::AccessError(e.to_string()),
    )
}

/// Relies on keyring's `Entry::set_password`.
#[verifier::external_body]
fn entry_set(entry: &Entry, key: &str) -> (r: Result<(), KeychainError>) {
    entry.set_password(key).map_err(|e| KeychainError::AccessError(e.to_string()))
}

/// Relies on keyring's `Entry::get_password`; its `NoEntry` error becomes
/// `NotFound`.
#[verifier::external_body]
fn entry_get(entry: &Entry) -> (r: Result<String, KeychainError>) {
    entry.get_password().map_err(
        |e| match e {
            keyring::Error::NoEntry => KeychainError::NotFound,
            _ => KeychainError::AccessError(e.to_string()),
        },
    )
}

/// Relies on keyring's `Entry::delete_credential`.
#[verifier::external_body]
fn entry_delete(entry: &Entry) -> (r: Result<(), KeychainError>) {
    entry.delete_credential().map_err(|e| KeychainError::AccessError(e.to_string()))
}

/// Stores the license key.
pub fn store_key(key: &str) -> (r: Result<(), KeychainError>) {
    let entry = open_entry()?;
    entry_set(&entry, key)
}

/// The stored license key.
pub fn get_key() -> (r: Result<String, KeychainError>) {
    let entry = open_entry()?;
    entry_get(&entry)
}

/// Deletes the stored license key.
pub fn delete_key() -> (r: Result<(), KeychainError>) {
    let entry = open_entry()?;
    entry_delete(&entry)
}

/// Whether a license key can be read from the store.
pub fn has_key() -> (r: bool) {
    get_key().is_ok()
}

} // verus!
