//! Values exchanged with the user interface, and the answers it is given
//! when a license key is checked.
use vstd::prelude::*;
use vstd::string::*;
use crate::admin::KeyValidationResult;
use crate::crypto::{spec_crypto_message, CryptoError};
use crate::progress::opt_string_view;

verus! {

/// Answer to a license key check.
#[derive(Debug, Clone, PartialEq, Eq)]
pub struct ValidationResult {
    pub valid: bool,
    pub user_name: Option<String>,
    pub error: Option<String>,
}

/// A request to synchronise: local roots to upload, or a folder to download
/// into a target directory.
#[derive(Debug, Clone, PartialEq, Eq)]
pub struct SyncRequest {
    pub source_paths: Vec<String>,
    pub target_path: Option<String>,
    pub cloud_folder: Option<String>,
}

/// The key could not be opened: `Invalid key: ` and the reason.
pub fn invalid_key_result(e: CryptoError) -> (r: ValidationResult)
    ensures
        !r.valid,
        r.user_name is None,
        opt_string_view(r.error) == Some("Invalid key: "@ + spec_crypto_message(e)),
{
    let mut text = String::from_str("Invalid key: ");
    let m = e.message();
    text.append(m.as_str());
    ValidationResult { valid: false, user_name: None, error: Some(text) }
}

/// The access lists refused the key: their reason is passed on.
pub fn blocked_result(v: KeyValidationResult) -> (r: ValidationResult)
    ensures
        !r.valid,
        r.user_name is None,
        opt_string_view(r.error) == opt_string_view(v.reason),
{
    ValidationResult { valid: false, user_name: None, error: v.reason }
}

/// The store could not be reached: `Connection failed: ` and the reason.
pub fn connection_failed_result(message: &str) -> (r: ValidationResult)
    ensures
        !r.valid,
        r.user_name is None,
        opt_string_view(r.error) == Some("Connection failed: "@ + message@),
{
    let mut text = String::from_str("Connection failed: ");
    text.append(message);
    ValidationResult { valid: false, user_name: None, error: Some(text) }
}

/// The key was accepted for the user `user_name`.
pub fn accepted_result(user_name: String) -> (r: ValidationResult)
    ensures
        r.valid,
        opt_string_view(r.user_name) == Some(user_name@),
        r.error is None,
{
    ValidationResult { valid: true, user_name: Some(user_name), error: None }
}

} // verus!
