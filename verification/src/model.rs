//! Plain data carried between the core and the surrounding shell.

use vstd::prelude::*;

verus! {

/// Build-time configuration the application is compiled with.
#[derive(Debug, Clone)]
pub struct RequiredEnvironmentVariables {
    pub vault_base_url: &'static str,
    pub vault_role_id: &'static str,
    pub vault_secret_id: &'static str,
    pub sentry_url: &'static str,
    pub sentry_environment: &'static str,
}

/// Endpoints and credentials the shell fetches once from its secret store
/// and hands to the core before the first upload.
#[derive(Debug, Clone)]
pub struct SecretVariables {
    pub papi_path: String,
    pub oidc_base_url: String,
    pub oidc_client_id: String,
    pub oidc_client_secret: String,
    pub oidc_tekst_base_url: String,
    pub oidc_tekst_client_id: String,
    pub oidc_tekst_client_secret: String,
    pub s3_access_key_id: String,
    pub s3_secret_access_key: String,
    pub s3_url: String,
    pub s3_bucket_name: String,
    pub s3_region: String,
}

/// Absolute expiry times of a token pair, in epoch milliseconds.
#[derive(Debug, Clone, Copy, PartialEq, Eq, Structural)]
pub struct ExpireInfo {
    pub expires_at: u128,
    pub refresh_expires_at: u128,
}

/// One progress event, emitted after each completed file transfer.
///
/// `page_nr` is the running count of files finished so far within the whole
/// operation and `total_pages` the operation's total file count, so a single
/// progress bar can span a heterogeneous batch. `directory` is the parent
/// directory of the transferred file, letting the consumer tell interleaved
/// operations apart.
#[derive(Debug, Clone, PartialEq, Eq)]
pub struct TransferProgress {
    pub directory: String,
    pub page_nr: usize,
    pub total_pages: usize,
}

} // verus!
