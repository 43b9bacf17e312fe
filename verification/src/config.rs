//! The configuration record, immutable after load. The process around the
//! library reads it from disk and hands it over as plain values; the optional
//! cutoff is a UTC instant in seconds since the Unix epoch.

use vstd::prelude::*;

verus! {

/// The configuration record.
#[derive(Debug, Clone)]
pub struct Config {
    pub authorization_url: String,
    pub access_token_url: String,
    pub client_id: String,
    pub client_secret: String,
    pub refresh_token: String,
    pub access_token: String,
    pub folders: Vec<String>,
    pub webhook_url: String,
    pub webhook_error_url: String,
    pub panopto_base: String,
    pub filter_since_date: Option<i64>,
}

} // verus!
