//! Application configuration as plain values.

use vstd::prelude::*;

use crate::oauth::OpenIdConfiguration;

verus! {

/// The process configuration, fixed at startup. `self_url` is the
/// application's own base URL, kept as a string.
#[derive(Clone, Debug)]
pub struct AppConfig {
    pub db_url: String,
    pub port: u16,
    pub oauth: OpenIdConfiguration,
    pub oauth_client_id: String,
    pub oauth_autodiscover_url: String,
    pub oauth_client_secret: String,
    pub self_url: String,
}

} // verus!
