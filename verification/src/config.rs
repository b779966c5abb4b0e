use vstd::prelude::*;

verus! {

/// Process settings, fixed for the lifetime of the process.
#[derive(Clone, Debug)]
pub struct Config {
    pub debug: bool,
    pub repos: String,
    pub db_path: String,
    pub oauth_client_id: String,
    pub oauth_client_secret: String,
    pub host: String,
    pub port: u16,
    pub session_secret: String,
    /// Address under which the catalog's API is reached.
    pub api_base_url: String,
    /// Address of the endpoint that hands out credentials.
    pub token_endpoint: String,
    /// Seconds between the end of one cycle and the start of the next.
    pub poll_interval: u64,
}

} // verus!
