//! The process configuration, as loaded from the environment by the
//! program around this library.

use vstd::prelude::*;

verus! {

/// Everything the process reads from its environment at start-up.
pub struct Config {
    pub environment: String,
    pub server_url: String,
    pub server_port: String,
    pub server_log_level: String,
    pub jwt_secret_key: String,
    pub database_url: String,
    pub github_api_username: String,
    pub github_api_token: String,
}

} // verus!
