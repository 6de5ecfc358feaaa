//! The subset of the configuration that the server bind step needs.

use vstd::prelude::*;

verus! {

/// Where the server listens.
pub struct Settings {
    pub server_url: String,
    pub server_port: String,
}

} // verus!
