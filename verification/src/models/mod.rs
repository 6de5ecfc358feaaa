//! Plain data carried between the request layer and the handlers.

pub mod auth;
pub mod release;

use vstd::prelude::*;

verus! {

/// A caller's name and age, as read from a request path.
pub struct Info {
    pub name: String,
    pub age: u32,
}

/// An optional user name, as read from a query string.
pub struct Query {
    pub username: Option<String>,
}

/// A short status report.
pub struct Status {
    pub status: &'static str,
    pub message: String,
}

/// One demonstration work item.
pub struct Task {
    pub id: u32,
    pub name: &'static str,
    pub message: String,
}

/// Progress of a chunked stream of `Task` values: how many to emit, how many
/// are already out, and the bytes of the chunk under construction.
pub struct TaskStream {
    pub number: u32,
    pub next: u32,
    pub buf: Vec<u8>,
}

} // verus!
