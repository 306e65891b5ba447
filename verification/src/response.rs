//! The response shapes the transport layer serializes for clients.

use vstd::prelude::*;

verus! {

/// A list-of-results body.
pub struct Response<T> {
    pub results: Vec<T>,
}

/// A status/message body, used by registration and login.
#[derive(Debug)]
pub struct StatusResponse {
    pub status: String,
    pub message: String,
}

} // verus!
