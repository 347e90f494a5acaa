//! Verified core of a Timeular time-tracking CLI client.
//!
//! The library models the service's records as plain data, builds the HTTP
//! requests (URL, bearer header, JSON body) as verified string computations,
//! decides the session/authentication outcome from a sign-in response, and
//! renders the current-tracking summary line. The surrounding binary performs
//! the actual network and file I/O and hands plain values to this crate.

pub mod digits;
pub mod json;
pub mod json_read;
pub mod model;
pub mod session;
pub mod summary;
pub mod time;

use vstd::prelude::*;

verus! {

/// A session able to make authenticated calls: it holds the bearer token.
pub struct TimeularApi {
    pub token: String,
}

impl TimeularApi {
    /// Wrap an already-known token with no validation; validity is
    /// discovered lazily on the first authenticated call.
    pub fn new_from_token(token: &String) -> (r: TimeularApi)
        ensures
            r.token@ == token@,
    {
        TimeularApi { token: token.clone() }
    }
}

} // verus!
