//! Errors generated by this crate.

use crate::case::Checkpoint;
use crate::handler::with::report::Reason;
use crate::message::Request;
use vstd::prelude::*;

verus! {

/// Errors generated by this crate
#[derive(Debug, Clone, PartialEq, Eq)]
pub enum Error {
    /// Errors while checking if all mock cases were called the right number of times
    Checkpoint(Vec<Checkpoint>),
    /// A URI, a method, a header or a status code that is not valid, with
    /// what the `http` crate says of it
    Http(String),
    /// Text that is no JSON document, with what `serde_json` says of it
    Json(String),
    /// No match found for the incoming [`Request`]
    ///
    /// Where the connector reports missing matches, `reports` holds for each
    /// case, in the order of the cases, the reasons for which it did not
    /// match.
    NotFound { request: Request, reports: Option<Vec<Vec<Reason>>> },
    /// Runtime errors: a matcher or a responder that failed, or a request
    /// that could not be put together
    Runtime(String),
}

} // verus!
