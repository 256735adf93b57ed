//! What a case does with a request: whether it takes it, and what it answers.

pub mod returning;
pub mod with;

use crate::message::{Response, ResponseView};
use crate::response::{plain_response, status_response};
pub use returning::{Function, IntoReturning, Returning};
use vstd::prelude::*;
pub use with::{
    DefaultWith, IntoWith, Predicate, Reason, Report, With, WithHandler, WithPrint,
};

verus! {

/// A response for a request that no case answers.
pub trait DefaultHandler {
    /// The response that the handler gives.
    spec fn response(&self) -> ResponseView;

    /// Gives the response.
    fn handle(&self) -> (r: Response)
        ensures
            r@ == self.response(),
    ;
}

/// The answer to a request that could not be read: the status 500 and an
/// empty body.
pub struct DefaultErrorHandler;

impl DefaultHandler for DefaultErrorHandler {
    open spec fn response(&self) -> ResponseView {
        status_response(500, Seq::empty())
    }

    fn handle(&self) -> (r: Response) {
        plain_response(500, String::new())
    }
}

/// The answer to a request for what is not there: the status 404 and an
/// empty body.
pub struct DefaultMissingHandler;

impl DefaultHandler for DefaultMissingHandler {
    open spec fn response(&self) -> ResponseView {
        status_response(404, Seq::empty())
    }

    fn handle(&self) -> (r: Response) {
        plain_response(404, String::new())
    }
}

} // verus!
