//! Responders: what a case answers.

use crate::bindings::http::is_status;
use crate::error::Error;
use crate::handler::with::json::Json;
use crate::message::{Request, RequestView, Response, ResponseView};
use crate::response::{
    json_reply, json_response, plain_response, status_response, text_response, IntoResponse,
};
use std::sync::Arc;
use vstd::prelude::*;
use vstd::string::StringExecFns;

verus! {

/// Trait for responses matching mock cases
///
/// A value that stands for a response answers every request with it. A
/// function may answer as it likes.
pub trait Returning: Send + Sync {
    /// Whether `answer` is what the responder may give for a request: a
    /// response, or `None` for a failure.
    spec fn answers(&self, req: RequestView, answer: Option<ResponseView>) -> bool;

    /// Return a [`Response`] based on the incoming [`Request`]
    ///
    /// A failure is an error of the responder's own: it is never `NotFound`,
    /// which says that no case matched.
    fn returning(&self, req: Request) -> (r: Result<Response, Error>)
        ensures
            self.answers(req@, answer_of(r)),
            r matches Err(err) ==> !(err is NotFound),
    ;
}

/// A responder that can be put into a case.
pub trait IntoReturning: Returning + Sized {
    /// The responder as a case holds it: it may give the same answers.
    fn into_returning(self) -> (r: Arc<Box<dyn Returning>>)
        ensures
            forall|req: RequestView, answer: Option<ResponseView>| #[trigger]
                r.answers(req, answer) == self.answers(req, answer),
    ;
}

/// What the result of a responder stands for: the response, or `None` for a
/// failure.
pub open spec fn answer_of(result: Result<Response, Error>) -> Option<ResponseView> {
    match result {
        Ok(response) => Some(response@),
        Err(_) => None,
    }
}

impl Returning for &'static str {
    open spec fn answers(&self, req: RequestView, answer: Option<ResponseView>) -> bool {
        answer == ({
            Some(text_response(self@))
        })
    }

    fn returning(&self, _req: Request) -> (r: Result<Response, Error>) {
        Ok(plain_response(200, String::from_str(*self)))
    }
}

impl IntoReturning for &'static str {
    fn into_returning(self) -> (r: Arc<Box<dyn Returning>>) {
        Arc::new(Box::new(self))
    }
}

impl Returning for String {
    open spec fn answers(&self, req: RequestView, answer: Option<ResponseView>) -> bool {
        answer == ({
            Some(text_response(self@))
        })
    }

    fn returning(&self, _req: Request) -> (r: Result<Response, Error>) {
        Ok(plain_response(200, self.clone()))
    }
}

impl IntoReturning for String {
    fn into_returning(self) -> (r: Arc<Box<dyn Returning>>) {
        Arc::new(Box::new(self))
    }
}

impl Returning for u16 {
    /// A status alone is a response with an empty body.
    open spec fn answers(&self, req: RequestView, answer: Option<ResponseView>) -> bool {
        answer == ({
            if is_status(*self) {
                Some(status_response(*self, Seq::empty()))
            } else {
                None
            }
        })
    }

    fn returning(&self, _req: Request) -> (r: Result<Response, Error>)
        ensures
            r matches Err(err) ==> err is Http,
    {
        (*self, String::new()).into_response()
    }
}

impl IntoReturning for u16 {
    fn into_returning(self) -> (r: Arc<Box<dyn Returning>>) {
        Arc::new(Box::new(self))
    }
}

impl Returning for (u16, String) {
    open spec fn answers(&self, req: RequestView, answer: Option<ResponseView>) -> bool {
        answer == ({
            if is_status(self.0) {
                Some(status_response(self.0, self.1@))
            } else {
                None
            }
        })
    }

    fn returning(&self, _req: Request) -> (r: Result<Response, Error>)
        ensures
            r matches Err(err) ==> err is Http,
    {
        (self.0, self.1.clone()).into_response()
    }
}

impl IntoReturning for (u16, String) {
    fn into_returning(self) -> (r: Arc<Box<dyn Returning>>) {
        Arc::new(Box::new(self))
    }
}

impl Returning for (u16, &'static str) {
    open spec fn answers(&self, req: RequestView, answer: Option<ResponseView>) -> bool {
        answer == ({
            if is_status(self.0) {
                Some(status_response(self.0, self.1@))
            } else {
                None
            }
        })
    }

    fn returning(&self, _req: Request) -> (r: Result<Response, Error>)
        ensures
            r matches Err(err) ==> err is Http,
    {
        (self.0, self.1).into_response()
    }
}

impl IntoReturning for (u16, &'static str) {
    fn into_returning(self) -> (r: Arc<Box<dyn Returning>>) {
        Arc::new(Box::new(self))
    }
}

impl Returning for Json {
    open spec fn answers(&self, req: RequestView, answer: Option<ResponseView>) -> bool {
        answer == ({
            Some(json_response(self@))
        })
    }

    fn returning(&self, _req: Request) -> (r: Result<Response, Error>) {
        Ok(json_reply(self))
    }
}

impl IntoReturning for Json {
    fn into_returning(self) -> (r: Arc<Box<dyn Returning>>) {
        Arc::new(Box::new(self))
    }
}

/// What the result of a function that answers a request stands for: the
/// response, or `None` for a failure.
pub open spec fn reply(result: Result<Response, String>) -> Option<ResponseView> {
    match result {
        Ok(response) => Some(response@),
        Err(_) => None,
    }
}

/// Whether `answer` can be called on every request.
pub open spec fn answers_every_request<F: Fn(Request) -> Result<Response, String>>(
    answer: F,
) -> bool {
    forall|req: Request| #[trigger] call_requires(answer, (req,))
}

/// A responder made of a function from the request to a response. An `Err`
/// of the function is a failure of the responder.
pub struct Function<F: Fn(Request) -> Result<Response, String>> {
    answer: F,
}

impl<F: Fn(Request) -> Result<Response, String>> Function<F> {
    #[verifier::type_invariant]
    spec fn sound(self) -> bool {
        answers_every_request(self.answer)
    }

    /// The function that the responder calls.
    pub closed spec fn answer(self) -> F {
        self.answer
    }

    /// Makes a responder of a function.
    ///
    /// The function must take every request.
    pub fn new(answer: F) -> (r: Self)
        requires
            answers_every_request(answer),
        ensures
            r.answer() == answer,
    {
        Function { answer }
    }
}

impl<F: Fn(Request) -> Result<Response, String> + Send + Sync> Returning for Function<F> {
    /// What the function may give for a request that stands for `req`.
    open spec fn answers(&self, req: RequestView, answer: Option<ResponseView>) -> bool {
        exists|q: Request, x: Result<Response, String>|
            q@ == req && #[trigger] call_ensures(self.answer(), (q,), x) && reply(x) == answer
    }

    fn returning(&self, req: Request) -> (r: Result<Response, Error>)
        ensures
            r matches Err(err) ==> err is Runtime,
    {
        proof {
            use_type_invariant(self);
        }
        let result = (self.answer)(req);
        assert(call_ensures(self.answer(), (req,), result));
        match result {
            Ok(response) => Ok(response),
            Err(message) => Err(Error::Runtime(message)),
        }
    }
}

impl<F: Fn(Request) -> Result<Response, String> + Send + Sync + 'static> IntoReturning for Function<
    F,
> {
    fn into_returning(self) -> (r: Arc<Box<dyn Returning>>) {
        Arc::new(Box::new(self))
    }
}

} // verus!
