//! Values that stand for a response.

use crate::bindings::http::{is_status, parse_status};
use crate::bindings::json::json_text;
use crate::error::Error;
use crate::handler::with::json::{Json, JsonView};
use crate::message::{Header, HeaderView, Response, ResponseView};
use vstd::prelude::*;
use vstd::string::StringExecFns;

verus! {

/// The response with the status 200, no header and the body `body`.
pub open spec fn text_response(body: Seq<char>) -> ResponseView {
    ResponseView { status: 200, headers: Seq::empty(), body }
}

/// The response with the status `status`, no header and the body `body`.
pub open spec fn status_response(status: u16, body: Seq<char>) -> ResponseView {
    ResponseView { status, headers: Seq::empty(), body }
}

/// The response with the status 200, the header `content-type:
/// application/json`, and the text of `document` as its body.
pub open spec fn json_response(document: JsonView) -> ResponseView {
    ResponseView {
        status: 200,
        headers: seq![
            HeaderView {
                name: "content-type"@,
                value: vstd::utf8::encode_utf8("application/json"@),
            },
        ],
        body: json_text(document),
    }
}

/// Trait for values that can be transformed into a [`Response`]
///
/// A text is the body of a response with the status 200. A status and a
/// text are a response with that status, and fail where the status is not
/// a number of three digits. A JSON document is written out as the body of a
/// response with the status 200 that names its content type.
pub trait IntoResponse: Sized {
    /// The response that the value stands for, or `None` where it stands for
    /// none.
    spec fn response(self) -> Option<ResponseView>;

    /// Transforms self into a [`Response`]
    fn into_response(self) -> (r: Result<Response, Error>)
        ensures
            match r {
                Ok(response) => self.response() == Some(response@),
                Err(_) => self.response() is None,
            },
    ;
}

/// The response with the status `status`, no header and the body `body`.
pub fn plain_response(status: u16, body: String) -> (r: Response)
    ensures
        r@ == status_response(status, body@),
{
    let headers: Vec<Header> = Vec::new();
    let response = Response { status, headers, body };
    assert(response@.headers =~= Seq::empty());
    response
}

impl IntoResponse for Response {
    open spec fn response(self) -> Option<ResponseView> {
        Some(self@)
    }

    fn into_response(self) -> (r: Result<Response, Error>) {
        Ok(self)
    }
}

impl IntoResponse for String {
    open spec fn response(self) -> Option<ResponseView> {
        Some(text_response(self@))
    }

    fn into_response(self) -> (r: Result<Response, Error>) {
        Ok(plain_response(200, self))
    }
}

impl<'a> IntoResponse for &'a str {
    open spec fn response(self) -> Option<ResponseView> {
        Some(text_response(self@))
    }

    fn into_response(self) -> (r: Result<Response, Error>) {
        Ok(plain_response(200, String::from_str(self)))
    }
}

impl IntoResponse for (u16, String) {
    open spec fn response(self) -> Option<ResponseView> {
        if is_status(self.0) {
            Some(status_response(self.0, self.1@))
        } else {
            None
        }
    }

    fn into_response(self) -> (r: Result<Response, Error>)
        ensures
            r matches Err(err) ==> err is Http,
    {
        match parse_status(self.0) {
            Ok(status) => Ok(plain_response(status, self.1)),
            Err(message) => Err(Error::Http(message)),
        }
    }
}

impl<'a> IntoResponse for (u16, &'a str) {
    open spec fn response(self) -> Option<ResponseView> {
        if is_status(self.0) {
            Some(status_response(self.0, self.1@))
        } else {
            None
        }
    }

    fn into_response(self) -> (r: Result<Response, Error>)
        ensures
            r matches Err(err) ==> err is Http,
    {
        match parse_status(self.0) {
            Ok(status) => Ok(plain_response(status, String::from_str(self.1))),
            Err(message) => Err(Error::Http(message)),
        }
    }
}

impl IntoResponse for Json {
    open spec fn response(self) -> Option<ResponseView> {
        Some(json_response(self@))
    }

    fn into_response(self) -> (r: Result<Response, Error>) {
        Ok(json_reply(&self))
    }
}

/// The response that a JSON document stands for.
pub fn json_reply(document: &Json) -> (r: Response)
    ensures
        r@ == json_response(document@),
{
    let mut headers: Vec<Header> = Vec::new();
    headers.push(
        Header {
            name: String::from_str("content-type"),
            value: "application/json".as_bytes_vec(),
        },
    );
    let response = Response { status: 200, headers, body: document.to_text() };
    assert(response@.headers =~= json_response(document@).headers);
    response
}

impl<R: IntoResponse> IntoResponse for Result<R, String> {
    open spec fn response(self) -> Option<ResponseView> {
        match self {
            Ok(value) => value.response(),
            Err(_) => None,
        }
    }

    fn into_response(self) -> (r: Result<Response, Error>) {
        match self {
            Ok(value) => value.into_response(),
            Err(message) => Err(Error::Runtime(message)),
        }
    }
}

} // verus!
