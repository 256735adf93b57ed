//! The head of an HTTP/1.1 request, as `httparse` reads it.

use crate::message::{headers_view, Header, HeaderView};
use vstd::prelude::*;

verus! {

/// The request line and the headers of a request.
#[derive(Debug, Clone, PartialEq, Eq)]
pub struct RequestHead {
    /// The request method, such as `GET`
    pub method: Option<String>,
    /// The request path, such as `/about-us`
    pub path: Option<String>,
    /// The headers, in the order in which they stand in the request
    pub headers: Vec<Header>,
}

/// What a [`RequestHead`] stands for.
pub struct RequestHeadView {
    pub method: Option<Seq<char>>,
    pub path: Option<Seq<char>>,
    pub headers: Seq<HeaderView>,
}

impl View for RequestHead {
    type V = RequestHeadView;

    open spec fn view(&self) -> RequestHeadView {
        RequestHeadView {
            method: match self.method {
                Some(method) => Some(method@),
                None => None,
            },
            path: match self.path {
                Some(path) => Some(path@),
                None => None,
            },
            headers: headers_view(self.headers@),
        }
    }
}

/// What reading the bytes of a request gives.
pub enum Parsed {
    /// The head is complete, and the body starts at the given offset.
    Complete(RequestHeadView, int),
    /// The bytes end before the head does.
    Partial,
    /// The bytes are no HTTP/1.1 request, or hold more headers than asked
    /// for.
    Malformed,
}

/// What `httparse` makes of `bytes` when it has room for `max_headers`
/// headers.
pub uninterp spec fn parsed_request(bytes: Seq<u8>, max_headers: nat) -> Parsed;

/// Calls `httparse::Request::parse` with room for `max_headers` headers.
///
/// `Ok(Some(..))` holds the head and the offset of the body, `Ok(None)` says
/// that the head is not complete yet.
///
/// Assumed: the result depends on the bytes and on `max_headers` alone, the
/// offset of the body lies within the bytes, and an `Err` holds the message
/// of the error.
#[verifier::external_body]
pub(crate) fn parse_request(bytes: &[u8], max_headers: usize) -> (r: Result<
    Option<(RequestHead, usize)>,
    String,
>)
    ensures
        match r {
            Ok(Some((head, offset))) => parsed_request(bytes@, max_headers as nat)
                == Parsed::Complete(head@, offset as int) && offset <= bytes@.len(),
            Ok(None) => parsed_request(bytes@, max_headers as nat) == Parsed::Partial,
            Err(_) => parsed_request(bytes@, max_headers as nat) == Parsed::Malformed,
        },
{
    let mut buffer = vec![httparse::EMPTY_HEADER; max_headers];
    let mut request = httparse::Request::new(&mut buffer);
    match request.parse(bytes).map_err(|err| err.to_string())? {
        httparse::Status::Partial => Ok(None),
        httparse::Status::Complete(offset) => {
            let headers = request.headers.iter().map(
                |h| Header { name: h.name.to_string(), value: h.value.to_vec() },
            ).collect();
            let method = request.method.map(|m| m.to_string());
            let path = request.path.map(|p| p.to_string());
            Ok(Some((RequestHead { method, path, headers }, offset)))
        },
    }
}

} // verus!
