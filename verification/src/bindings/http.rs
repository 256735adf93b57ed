//! URIs, methods and header names, as the `http` crate reads them.

use hyper::http::uri::InvalidUri;
use vstd::prelude::*;

verus! {

/// The URI that `text` is, written out again, or `None` where `text` is no
/// URI.
pub uninterp spec fn uri_text(text: Seq<char>) -> Option<Seq<char>>;

/// Whether both texts are URIs, and the same URI.
pub uninterp spec fn uri_equal(a: Seq<char>, b: Seq<char>) -> bool;

/// The URI `base` with its path and query replaced by `path`, or `None` where
/// one of the two cannot be read or the parts do not make a URI.
pub uninterp spec fn uri_with_path(base: Seq<char>, path: Seq<char>) -> Option<Seq<char>>;

/// The method that `text` names, or `None` where `text` is no method.
pub uninterp spec fn method_text(text: Seq<char>) -> Option<Seq<char>>;

/// The header name that `text` is, in its normal form, or `None` where `text`
/// is no header name.
pub uninterp spec fn header_name_text(text: Seq<char>) -> Option<Seq<char>>;

/// Calls `Uri::from_str` and writes the URI out with its `Display`.
///
/// Assumed: the result depends on `text` alone; it is `Err`, with the
/// error's message, exactly where the text is no URI.
#[verifier::external_body]
pub(crate) fn parse_uri(text: &str) -> (r: Result<String, String>)
    ensures
        match r {
            Ok(uri) => uri_text(text@) == Some(uri@),
            Err(_) => uri_text(text@) is None,
        },
{
    match text.parse::<hyper::Uri>() {
        Ok(uri) => Ok(uri.to_string()),
        Err(err) => Err(err.to_string()),
    }
}

/// Calls `==` of `Uri` on the URIs that the two texts are.
///
/// Assumed: the result depends on the two texts alone. It is `false` where
/// one of them is no URI.
#[verifier::external_body]
pub(crate) fn uri_eq(a: &str, b: &str) -> (r: bool)
    ensures
        r == uri_equal(a@, b@),
{
    match (a.parse::<hyper::Uri>(), b.parse::<hyper::Uri>()) {
        (Ok(a), Ok(b)) => a == b,
        _ => false,
    }
}

/// Calls `Uri::from_parts` on the parts of `base`, with `path` read as a
/// `PathAndQuery` in place of its own.
///
/// Assumed: the result depends on the two texts alone; an `Err` holds the
/// message of the error that came first.
#[verifier::external_body]
pub(crate) fn replace_path(base: &str, path: &str) -> (r: Result<String, String>)
    ensures
        match r {
            Ok(uri) => uri_with_path(base@, path@) == Some(uri@),
            Err(_) => uri_with_path(base@, path@) is None,
        },
{
    let mut parts = base.parse::<hyper::Uri>().map_err(|err| err.to_string())?.into_parts();
    parts.path_and_query = Some(path.parse().map_err(|err: InvalidUri| err.to_string())?);
    hyper::Uri::from_parts(parts).map(|uri| uri.to_string()).map_err(|err| err.to_string())
}

/// Calls `Method::from_bytes` and gives the method's `as_str`.
///
/// Assumed: the result depends on `text` alone; it is `Err`, with the
/// error's message, exactly where the text is no method.
#[verifier::external_body]
pub(crate) fn parse_method(text: &str) -> (r: Result<String, String>)
    ensures
        match r {
            Ok(method) => method_text(text@) == Some(method@),
            Err(_) => method_text(text@) is None,
        },
{
    match hyper::Method::from_bytes(text.as_bytes()) {
        Ok(method) => Ok(method.as_str().to_string()),
        Err(err) => Err(err.to_string()),
    }
}

/// Calls `HeaderName::from_bytes` and gives the name's `as_str`.
///
/// Assumed: the result depends on `text` alone; it is `Err`, with the
/// error's message, exactly where the text is no header name.
#[verifier::external_body]
pub(crate) fn parse_header_name(text: &str) -> (r: Result<String, String>)
    ensures
        match r {
            Ok(name) => header_name_text(text@) == Some(name@),
            Err(_) => header_name_text(text@) is None,
        },
{
    match hyper::header::HeaderName::from_bytes(text.as_bytes()) {
        Ok(name) => Ok(name.as_str().to_string()),
        Err(err) => Err(err.to_string()),
    }
}

/// Whether a byte may stand in the value of a header: a tab, or any byte
/// from the space on but for the delete character.
pub open spec fn is_value_byte(byte: u8) -> bool {
    (byte >= 32 && byte != 127) || byte == 9
}

/// Whether `bytes` can be the value of a header.
pub open spec fn is_header_value(bytes: Seq<u8>) -> bool {
    forall|i: int| 0 <= i < bytes.len() ==> is_value_byte(#[trigger] bytes[i])
}

/// Whether `code` can be the status of a response.
pub open spec fn is_status(code: u16) -> bool {
    100 <= code < 1000
}

/// Calls `HeaderValue::from_bytes` and gives the value's bytes.
///
/// Assumed: the value is taken exactly where all its bytes may stand in a
/// header value, and is then made of the same bytes; an `Err` holds the
/// error's message.
#[verifier::external_body]
pub(crate) fn parse_header_value(bytes: &[u8]) -> (r: Result<Vec<u8>, String>)
    ensures
        match r {
            Ok(value) => is_header_value(bytes@) && value@ == bytes@,
            Err(_) => !is_header_value(bytes@),
        },
{
    match hyper::header::HeaderValue::from_bytes(bytes) {
        Ok(value) => Ok(value.as_bytes().to_vec()),
        Err(err) => Err(err.to_string()),
    }
}

/// Calls `StatusCode::from_u16` and gives the status as a number again.
///
/// Assumed: the code is taken exactly where it lies between 100 and 999,
/// and comes back unchanged; an `Err` holds the error's message.
#[verifier::external_body]
pub(crate) fn parse_status(code: u16) -> (r: Result<u16, String>)
    ensures
        match r {
            Ok(status) => is_status(code) && status == code,
            Err(_) => !is_status(code),
        },
{
    match hyper::StatusCode::from_u16(code) {
        Ok(status) => Ok(status.as_u16()),
        Err(err) => Err(err.to_string()),
    }
}

} // verus!
