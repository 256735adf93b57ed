//! Requests and responses as plain values.

use vstd::prelude::*;

verus! {

/// One header line: a name and the bytes of its value.
#[derive(Debug, PartialEq, Eq)]
pub struct Header {
    /// The header's name, in lower case
    pub name: String,
    /// The header's value
    pub value: Vec<u8>,
}

/// What a [`Header`] stands for.
pub struct HeaderView {
    pub name: Seq<char>,
    pub value: Seq<u8>,
}

impl View for Header {
    type V = HeaderView;

    open spec fn view(&self) -> HeaderView {
        HeaderView { name: self.name@, value: self.value@ }
    }
}

/// The views of a list of headers, in the same order.
pub open spec fn headers_view(headers: Seq<Header>) -> Seq<HeaderView> {
    headers.map_values(|h: Header| h@)
}

/// The values of the headers called `name`, in the order of the list.
pub open spec fn values_of(headers: Seq<HeaderView>, name: Seq<char>) -> Seq<Seq<u8>> {
    headers.filter(|h: HeaderView| h.name == name).map_values(|h: HeaderView| h.value)
}

/// A request as the matchers see it.
#[derive(Debug, PartialEq, Eq)]
pub struct Request {
    /// The request method, such as `GET`
    pub method: String,
    /// The absolute URI that the request is for
    pub uri: String,
    /// The headers, in the order in which they came
    pub headers: Vec<Header>,
    /// The body, as text
    pub body: String,
}

/// What a [`Request`] stands for.
pub struct RequestView {
    pub method: Seq<char>,
    pub uri: Seq<char>,
    pub headers: Seq<HeaderView>,
    pub body: Seq<char>,
}

impl View for Request {
    type V = RequestView;

    open spec fn view(&self) -> RequestView {
        RequestView {
            method: self.method@,
            uri: self.uri@,
            headers: headers_view(self.headers@),
            body: self.body@,
        }
    }
}

/// A response as the responders make it.
#[derive(Debug, PartialEq, Eq)]
pub struct Response {
    /// The status code
    pub status: u16,
    /// The headers, in the order in which they were added
    pub headers: Vec<Header>,
    /// The body, as text
    pub body: String,
}

/// What a [`Response`] stands for.
pub struct ResponseView {
    pub status: u16,
    pub headers: Seq<HeaderView>,
    pub body: Seq<char>,
}

impl View for Response {
    type V = ResponseView;

    open spec fn view(&self) -> ResponseView {
        ResponseView {
            status: self.status,
            headers: headers_view(self.headers@),
            body: self.body@,
        }
    }
}

/// A copy of a byte string.
pub fn copy_bytes(bytes: &Vec<u8>) -> (r: Vec<u8>)
    ensures
        r@ == bytes@,
{
    let mut copy: Vec<u8> = Vec::new();
    let mut i: usize = 0;
    while i < bytes.len()
        invariant
            i <= bytes.len(),
            copy@ == bytes@.take(i as int),
        decreases bytes.len() - i,
    {
        copy.push(bytes[i]);
        assert(bytes@.take(i + 1) =~= bytes@.take(i as int).push(bytes@[i as int]));
        i += 1;
    }
    assert(bytes@.take(bytes@.len() as int) =~= bytes@);
    copy
}

/// A copy of a list of headers.
pub fn copy_headers(headers: &Vec<Header>) -> (r: Vec<Header>)
    ensures
        headers_view(r@) == headers_view(headers@),
{
    let mut copy: Vec<Header> = Vec::new();
    let mut i: usize = 0;
    while i < headers.len()
        invariant
            i <= headers.len(),
            copy@.len() == i,
            forall|k: int| 0 <= k < i ==> copy@[k]@ == headers@[k]@,
        decreases headers.len() - i,
    {
        copy.push(headers[i].clone());
        i += 1;
    }
    assert(headers_view(copy@) =~= headers_view(headers@));
    copy
}

impl Clone for Header {
    fn clone(&self) -> (r: Self)
        ensures
            r@ == self@,
    {
        Header { name: self.name.clone(), value: copy_bytes(&self.value) }
    }
}

impl Clone for Request {
    fn clone(&self) -> (r: Self)
        ensures
            r@ == self@,
    {
        Request {
            method: self.method.clone(),
            uri: self.uri.clone(),
            headers: copy_headers(&self.headers),
            body: self.body.clone(),
        }
    }
}

impl Clone for Response {
    fn clone(&self) -> (r: Self)
        ensures
            r@ == self@,
    {
        Response {
            status: self.status,
            headers: copy_headers(&self.headers),
            body: self.body.clone(),
        }
    }
}

} // verus!
