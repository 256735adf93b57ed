//! The stream that stands for a connection: it takes the bytes of a request
//! and gives the bytes of the response.

use crate::bindings::httparse::{parse_request, parsed_request, Parsed, RequestHeadView};
use crate::chunked::{dechunk, dechunked, has_chunked, is_chunked, Chunked, ChunkedView};
use crate::connector::{
    all_mismatch, counted, fails_at, first_match_wins, into_request, is_not_found, request_of,
    takes, InnerConnector,
};
use crate::error::Error;
use crate::handler::{DefaultErrorHandler, DefaultHandler};
use crate::message::{HeaderView, Request, RequestView, Response, ResponseView};
use crate::text::{decimal, push_decimal};
use vstd::prelude::*;
use vstd::string::{StringExecFns, StringSliceAdditionalSpecFns};
use vstd::utf8::encode_utf8;

verus! {

/// How many headers a request may have.
pub const MAX_HEADERS: usize = 64;

/// Whether a byte is a visible character of ASCII, a space or a tab.
pub open spec fn is_text_byte(byte: u8) -> bool {
    (32 <= byte < 127) || byte == 9
}

/// Whether all of `bytes` are visible characters of ASCII, spaces or tabs.
pub open spec fn is_text(bytes: Seq<u8>) -> bool {
    forall|i: int| 0 <= i < bytes.len() ==> is_text_byte(#[trigger] bytes[i])
}

/// Whether the value of every header is text.
pub open spec fn all_text(headers: Seq<HeaderView>) -> bool {
    forall|i: int| 0 <= i < headers.len() ==> is_text((#[trigger] headers[i]).value)
}

/// The status line of a response: the version, the status, and the status
/// once more where its reason would stand.
pub open spec fn status_line(status: u16) -> Seq<u8> {
    encode_utf8(
        "HTTP/1.1 "@ + decimal(status as nat) + " "@ + decimal(status as nat) + "\r\n"@,
    )
}

/// The line of one header: its name, a colon and a space, its value, and the
/// end of the line.
pub open spec fn header_line(header: HeaderView) -> Seq<u8> {
    encode_utf8(header.name) + encode_utf8(": "@) + header.value + encode_utf8("\r\n"@)
}

/// The lines of the headers, in their order.
pub open spec fn header_lines(headers: Seq<HeaderView>) -> Seq<u8>
    decreases headers.len(),
{
    if headers.len() == 0 {
        Seq::empty()
    } else {
        header_lines(headers.drop_last()) + header_line(headers.last())
    }
}

/// The bytes of a response: the status line, the headers in their order, an
/// empty line, and the body.
pub open spec fn wire(response: ResponseView) -> Seq<u8> {
    status_line(response.status) + header_lines(response.headers) + encode_utf8("\r\n"@)
        + encode_utf8(response.body)
}

/// The response to bytes that are no request is a whole response: a status
/// line with the status 500, and the empty line that ends the head. A read
/// that follows finds these bytes and does not have to wait.
pub proof fn error_response_is_whole()
    ensures
        all_text(DefaultErrorHandler.response().headers),
        wire(DefaultErrorHandler.response()) == status_line(500) + encode_utf8("\r\n"@),
        wire(DefaultErrorHandler.response()).len() > 0,
{
    let response = DefaultErrorHandler.response();
    assert(header_lines(response.headers) =~= Seq::empty());
    assert(encode_utf8(response.body) =~= Seq::empty());
    assert(wire(response) =~= status_line(500) + encode_utf8("\r\n"@));
    reveal_strlit("\r\n");
    assert("\r\n"@.len() == 2);
    assert(encode_utf8("\r\n"@).len() > 0);
}

/// Appends `bytes` to `data`.
pub fn push_bytes(data: &mut Vec<u8>, bytes: &[u8])
    ensures
        final(data)@ == old(data)@ + bytes@,
{
    let mut i: usize = 0;
    while i < bytes.len()
        invariant
            i <= bytes.len(),
            data@ == old(data)@ + bytes@.take(i as int),
        decreases bytes.len() - i,
    {
        data.push(bytes[i]);
        assert(bytes@.take(i + 1) =~= bytes@.take(i as int).push(bytes@[i as int]));
        assert(data@ =~= old(data)@ + bytes@.take(i + 1));
        i += 1;
    }
    assert(bytes@.take(bytes@.len() as int) =~= bytes@);
}

/// Whether all of `bytes` are visible characters of ASCII, spaces or tabs.
pub fn check_text(bytes: &Vec<u8>) -> (r: bool)
    ensures
        r == is_text(bytes@),
{
    let mut i: usize = 0;
    while i < bytes.len()
        invariant
            i <= bytes.len(),
            forall|k: int| 0 <= k < i ==> is_text_byte(#[trigger] bytes@[k]),
        decreases bytes.len() - i,
    {
        let byte = bytes[i];
        if !((32 <= byte && byte < 127) || byte == 9) {
            return false;
        }
        i += 1;
    }
    true
}

/// Writes a response out in bytes.
///
/// Fails where the value of a header is not text.
pub fn into_data(res: &Response) -> (r: Result<Vec<u8>, Error>)
    ensures
        match r {
            Ok(data) => all_text(res@.headers) && data@ == wire(res@),
            Err(err) => !all_text(res@.headers) && err is Runtime,
        },
{
    let mut line = String::from_str("HTTP/1.1 ");
    push_decimal(&mut line, res.status as usize);
    line.append(" ");
    push_decimal(&mut line, res.status as usize);
    line.append("\r\n");
    let mut data: Vec<u8> = Vec::new();
    push_bytes(&mut data, line.as_str().as_bytes());
    assert(data@ =~= status_line(res.status));

    let mut i: usize = 0;
    assert(res@.headers.take(0) =~= Seq::empty());
    assert(data@ =~= status_line(res.status) + header_lines(res@.headers.take(0)));
    while i < res.headers.len()
        invariant
            i <= res.headers.len(),
            all_text(res@.headers.take(i as int)),
            data@ == status_line(res.status) + header_lines(res@.headers.take(i as int)),
        decreases res.headers.len() - i,
    {
        let header = &res.headers[i];
        if !check_text(&header.value) {
            assert(!is_text(res@.headers[i as int].value));
            return Err(Error::Runtime(String::from_str("the value of a header is no text")));
        }
        let ghost before = data@;
        push_bytes(&mut data, header.name.as_str().as_bytes());
        push_bytes(&mut data, ": ".as_bytes());
        push_bytes(&mut data, header.value.as_slice());
        push_bytes(&mut data, "\r\n".as_bytes());
        proof {
            let next = res@.headers.take(i + 1);
            assert(next.drop_last() =~= res@.headers.take(i as int));
            assert(next.last() == header@);
            assert(data@ =~= before + header_line(header@));
            assert(data@ =~= status_line(res.status) + header_lines(next));
            assert forall|k: int| 0 <= k < next.len() implies is_text(
                (#[trigger] next[k]).value,
            ) by {
                if k < i {
                    assert(res@.headers.take(i as int)[k] == next[k]);
                }
            }
        }
        i += 1;
    }
    assert(res@.headers.take(res@.headers.len() as int) =~= res@.headers);
    push_bytes(&mut data, "\r\n".as_bytes());
    push_bytes(&mut data, res.body.as_str().as_bytes());
    assert(data@ =~= wire(res@));
    Ok(data)
}

/// The bytes of a response, and how many of them have been read.
struct Buffer {
    data: Vec<u8>,
    pos: usize,
}

impl Buffer {
    #[verifier::type_invariant]
    spec fn cursor_within(self) -> bool {
        self.pos <= self.data@.len()
    }

    closed spec fn bytes(self) -> Seq<u8> {
        self.data@
    }

    closed spec fn cursor(self) -> int {
        self.pos as int
    }

    fn new(data: Vec<u8>) -> (r: Self)
        ensures
            r.bytes() == data@,
            r.cursor() == 0,
    {
        Buffer { data, pos: 0 }
    }

    /// Copies out the next bytes, `capacity` at most, and moves on by as
    /// many.
    fn take(&mut self, capacity: usize) -> (r: Vec<u8>)
        ensures
            final(self).bytes() == old(self).bytes(),
            0 <= old(self).cursor() <= old(self).bytes().len(),
            r@.len() == if capacity <= old(self).bytes().len() - old(self).cursor() {
                capacity as int
            } else {
                old(self).bytes().len() - old(self).cursor()
            },
            r@ == old(self).bytes().subrange(old(self).cursor(), old(self).cursor() + r@.len()),
            final(self).cursor() == old(self).cursor() + r@.len(),
    {
        proof {
            use_type_invariant(&*self);
        }
        let left = self.data.len() - self.pos;
        let size = if capacity <= left {
            capacity
        } else {
            left
        };
        let mut bytes: Vec<u8> = Vec::new();
        let mut i: usize = 0;
        while i < size
            invariant
                i <= size,
                self.pos + size <= self.data.len(),
                bytes@ == self.data@.subrange(self.pos as int, self.pos + i),
            decreases size - i,
        {
            bytes.push(self.data[self.pos + i]);
            assert(self.data@.subrange(self.pos as int, self.pos + i + 1)
                =~= self.data@.subrange(self.pos as int, self.pos + i).push(
                self.data@[self.pos + i],
            ));
            i += 1;
        }
        self.pos = self.pos + size;
        bytes
    }
}

/// Where a stream stands between the request and the response.
enum ResponseState {
    /// No request has been read to its end.
    New,
    /// A case has taken the request, and its response is awaited.
    Fut,
    /// The response, and how far it has been read.
    Data(Buffer),
    /// The response has failed.
    Failed,
}

/// What the state of a stream stands for.
pub enum State {
    /// The stream waits for the request.
    AwaitingRequest,
    /// A case has taken the request, and its response is awaited.
    ResponsePending,
    /// The response is there: its bytes, and how many of them have been
    /// read.
    ResponseBuffered(Seq<u8>, int),
    /// The response has failed: every read fails.
    ResponseFailed,
}

/// What the bytes written to a stream stand for, taken together.
pub enum Arrival {
    /// The head of the request, or its body in chunks, is not complete yet.
    Partial,
    /// The bytes are no request, or the chunks of its body are no chunks.
    Malformed,
    /// The request is complete: the request as the matchers see it, or
    /// `None` where it cannot be put together.
    Request(Option<RequestView>),
}

/// The body of a request out of the bytes behind its head: where a header
/// says that the body comes in chunks, what the chunks carry, put together;
/// else the bytes as they are.
pub open spec fn body_of(head: RequestHeadView, raw: Seq<u8>) -> ChunkedView {
    if is_chunked(head.headers) {
        dechunked(raw)
    } else {
        ChunkedView::Complete(raw)
    }
}

/// What a write has led to.
#[derive(Debug)]
pub enum Written {
    /// The head of the request is not complete yet.
    Partial,
    /// The request is complete and the case with the given index has taken
    /// it: that case owes the response.
    Dispatched(usize, Request),
    /// The bytes are no request: an error response is there to be read. The
    /// text says what is wrong with them.
    Malformed(String),
}

/// What a read has given.
#[derive(Debug, PartialEq, Eq)]
pub enum Read {
    /// Nothing can be read yet: the reader has to wait until it is woken.
    Pending,
    /// The next bytes of the response; none where all have been read or none
    /// were asked for.
    Ready(Vec<u8>),
    /// The response has failed: the read fails.
    Failed,
}

/// The stream that a client writes its request to and reads the response
/// from.
pub struct MockStream {
    res: ResponseState,
    req_data: Vec<u8>,
    uri: String,
    waiting: bool,
}

impl MockStream {
    /// Where the stream stands.
    pub closed spec fn state(self) -> State {
        match self.res {
            ResponseState::New => State::AwaitingRequest,
            ResponseState::Fut => State::ResponsePending,
            ResponseState::Data(buffer) => State::ResponseBuffered(
                buffer.bytes(),
                buffer.cursor(),
            ),
            ResponseState::Failed => State::ResponseFailed,
        }
    }

    /// Whether a reader has been told to wait and has not been woken since.
    pub closed spec fn parked(self) -> bool {
        self.waiting
    }

    /// All the bytes written so far.
    pub closed spec fn received(self) -> Seq<u8> {
        self.req_data@
    }

    /// The URI that the connection is for.
    pub closed spec fn target(self) -> Seq<char> {
        self.uri@
    }

    /// What the bytes written so far and the bytes `buf` stand for, taken
    /// together.
    pub open spec fn incoming(self, buf: Seq<u8>) -> Arrival {
        let bytes = self.received() + buf;
        match parsed_request(bytes, MAX_HEADERS as nat) {
            Parsed::Partial => Arrival::Partial,
            Parsed::Malformed => Arrival::Malformed,
            Parsed::Complete(head, offset) => match body_of(head, bytes.skip(offset)) {
                ChunkedView::Incomplete => Arrival::Partial,
                ChunkedView::Malformed => Arrival::Malformed,
                ChunkedView::Complete(body) => Arrival::Request(
                    request_of(head, body, self.target()),
                ),
            },
        }
    }

    /// A stream for a connection to `uri`, without a byte written.
    pub fn new(uri: String) -> (r: Self)
        ensures
            r.state() == State::AwaitingRequest,
            r.received() == Seq::<u8>::empty(),
            r.target() == uri@,
            !r.parked(),
    {
        MockStream { res: ResponseState::New, req_data: Vec::new(), uri, waiting: false }
    }

    /// Takes the next bytes of the request.
    ///
    /// The bytes are added to those written before, and the whole is read as
    /// a request. While its head is not complete nothing else happens. Once
    /// it is, the bytes behind it are the body. A body that comes in chunks
    /// is put together first, and nothing else happens until its last chunk
    /// is there. Then the connector picks the case, and the stream awaits
    /// the response. Where no case takes the request, or the request cannot
    /// be put together, the write fails and the stream stays as it was; the
    /// failure is `NotFound` only where no case matches. Bytes that are no
    /// request are answered with the response of [`DefaultErrorHandler`],
    /// which is then there to be read.
    pub fn poll_write(&mut self, connector: &mut InnerConnector, buf: &[u8]) -> (r: Result<
        Written,
        Error,
    >)
        ensures
            final(self).received() == old(self).received() + buf@,
            final(self).target() == old(self).target(),
            final(self).parked() == old(self).parked(),
            r is Err ==> final(self).state() == old(self).state() && *final(connector) == *old(
                connector,
            ),
            old(self).incoming(buf@) is Partial ==> {
                &&& r matches Ok(Written::Partial)
                &&& final(self).state() == old(self).state()
                &&& *final(connector) == *old(connector)
            },
            old(self).incoming(buf@) is Malformed ==> {
                &&& r matches Ok(Written::Malformed(_))
                &&& final(self).state() == State::ResponseBuffered(
                    wire(DefaultErrorHandler.response()),
                    0,
                )
                &&& *final(connector) == *old(connector)
            },
            old(self).incoming(buf@) == Arrival::Request(None) ==> r matches Err(
                Error::Runtime(_),
            ),
            forall|req: RequestView, i: int|
                old(self).incoming(buf@) == Arrival::Request(Some(req)) && #[trigger] takes(
                    old(connector).cases@,
                    req,
                    i,
                ) ==> {
                    &&& r matches Ok(Written::Dispatched(index, request))
                    &&& index == i
                    &&& request@ == req
                    &&& counted(*old(connector), *final(connector), i)
                    &&& final(self).state() == State::ResponsePending
                },
            forall|req: RequestView|
                old(self).incoming(buf@) == Arrival::Request(Some(req)) && (forall|i: int|
                    !takes(old(connector).cases@, req, i)) ==> {
                    &&& r is Err
                    &&& #[trigger] all_mismatch(
                        old(connector).cases@,
                        req,
                        old(connector).cases@.len() as int,
                    ) ==> (r matches Err(err) && is_not_found(
                        err,
                        old(connector).cases@,
                        req,
                        old(connector).level,
                    ))
                    &&& !all_mismatch(
                        old(connector).cases@,
                        req,
                        old(connector).cases@.len() as int,
                    ) ==> (r matches Err(err) && !(err is NotFound)) && exists|i: int|
                        fails_at(old(connector).cases@, req, i)
                },
    {
        push_bytes(&mut self.req_data, buf);
        let parsed = parse_request(self.req_data.as_slice(), MAX_HEADERS);
        let (head, offset) = match parsed {
            Ok(Some(complete)) => complete,
            Ok(None) => {
                return Ok(Written::Partial);
            },
            Err(message) => {
                let response = DefaultErrorHandler.handle();
                let data = match into_data(&response) {
                    Ok(data) => data,
                    Err(_) => Vec::new(),
                };
                self.res = ResponseState::Data(Buffer::new(data));
                return Ok(Written::Malformed(message));
            },
        };
        let raw = tail(&self.req_data, offset);
        let body = if has_chunked(&head.headers) {
            match dechunk(&raw) {
                Chunked::Complete(body) => body,
                Chunked::Incomplete => {
                    return Ok(Written::Partial);
                },
                Chunked::Malformed => {
                    let response = DefaultErrorHandler.handle();
                    let data = match into_data(&response) {
                        Ok(data) => data,
                        Err(_) => Vec::new(),
                    };
                    self.res = ResponseState::Data(Buffer::new(data));
                    return Ok(
                        Written::Malformed(String::from_str("the body is no chunked body")),
                    );
                },
            }
        } else {
            raw
        };
        let req = match into_request(&head, body.as_slice(), self.uri.as_str()) {
            Ok(req) => req,
            Err(err) => {
                return Err(err);
            },
        };
        let index = match connector.select(&req) {
            Ok(index) => index,
            Err(err) => {
                return Err(err);
            },
        };
        proof {
            assert forall|i: int| #[trigger] takes(old(connector).cases@, req@, i) implies i
                == index by {
                first_match_wins(old(connector).cases@, req@, i, index as int);
                first_match_wins(old(connector).cases@, req@, index as int, i);
            }
        }
        self.res = ResponseState::Fut;
        Ok(Written::Dispatched(index, req))
    }

    /// Takes the response that the case has given, and holds its bytes
    /// ready to be read from the first one.
    ///
    /// Where the value of a header is not text the response cannot be
    /// written out: the call fails, and so does every read from then on.
    pub fn resolve(&mut self, response: &Response) -> (r: Result<(), Error>)
        ensures
            final(self).received() == old(self).received(),
            final(self).target() == old(self).target(),
            final(self).parked() == old(self).parked(),
            match r {
                Ok(()) => all_text(response@.headers) && final(self).state()
                    == State::ResponseBuffered(wire(response@), 0),
                Err(err) => !all_text(response@.headers) && err is Runtime && final(self).state()
                    == State::ResponseFailed,
            },
    {
        match into_data(response) {
            Ok(data) => {
                self.res = ResponseState::Data(Buffer::new(data));
                Ok(())
            },
            Err(err) => {
                self.res = ResponseState::Failed;
                Err(err)
            },
        }
    }

    /// Takes note that the response has failed: this read fails, and so does
    /// every read from then on. No read waits for a response that will not
    /// come.
    pub fn fail(&mut self) -> (r: Read)
        ensures
            r == Read::Failed,
            final(self).state() == State::ResponseFailed,
            !final(self).parked(),
            final(self).received() == old(self).received(),
            final(self).target() == old(self).target(),
    {
        self.res = ResponseState::Failed;
        self.waiting = false;
        Read::Failed
    }

    /// Gives the next bytes of the response, `capacity` at most.
    ///
    /// While there is no response the read is `Pending`: the reader has to
    /// wait, and the stream takes note that it does. Once the response is
    /// there, every read is `Ready` with the bytes that follow those read
    /// before. Once the response has failed, every read is `Failed`.
    pub fn poll_read(&mut self, capacity: usize) -> (r: Read)
        ensures
            final(self).received() == old(self).received(),
            final(self).target() == old(self).target(),
            final(self).parked() == (r is Pending),
            match old(self).state() {
                State::ResponseBuffered(data, pos) => {
                    let size = if capacity <= data.len() - pos {
                        capacity as int
                    } else {
                        data.len() - pos
                    };
                    &&& 0 <= pos <= data.len()
                    &&& r matches Read::Ready(bytes)
                    &&& bytes@ == data.subrange(pos, pos + size)
                    &&& final(self).state() == State::ResponseBuffered(data, pos + size)
                },
                State::ResponseFailed => r == Read::Failed && final(self).state() == old(
                    self,
                ).state(),
                _ => r == Read::Pending && final(self).state() == old(self).state(),
            },
    {
        match &mut self.res {
            ResponseState::Data(buffer) => {
                let bytes = buffer.take(capacity);
                self.waiting = false;
                Read::Ready(bytes)
            },
            ResponseState::Failed => {
                self.waiting = false;
                Read::Failed
            },
            _ => {
                self.waiting = true;
                Read::Pending
            },
        }
    }

    /// Says whether the reader has to be woken now, and takes note that it
    /// is.
    ///
    /// A reader that was told to wait has to be woken once the request is
    /// complete, so that it asks for the response. It is woken once: until
    /// it is told to wait again there is nobody to wake.
    pub fn wake(&mut self) -> (r: bool)
        ensures
            r == (old(self).parked() && !(old(self).state() is AwaitingRequest)),
            final(self).parked() == (old(self).parked() && !r),
            final(self).state() == old(self).state(),
            final(self).received() == old(self).received(),
            final(self).target() == old(self).target(),
    {
        let due = self.waiting && !matches!(self.res, ResponseState::New);
        if due {
            self.waiting = false;
        }
        due
    }
}

/// The bytes of `data` from the place `from` on.
pub fn tail(data: &Vec<u8>, from: usize) -> (r: Vec<u8>)
    requires
        from <= data.len(),
    ensures
        r@ == data@.skip(from as int),
{
    let mut bytes: Vec<u8> = Vec::new();
    let mut i: usize = from;
    while i < data.len()
        invariant
            from <= i <= data.len(),
            bytes@ == data@.subrange(from as int, i as int),
        decreases data.len() - i,
    {
        bytes.push(data[i]);
        assert(data@.subrange(from as int, i + 1) =~= data@.subrange(from as int, i as int).push(
            data@[i as int],
        ));
        i += 1;
    }
    assert(data@.subrange(from as int, data@.len() as int) =~= data@.skip(from as int));
    bytes
}

} // verus!
