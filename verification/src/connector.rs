//! The connector: the list of the cases, the choice of the case for a
//! request, and the check of the calls.

use crate::bindings::http::{
    header_name_text, is_header_value, method_text, parse_header_name, parse_header_value,
    parse_method, replace_path, uri_with_path,
};
use crate::bindings::httparse::{RequestHead, RequestHeadView};
use crate::bindings::utf8::text_of;
use crate::builder::Builder;
use crate::case::{Case, Checkpoint};
use crate::error::Error;
use crate::handler::returning::answer_of;
use crate::handler::with::report::{reason_set, Reason, Report, ReportView};
use crate::level::Level;
use crate::message::{headers_view, Header, HeaderView, Request, RequestView, Response};
use vstd::prelude::*;
use vstd::string::StringExecFns;
use vstd::utf8::{decode_utf8, valid_utf8};

verus! {

/// The cases of a connector and its diagnostic level.
///
/// The order of the cases is the order in which they were added, and it
/// decides which case takes a request.
pub struct InnerConnector {
    /// How much the connector tells about what it sees
    pub level: Level,
    /// The cases, in the order in which they were added
    pub cases: Vec<Case>,
}

/// Mock connector: the cases that a test expects, ready to take requests.
pub struct Connector {
    pub inner: InnerConnector,
}

impl Connector {
    /// Create a new [`Builder`]
    pub fn builder() -> (r: Builder)
        ensures
            r.inner.level == Level::Missing,
            r.inner.cases@.len() == 0,
    {
        Builder::default()
    }

    /// Check if all the mock cases were called the right amount of time
    ///
    /// If not, this will return an error with all the mock cases that failed.
    pub fn checkpoint(&self) -> (r: Result<(), Error>)
        ensures
            check_result(r) == Some(checked(self.inner.cases@)),
    {
        self.inner.checkpoint()
    }

    /// The connector of the given cases and level.
    pub fn from_inner(inner: InnerConnector) -> (r: Self)
        ensures
            r.inner == inner,
    {
        Self { inner }
    }
}

/// The checks that fail, in the order of the cases: one for each case that
/// expects a number of calls and has seen another.
pub open spec fn failures(cases: Seq<Case>) -> Seq<Checkpoint>
    decreases cases.len(),
{
    if cases.len() == 0 {
        Seq::empty()
    } else {
        let rest = failures(cases.drop_last());
        match cases.last().failure() {
            Some(checkpoint) => rest.push(checkpoint),
            None => rest,
        }
    }
}

/// What the check of all cases gives: nothing where every expectation is
/// met, else all the checks that fail.
pub open spec fn checked(cases: Seq<Case>) -> Result<(), Seq<Checkpoint>> {
    if failures(cases).len() == 0 {
        Ok(())
    } else {
        Err(failures(cases))
    }
}

/// What a result of `checkpoint` stands for.
pub open spec fn check_result(result: Result<(), Error>) -> Option<Result<(), Seq<Checkpoint>>> {
    match result {
        Ok(()) => Some(Ok(())),
        Err(Error::Checkpoint(list)) => Some(Err(list@)),
        Err(_) => None,
    }
}

/// Whether a matcher's outcome is a mismatch.
pub open spec fn is_mismatch(outcome: Option<ReportView>) -> bool {
    outcome matches Some(ReportView::Mismatch(_))
}

/// Whether none of the first `upto` cases takes the request or fails on it.
pub open spec fn all_mismatch(cases: Seq<Case>, req: RequestView, upto: int) -> bool {
    forall|j: int| 0 <= j < upto ==> is_mismatch((#[trigger] cases[j]).with.outcome(req))
}

/// Whether the case `i` is the one that takes the request: it is the first
/// case that matches, and no case before it fails.
pub open spec fn takes(cases: Seq<Case>, req: RequestView, i: int) -> bool {
    &&& 0 <= i < cases.len()
    &&& cases[i].with.outcome(req) == Some(ReportView::Match)
    &&& all_mismatch(cases, req, i)
}

/// Whether the matcher of the case `i` fails on the request, and no case
/// before it takes the request or fails.
pub open spec fn fails_at(cases: Seq<Case>, req: RequestView, i: int) -> bool {
    &&& 0 <= i < cases.len()
    &&& cases[i].with.outcome(req) is None
    &&& all_mismatch(cases, req, i)
}

/// The number of calls seen after one more call.
pub open spec fn one_more(seen: usize) -> usize {
    if seen < usize::MAX {
        (seen + 1) as usize
    } else {
        0
    }
}

/// Whether `after` is `before` with one more call seen of the case `i`, and
/// nothing else changed.
pub open spec fn counted(before: InnerConnector, after: InnerConnector, i: int) -> bool {
    &&& after.level == before.level
    &&& after.cases@.len() == before.cases@.len()
    &&& forall|j: int|
        0 <= j < before.cases@.len() && j != i ==> #[trigger] after.cases@[j] == before.cases@[j]
    &&& 0 <= i < before.cases@.len()
    &&& after.cases@[i].with == before.cases@[i].with
    &&& after.cases@[i].returning == before.cases@[i].returning
    &&& after.cases@[i].count == before.cases@[i].count
    &&& after.cases@[i].seen == one_more(before.cases@[i].seen)
}

/// Whether `err` is the failure for a request that no case matches: the
/// request, and the reasons of every case where the level `level` asks for
/// them.
pub open spec fn is_not_found(
    err: Error,
    cases: Seq<Case>,
    req: RequestView,
    level: Level,
) -> bool {
    &&& err matches Error::NotFound { request, reports }
    &&& request@ == req
    &&& reports is Some <==> level.rank() >= Level::Missing.rank()
    &&& reports matches Some(list) ==> explains(list@, cases, req)
}

/// Whether `reports` holds, for each case in turn, the reasons for which it
/// does not match the request.
pub open spec fn explains(reports: Seq<Vec<Reason>>, cases: Seq<Case>, req: RequestView) -> bool {
    &&& reports.len() == cases.len()
    &&& forall|j: int|
        0 <= j < cases.len() ==> (#[trigger] cases[j]).with.outcome(req) == Some(
            ReportView::Mismatch(reason_set(reports[j]@)),
        )
}

impl Default for InnerConnector {
    fn default() -> (r: Self)
        ensures
            r.level == Level::Missing,
            r.cases@.len() == 0,
    {
        InnerConnector { level: Level::Missing, cases: Vec::new() }
    }
}

impl InnerConnector {
    /// Check if all the mock cases were called the right amount of time
    ///
    /// If not, this will return an error with all the mock cases that failed.
    pub fn checkpoint(&self) -> (r: Result<(), Error>)
        ensures
            check_result(r) == Some(checked(self.cases@)),
    {
        let mut checkpoints: Vec<Checkpoint> = Vec::new();
        let mut i: usize = 0;
        assert(self.cases@.take(0) =~= Seq::empty());
        while i < self.cases.len()
            invariant
                i <= self.cases.len(),
                checkpoints@ == failures(self.cases@.take(i as int)),
            decreases self.cases.len() - i,
        {
            assert(self.cases@.take(i + 1).drop_last() =~= self.cases@.take(i as int));
            match self.cases[i].checkpoint() {
                Some(checkpoint) => {
                    checkpoints.push(checkpoint);
                },
                None => {},
            }
            i += 1;
        }
        assert(self.cases@.take(self.cases@.len() as int) =~= self.cases@);
        if checkpoints.len() == 0 {
            Ok(())
        } else {
            Err(Error::Checkpoint(checkpoints))
        }
    }
}

impl InnerConnector {
    /// Picks the case for a request and counts the call.
    ///
    /// The cases are asked in their order. The first one that matches takes
    /// the request, whatever the cases after it would say: its index is
    /// returned, and it has seen one more call. A matcher that fails ends the
    /// search with its error, which is not `NotFound`. Where no case matches,
    /// and there only, the error is `NotFound` with the request, and with the
    /// reasons of every case where the level asks for them. No failure
    /// changes a count.
    pub fn select(&mut self, req: &Request) -> (r: Result<usize, Error>)
        ensures
            match r {
                Ok(i) => takes(old(self).cases@, req@, i as int) && counted(
                    *old(self),
                    *final(self),
                    i as int,
                ),
                Err(err) => {
                    &&& *final(self) == *old(self)
                    &&& forall|i: int| !takes(old(self).cases@, req@, i)
                    &&& all_mismatch(old(self).cases@, req@, old(self).cases@.len() as int)
                        ==> is_not_found(err, old(self).cases@, req@, old(self).level)
                    &&& !all_mismatch(old(self).cases@, req@, old(self).cases@.len() as int)
                        ==> !(err is NotFound) && exists|i: int|
                        fails_at(old(self).cases@, req@, i)
                },
            },
    {
        let mut reports: Vec<Vec<Reason>> = Vec::new();
        let mut i: usize = 0;
        while i < self.cases.len()
            invariant
                *self == *old(self),
                i <= self.cases.len(),
                reports@.len() == i,
                forall|j: int|
                    0 <= j < i ==> (#[trigger] self.cases@[j]).with.outcome(req@) == Some(
                        ReportView::Mismatch(reason_set(reports@[j]@)),
                    ),
            decreases self.cases.len() - i,
        {
            match self.cases[i].with.with(req) {
                Err(err) => {
                    assert(fails_at(self.cases@, req@, i as int));
                    assert forall|k: int| !takes(self.cases@, req@, k) by {
                        if takes(self.cases@, req@, k) {
                            if k > i {
                                assert(is_mismatch(self.cases@[i as int].with.outcome(req@)));
                            }
                        }
                    }
                    assert(!is_mismatch(self.cases@[i as int].with.outcome(req@)));
                    return Err(err);
                },
                Ok(Report::Match) => {
                    let seen = self.cases[i].seen;
                    self.cases[i].seen = if seen < usize::MAX {
                        seen + 1
                    } else {
                        0
                    };
                    return Ok(i);
                },
                Ok(Report::Mismatch(reasons)) => {
                    reports.push(reasons);
                },
            }
            i += 1;
        }
        assert forall|k: int| !takes(self.cases@, req@, k) by {
            if takes(self.cases@, req@, k) {
                assert(is_mismatch(self.cases@[k].with.outcome(req@)));
            }
        }
        let reports = if self.level.reports_missing() {
            Some(reports)
        } else {
            None
        };
        Err(Error::NotFound { request: req.clone(), reports })
    }
}

impl InnerConnector {
    /// Answers the request that a head and a body stand for on a connection
    /// to `uri`.
    ///
    /// `body` is the body as the matchers are to see it. The request is put
    /// together, the first case that matches it takes it and has seen one
    /// more call, and the responder of that case gives the answer. The call
    /// is counted before the responder is asked, and stays counted where the
    /// responder fails. The result is `NotFound` only where no case matches:
    /// then no call is counted.
    pub fn matches(&mut self, head: &RequestHead, body: &[u8], uri: &str) -> (r: Result<
        Response,
        Error,
    >)
        ensures
            r matches Err(Error::NotFound { .. }) ==> *final(self) == *old(self),
            request_of(head@, body@, uri@) is None ==> (r matches Err(Error::Runtime(_)))
                && *final(self) == *old(self),
            forall|req: RequestView, i: int|
                request_of(head@, body@, uri@) == Some(req) && #[trigger] takes(
                    old(self).cases@,
                    req,
                    i,
                ) ==> {
                    &&& counted(*old(self), *final(self), i)
                    &&& old(self).cases@[i].returning.answers(req, answer_of(r))
                    &&& r matches Err(err) ==> !(err is NotFound)
                },
            forall|req: RequestView|
                request_of(head@, body@, uri@) == Some(req) && (forall|i: int|
                    !takes(old(self).cases@, req, i)) ==> {
                    &&& r is Err
                    &&& *final(self) == *old(self)
                    &&& #[trigger] all_mismatch(
                        old(self).cases@,
                        req,
                        old(self).cases@.len() as int,
                    ) ==> (r matches Err(err) && is_not_found(
                        err,
                        old(self).cases@,
                        req,
                        old(self).level,
                    ))
                    &&& !all_mismatch(old(self).cases@, req, old(self).cases@.len() as int)
                        ==> (r matches Err(err) && !(err is NotFound)) && exists|i: int|
                        fails_at(old(self).cases@, req, i)
                },
    {
        let req = match into_request(head, body, uri) {
            Ok(req) => req,
            Err(err) => {
                return Err(err);
            },
        };
        let index = match self.select(&req) {
            Ok(index) => index,
            Err(err) => {
                return Err(err);
            },
        };
        proof {
            assert forall|i: int| #[trigger] takes(old(self).cases@, req@, i) implies i
                == index by {
                first_match_wins(old(self).cases@, req@, i, index as int);
                first_match_wins(old(self).cases@, req@, index as int, i);
            }
        }
        self.cases[index].returning.returning(req)
    }
}

/// The first case that matches takes the request: no case that matches
/// stands before the one that takes it, however much more it asks of the
/// request.
pub proof fn first_match_wins(cases: Seq<Case>, req: RequestView, taker: int, other: int)
    requires
        takes(cases, req, taker),
        0 <= other < cases.len(),
        cases[other].with.outcome(req) == Some(ReportView::Match),
    ensures
        taker <= other,
{
    if other < taker {
        assert(is_mismatch(cases[other].with.outcome(req)));
    }
}

/// A dispatch that ends in `NotFound` has counted no call: a case that takes
/// the request and one that fails on it both rule that error out.
pub proof fn not_found_means_all_mismatch(cases: Seq<Case>, req: RequestView, i: int)
    requires
        all_mismatch(cases, req, cases.len() as int),
        0 <= i < cases.len(),
    ensures
        !takes(cases, req, i),
        !fails_at(cases, req, i),
{
    assert(is_mismatch(cases[i].with.outcome(req)));
}

/// A call is counted once, for the case that takes it: that case has seen
/// one more call, unless the count was at its limit, and every other case
/// has seen what it had seen.
pub proof fn one_call_counts_once(before: InnerConnector, after: InnerConnector, taker: int)
    requires
        counted(before, after, taker),
    ensures
        before.cases@[taker].seen < usize::MAX ==> after.cases@[taker].seen
            == before.cases@[taker].seen + 1,
        forall|j: int|
            0 <= j < before.cases@.len() && j != taker ==> (#[trigger] after.cases@[j]).seen
                == before.cases@[j].seen,
        forall|j: int|
            0 <= j < before.cases@.len() ==> (#[trigger] after.cases@[j]).count
                == before.cases@[j].count,
{
}

/// The headers of a request as the matchers see them: those without a name
/// are left out, and each name is put in its normal form. `None` where a
/// name is no header name or a value no header value.
pub open spec fn named_headers(headers: Seq<HeaderView>) -> Option<Seq<HeaderView>>
    decreases headers.len(),
{
    if headers.len() == 0 {
        Some(Seq::empty())
    } else {
        let header = headers.last();
        match named_headers(headers.drop_last()) {
            None => None,
            Some(rest) => if header.name.len() == 0 {
                Some(rest)
            } else {
                match header_name_text(header.name) {
                    Some(name) => if is_header_value(header.value) {
                        Some(rest.push(HeaderView { name, value: header.value }))
                    } else {
                        None
                    },
                    None => None,
                }
            },
        }
    }
}

/// The request that a head and a body stand for on a connection to `uri`.
///
/// The URI is `uri` with the path and query of the request line in place of
/// its own, the method is that of the request line, or `GET` where it has
/// none, and the body is the text that the bytes encode. `None` where the
/// body is no text, or a part of the head is not what it has to be.
pub open spec fn request_of(head: RequestHeadView, body: Seq<u8>, uri: Seq<char>) -> Option<
    RequestView,
> {
    let target = match head.path {
        Some(path) => uri_with_path(uri, path),
        None => Some(uri),
    };
    let method = match head.method {
        Some(method) => method_text(method),
        None => Some("GET"@),
    };
    if !valid_utf8(body) {
        None
    } else {
        match (target, method, named_headers(head.headers)) {
            (Some(uri), Some(method), Some(headers)) => Some(
                RequestView { method, uri, headers, body: decode_utf8(body) },
            ),
            _ => None,
        }
    }
}

/// Puts the request together that a head and a body stand for on a
/// connection to `uri`.
pub fn into_request(head: &RequestHead, body: &[u8], uri: &str) -> (r: Result<Request, Error>)
    ensures
        match r {
            Ok(req) => request_of(head@, body@, uri@) == Some(req@),
            Err(err) => request_of(head@, body@, uri@) is None && err is Runtime,
        },
{
    let body = match text_of(body) {
        Some(text) => text,
        None => {
            return Err(Error::Runtime(String::from_str("the body of the request is no text")));
        },
    };
    let uri = match &head.path {
        Some(path) => match replace_path(uri, path.as_str()) {
            Ok(uri) => uri,
            Err(message) => {
                return Err(Error::Runtime(message));
            },
        },
        None => String::from_str(uri),
    };
    let method = match &head.method {
        Some(method) => match parse_method(method.as_str()) {
            Ok(method) => method,
            Err(message) => {
                return Err(Error::Runtime(message));
            },
        },
        None => String::from_str("GET"),
    };
    let mut headers: Vec<Header> = Vec::new();
    let mut i: usize = 0;
    assert(head@.headers.take(0) =~= Seq::empty());
    assert(headers_view(headers@) =~= Seq::empty());
    while i < head.headers.len()
        invariant
            i <= head.headers.len(),
            named_headers(head@.headers.take(i as int)) == Some(headers_view(headers@)),
        decreases head.headers.len() - i,
    {
        assert(head@.headers.take(i + 1).drop_last() =~= head@.headers.take(i as int));
        assert(head@.headers.take(i + 1).last() == head.headers@[i as int]@);
        let header = &head.headers[i];
        if !header.name.as_str().is_empty() {
            let name = match parse_header_name(header.name.as_str()) {
                Ok(name) => name,
                Err(message) => {
                    proof {
                        named_headers_fail(head@.headers, i + 1);
                    }
                    return Err(Error::Runtime(message));
                },
            };
            let value = match parse_header_value(header.value.as_slice()) {
                Ok(value) => value,
                Err(message) => {
                    proof {
                        named_headers_fail(head@.headers, i + 1);
                    }
                    return Err(Error::Runtime(message));
                },
            };
            let ghost before = headers_view(headers@);
            headers.push(Header { name, value });
            assert(headers_view(headers@) =~= before.push(
                HeaderView { name: name@, value: value@ },
            ));
        }
        i += 1;
    }
    assert(head@.headers.take(head@.headers.len() as int) =~= head@.headers);
    Ok(Request { method, uri, headers, body })
}

/// Headers that cannot be put in order up to some place cannot be put in
/// order as a whole.
proof fn named_headers_fail(headers: Seq<HeaderView>, upto: int)
    requires
        0 <= upto <= headers.len(),
        named_headers(headers.take(upto)) is None,
    ensures
        named_headers(headers) is None,
    decreases headers.len() - upto,
{
    if upto < headers.len() {
        assert(headers.take(upto + 1).drop_last() =~= headers.take(upto));
        named_headers_fail(headers, upto + 1);
    } else {
        assert(headers.take(upto) =~= headers);
    }
}

/// The check goes by the numbers alone: two lists of cases that expect the
/// same numbers of calls and have seen the same numbers get the same result.
/// So does one connector that is asked twice with no call in between.
pub proof fn checkpoint_depends_on_counts(a: Seq<Case>, b: Seq<Case>)
    requires
        a.len() == b.len(),
        forall|i: int|
            0 <= i < a.len() ==> (#[trigger] a[i]).count == b[i].count && a[i].seen == b[i].seen,
    ensures
        checked(a) == checked(b),
    decreases a.len(),
{
    assert(failures(a) == failures(b)) by {
        failures_depend_on_counts(a, b);
    }
}

proof fn failures_depend_on_counts(a: Seq<Case>, b: Seq<Case>)
    requires
        a.len() == b.len(),
        forall|i: int|
            0 <= i < a.len() ==> (#[trigger] a[i]).count == b[i].count && a[i].seen == b[i].seen,
    ensures
        failures(a) == failures(b),
    decreases a.len(),
{
    if a.len() > 0 {
        failures_depend_on_counts(a.drop_last(), b.drop_last());
        assert(a.last().count == b.last().count && a.last().seen == b.last().seen);
    }
}

} // verus!
