//! The matcher made of conditions on the parts of a request.

use super::header::{check_headers, header_check_holds, HeaderCheck, HeaderCheckView};
use super::json::{contained, same, Json, JsonView};
use super::print::{conditions_print, WithPrint, WithPrintView};
use super::report::{
    distinct_reasons, note_reason, reason_set, Reason, ReasonView, Report, ReportView,
};
use super::{IntoWith, With};
use crate::bindings::http::{
    header_name_text, is_header_value, method_text, parse_header_name, parse_header_value,
    parse_method, parse_uri, uri_eq, uri_equal, uri_text,
};
use crate::bindings::json::{json_document, parse_json};
use crate::error::Error;
use crate::message::{HeaderView, Request, RequestView};
use std::sync::Arc;
use vstd::prelude::*;
use vstd::string::StringSliceAdditionalSpecFns;
use vstd::utf8::encode_utf8;

verus! {

/// What a case asks of the body of a request.
#[derive(Debug)]
pub enum Body {
    /// The body is this text.
    String(String),
    /// The body is JSON, and the same document as this one.
    Json(Json),
    /// The body is JSON, and holds all that this document holds.
    JsonPartial(Json),
}

/// What a [`Body`] stands for.
pub enum BodyView {
    String(Seq<char>),
    Json(JsonView),
    JsonPartial(JsonView),
}

impl View for Body {
    type V = BodyView;

    open spec fn view(&self) -> BodyView {
        match self {
            Body::String(text) => BodyView::String(text@),
            Body::Json(document) => BodyView::Json(document@),
            Body::JsonPartial(document) => BodyView::JsonPartial(document@),
        }
    }
}

/// A matcher made of conditions on the URI, the method, the headers and the
/// body of a request. It takes a request that meets them all.
#[derive(Debug)]
pub struct WithHandler {
    /// The URI that the request must be for
    pub uri: Option<String>,
    /// The method that the request must have
    pub method: Option<String>,
    /// The checks on headers, each with the name of the headers it is for
    pub headers: Vec<(String, HeaderCheck)>,
    /// The condition on the body
    pub body: Option<Body>,
}

/// What a [`WithHandler`] stands for.
pub struct Conditions {
    pub uri: Option<Seq<char>>,
    pub method: Option<Seq<char>>,
    pub headers: Seq<(Seq<char>, HeaderCheckView)>,
    pub body: Option<BodyView>,
}

impl View for WithHandler {
    type V = Conditions;

    open spec fn view(&self) -> Conditions {
        Conditions {
            uri: match self.uri {
                Some(uri) => Some(uri@),
                None => None,
            },
            method: match self.method {
                Some(method) => Some(method@),
                None => None,
            },
            headers: self.headers@.map_values(|check: (String, HeaderCheck)| (check.0@, check.1@)),
            body: match self.body {
                Some(body) => Some(body@),
                None => None,
            },
        }
    }
}

/// Whether a body fails the condition on it: `Some(true)` where it does,
/// `Some(false)` where it meets it or there is none, and `None` where the
/// condition asks for JSON and the body is none.
pub open spec fn body_mismatch(body: Option<BodyView>, text: Seq<char>) -> Option<bool> {
    match body {
        None => Some(false),
        Some(BodyView::String(expected)) => Some(expected != text),
        Some(BodyView::Json(expected)) => match json_document(text) {
            Some(actual) => Some(!same(expected, actual)),
            None => None,
        },
        Some(BodyView::JsonPartial(expected)) => match json_document(text) {
            Some(actual) => Some(!contained(expected, actual)),
            None => None,
        },
    }
}

/// The report for a set of reasons: a match where there is none.
pub open spec fn report_of(reasons: Set<ReasonView>) -> ReportView {
    if reasons =~= Set::empty() {
        ReportView::Match
    } else {
        ReportView::Mismatch(reasons)
    }
}

impl Conditions {
    /// No condition at all.
    pub open spec fn none() -> Conditions {
        Conditions { uri: None, method: None, headers: Seq::empty(), body: None }
    }

    /// Whether one of the first `upto` checks is for the headers called
    /// `name` and fails on `headers`.
    pub open spec fn header_mismatch(
        self,
        headers: Seq<HeaderView>,
        name: Seq<char>,
        upto: int,
    ) -> bool {
        exists|i: int|
            0 <= i < upto && i < self.headers.len() && (#[trigger] self.headers[i]).0 == name
                && !header_check_holds(headers, name, self.headers[i].1)
    }

    /// The reasons found once the method, the URI, the first `upto` header
    /// checks and the body have been looked at, as far as the flags say.
    pub open spec fn found(
        self,
        req: RequestView,
        method: bool,
        uri: bool,
        upto: int,
        body: bool,
    ) -> Set<ReasonView> {
        Set::new(
            |reason: ReasonView|
                match reason {
                    ReasonView::Method => method && (self.method matches Some(expected)
                        && expected != req.method),
                    ReasonView::Uri => uri && (self.uri matches Some(expected) && !uri_equal(
                        expected,
                        req.uri,
                    )),
                    ReasonView::Header(name) => self.header_mismatch(req.headers, name, upto),
                    ReasonView::Body => body && body_mismatch(self.body, req.body) == Some(true),
                },
        )
    }

    /// All the reasons for which the request does not meet the conditions:
    /// the method where it is not the expected one, the URI where it is not
    /// the expected one, each header name with a check that fails, and the
    /// body where it fails the condition on it.
    pub open spec fn mismatches(self, req: RequestView) -> Set<ReasonView> {
        self.found(req, true, true, self.headers.len() as int, true)
    }

    /// What the conditions make of a request. All of them are looked at, so
    /// that the report holds every reason. They fail only where the body has
    /// to be JSON and is none.
    pub open spec fn outcome(self, req: RequestView) -> Option<ReportView> {
        match body_mismatch(self.body, req.body) {
            None => None,
            Some(_) => Some(report_of(self.mismatches(req))),
        }
    }

    /// The conditions with `uri` as the URI to be met, or `None` where `uri`
    /// is no URI.
    pub open spec fn with_uri(self, uri: Seq<char>) -> Option<Conditions> {
        match uri_text(uri) {
            Some(text) => Some(Conditions { uri: Some(text), ..self }),
            None => None,
        }
    }

    /// The conditions with `method` as the method to be met, or `None` where
    /// `method` is no method.
    pub open spec fn with_method(self, method: Seq<char>) -> Option<Conditions> {
        match method_text(method) {
            Some(text) => Some(Conditions { method: Some(text), ..self }),
            None => None,
        }
    }

    /// The conditions with one more check on the headers called `key`, or
    /// `None` where `key` is no header name or the check holds what is no
    /// header value.
    pub open spec fn with_check(self, key: Seq<char>, check: HeaderCheckView) -> Option<
        Conditions,
    > {
        match header_name_text(key) {
            Some(name) => if check_is_valid(check) {
                Some(Conditions { headers: self.headers.push((name, check)), ..self })
            } else {
                None
            },
            None => None,
        }
    }

    /// The conditions with `body` as the condition on the body.
    pub open spec fn with_body(self, body: BodyView) -> Conditions {
        Conditions { body: Some(body), ..self }
    }
}

/// Whether every value that a check holds can be the value of a header.
pub open spec fn check_is_valid(check: HeaderCheckView) -> bool {
    match check {
        HeaderCheckView::AtLeastOnce(value) => is_header_value(value),
        HeaderCheckView::ExactlyOnce(value) => is_header_value(value),
        HeaderCheckView::All(values) => forall|i: int|
            0 <= i < values.len() ==> is_header_value(#[trigger] values[i]),
    }
}

/// The values that a list of texts stands for as header values.
pub open spec fn values_of_texts(values: Seq<String>) -> Seq<Seq<u8>> {
    values.map_values(|text: String| encode_utf8(text@))
}

/// What a step of building a matcher stands for: the new conditions, or
/// `None` for a failure.
pub open spec fn built(result: Result<WithHandler, Error>) -> Option<Conditions> {
    match result {
        Ok(with) => Some(with@),
        Err(_) => None,
    }
}

impl Default for WithHandler {
    fn default() -> (r: Self)
        ensures
            r@ == Conditions::none(),
    {
        let with = WithHandler { uri: None, method: None, headers: Vec::new(), body: None };
        assert(with@.headers =~= Seq::empty());
        with
    }
}

impl WithHandler {
    /// Asks that the request be for `uri`.
    ///
    /// Fails where `uri` is no URI.
    pub fn with_uri(self, uri: &str) -> (r: Result<Self, Error>)
        ensures
            built(r) == self@.with_uri(uri@),
            r matches Err(err) ==> err is Http,
    {
        match parse_uri(uri) {
            Ok(text) => Ok(
                WithHandler {
                    uri: Some(text),
                    method: self.method,
                    headers: self.headers,
                    body: self.body,
                },
            ),
            Err(message) => Err(Error::Http(message)),
        }
    }

    /// Asks that the request have the method `method`.
    ///
    /// Fails where `method` is no method.
    pub fn with_method(self, method: &str) -> (r: Result<Self, Error>)
        ensures
            built(r) == self@.with_method(method@),
            r matches Err(err) ==> err is Http,
    {
        match parse_method(method) {
            Ok(text) => Ok(
                WithHandler {
                    uri: self.uri,
                    method: Some(text),
                    headers: self.headers,
                    body: self.body,
                },
            ),
            Err(message) => Err(Error::Http(message)),
        }
    }

    /// Adds the check `check` on the headers called `name`.
    fn with_check(self, name: String, check: HeaderCheck) -> (r: Self)
        ensures
            r@ == (Conditions { headers: self@.headers.push((name@, check@)), ..self@ }),
    {
        let mut headers = self.headers;
        headers.push((name, check));
        let with = WithHandler { uri: self.uri, method: self.method, headers, body: self.body };
        assert(with@.headers =~= self@.headers.push((name@, check@)));
        with
    }

    /// Asks that one of the headers called `key` have the value `value`.
    ///
    /// Fails where `key` is no header name or `value` no header value.
    pub fn with_header(self, key: &str, value: &str) -> (r: Result<Self, Error>)
        ensures
            built(r) == self@.with_check(key@, HeaderCheckView::AtLeastOnce(encode_utf8(value@))),
            r matches Err(err) ==> err is Http,
    {
        let name = match parse_header_name(key) {
            Ok(name) => name,
            Err(message) => {
                return Err(Error::Http(message));
            },
        };
        match parse_header_value(value.as_bytes()) {
            Ok(bytes) => Ok(self.with_check(name, HeaderCheck::AtLeastOnce(bytes))),
            Err(message) => Err(Error::Http(message)),
        }
    }

    /// Asks that there be one header called `key` only, and that it have
    /// the value `value`.
    ///
    /// Fails where `key` is no header name or `value` no header value.
    pub fn with_header_once(self, key: &str, value: &str) -> (r: Result<Self, Error>)
        ensures
            built(r) == self@.with_check(key@, HeaderCheckView::ExactlyOnce(encode_utf8(value@))),
            r matches Err(err) ==> err is Http,
    {
        let name = match parse_header_name(key) {
            Ok(name) => name,
            Err(message) => {
                return Err(Error::Http(message));
            },
        };
        match parse_header_value(value.as_bytes()) {
            Ok(bytes) => Ok(self.with_check(name, HeaderCheck::ExactlyOnce(bytes))),
            Err(message) => Err(Error::Http(message)),
        }
    }

    /// Asks that the headers called `key` have the values `values`, each as
    /// often as it is given, in any order.
    ///
    /// Fails where `key` is no header name or one of `values` no header
    /// value.
    pub fn with_header_all(self, key: &str, values: &Vec<String>) -> (r: Result<Self, Error>)
        ensures
            built(r) == self@.with_check(key@, HeaderCheckView::All(values_of_texts(values@))),
            r matches Err(err) ==> err is Http,
    {
        let name = match parse_header_name(key) {
            Ok(name) => name,
            Err(message) => {
                return Err(Error::Http(message));
            },
        };
        let ghost texts = values_of_texts(values@);
        let mut checked: Vec<Vec<u8>> = Vec::new();
        let mut i: usize = 0;
        while i < values.len()
            invariant
                i <= values.len(),
                checked@.len() == i,
                texts == values_of_texts(values@),
                forall|k: int|
                    0 <= k < i ==> is_header_value(#[trigger] texts[k]) && checked@[k]@
                        == texts[k],
            decreases values.len() - i,
        {
            match parse_header_value(values[i].as_str().as_bytes()) {
                Ok(bytes) => {
                    checked.push(bytes);
                },
                Err(message) => {
                    assert(texts.len() == values@.len());
                    assert(!is_header_value(texts[i as int]));
                    assert(!check_is_valid(HeaderCheckView::All(texts))) by {
                        let check = HeaderCheckView::All(texts);
                        if check_is_valid(check) {
                            assert(is_header_value(check->All_0[i as int]));
                        }
                    }
                    return Err(Error::Http(message));
                },
            }
            i += 1;
        }
        let check = HeaderCheck::All(checked);
        assert(check@ =~= HeaderCheckView::All(texts)) by {
            assert(crate::bindings::itertools::byte_strings(checked@) =~= texts);
        }
        Ok(self.with_check(name, check))
    }

    /// Asks that the body be the text `body`.
    ///
    /// A case has one condition on the body at most: there must be none yet.
    pub fn with_body(self, body: &str) -> (r: Self)
        requires
            self.body is None,
        ensures
            r@ == self@.with_body(BodyView::String(body@)),
    {
        WithHandler {
            uri: self.uri,
            method: self.method,
            headers: self.headers,
            body: Some(Body::String(body.to_owned())),
        }
    }

    /// Asks that the body be JSON, and the same document as `value`.
    ///
    /// A case has one condition on the body at most: there must be none yet.
    pub fn with_json(self, value: Json) -> (r: Result<Self, Error>)
        requires
            self.body is None,
        ensures
            built(r) == Some(self@.with_body(BodyView::Json(value@))),
    {
        Ok(
            WithHandler {
                uri: self.uri,
                method: self.method,
                headers: self.headers,
                body: Some(Body::Json(value)),
            },
        )
    }

    /// Asks that the body be JSON, and hold all that `value` holds.
    ///
    /// A case has one condition on the body at most: there must be none yet.
    pub fn with_json_partial(self, value: Json) -> (r: Result<Self, Error>)
        requires
            self.body is None,
        ensures
            built(r) == Some(self@.with_body(BodyView::JsonPartial(value@))),
    {
        Ok(
            WithHandler {
                uri: self.uri,
                method: self.method,
                headers: self.headers,
                body: Some(Body::JsonPartial(value)),
            },
        )
    }
}

impl With for WithHandler {
    open spec fn outcome(&self, req: RequestView) -> Option<ReportView> {
        self@.outcome(req)
    }

    fn with(&self, req: &Request) -> (r: Result<Report, Error>)
        ensures
            r matches Ok(report) ==> report.wf(),
            r matches Err(err) ==> err is Json,
    {
        let ghost view = self@;
        let mut reasons: Vec<Reason> = Vec::new();
        assert(reason_set(reasons@) =~= view.found(req@, false, false, 0, false));

        if let Some(method) = &self.method {
            if !(*method == req.method) {
                note_reason(&mut reasons, Reason::Method);
            }
        }
        assert(reason_set(reasons@) =~= view.found(req@, true, false, 0, false));

        if let Some(uri) = &self.uri {
            if !uri_eq(uri.as_str(), req.uri.as_str()) {
                note_reason(&mut reasons, Reason::Uri);
            }
        }
        assert(reason_set(reasons@) =~= view.found(req@, true, true, 0, false));

        let mut i: usize = 0;
        while i < self.headers.len()
            invariant
                i <= self.headers.len(),
                view == self@,
                distinct_reasons(reasons@),
                reason_set(reasons@) == view.found(req@, true, true, i as int, false),
            decreases self.headers.len() - i,
        {
            let key = &self.headers[i].0;
            let check = &self.headers[i].1;
            assert(view.headers[i as int] == (key@, check@));
            let ghost before = view.found(req@, true, true, i as int, false);
            let ghost after = view.found(req@, true, true, i + 1, false);
            let failed = !check_headers(&req.headers, key, check);
            if failed {
                note_reason(&mut reasons, Reason::Header(key.clone()));
            }
            proof {
                let grown = if failed {
                    before.insert(ReasonView::Header(key@))
                } else {
                    before
                };
                assert forall|reason: ReasonView| after.contains(reason) == grown.contains(
                    reason,
                ) by {
                    if let ReasonView::Header(name) = reason {
                        if view.header_mismatch(req@.headers, name, i + 1) {
                            let k = choose|k: int|
                                0 <= k < i + 1 && k < view.headers.len() && (
                                #[trigger] view.headers[k]).0 == name && !header_check_holds(
                                    req@.headers,
                                    name,
                                    view.headers[k].1,
                                );
                            if k < i {
                                assert(view.header_mismatch(req@.headers, name, i as int));
                            }
                        }
                        if failed && name == key@ {
                            assert(view.headers[i as int].0 == name);
                            assert(view.header_mismatch(req@.headers, name, i + 1));
                        }
                        if view.header_mismatch(req@.headers, name, i as int) {
                            let k = choose|k: int|
                                0 <= k < i && k < view.headers.len() && (
                                #[trigger] view.headers[k]).0 == name && !header_check_holds(
                                    req@.headers,
                                    name,
                                    view.headers[k].1,
                                );
                            assert(view.header_mismatch(req@.headers, name, i + 1));
                        }
                    }
                }
                assert(after =~= grown);
            }
            i += 1;
        }

        let failed = match &self.body {
            None => false,
            Some(Body::String(expected)) => !(*expected == req.body),
            Some(Body::Json(expected)) => {
                match parse_json(req.body.as_str()) {
                    Ok(actual) => !expected.equals(&actual),
                    Err(message) => {
                        return Err(Error::Json(message));
                    },
                }
            },
            Some(Body::JsonPartial(expected)) => {
                match parse_json(req.body.as_str()) {
                    Ok(actual) => !expected.is_contained_in(&actual),
                    Err(message) => {
                        return Err(Error::Json(message));
                    },
                }
            },
        };
        assert(body_mismatch(view.body, req@.body) == Some(failed));
        if failed {
            note_reason(&mut reasons, Reason::Body);
        }
        assert(reason_set(reasons@) =~= view.mismatches(req@));
        proof {
            if reasons@.len() > 0 {
                assert(reason_set(reasons@).contains(reasons@[0]@));
            }
        }
        Ok(Report::from_reasons(reasons))
    }

    open spec fn pretty(&self, reasons: Set<ReasonView>) -> WithPrintView {
        conditions_print(self@, reasons)
    }

    fn print_pretty(&self, report: &Vec<Reason>) -> (r: WithPrint) {
        self.describe(report)
    }
}

impl IntoWith for WithHandler {
    fn into_with(self) -> (r: Arc<Box<dyn With>>) {
        Arc::new(Box::new(self))
    }
}

} // verus!
