//! Builders for a connector and for its cases.

use crate::case::Case;
use crate::connector::{Connector, InnerConnector};
use crate::error::Error;
use crate::handler::returning::IntoReturning;
use crate::handler::with::json::Json;
use crate::handler::with::predicate::{says_the_same_again, takes_every_request};
use crate::handler::with::report::Report;
use crate::handler::with::structured::{built, values_of_texts, BodyView, Conditions};
use crate::handler::with::{
    DefaultWith, HeaderCheckView, IntoWith, Predicate, WithHandler,
};
use crate::message::Request;
use crate::level::Level;
use crate::message::{RequestView, ResponseView};
use vstd::prelude::*;
use vstd::utf8::encode_utf8;

verus! {

/// Builder for [`Connector`]
pub struct Builder {
    pub inner: InnerConnector,
}

impl Default for Builder {
    fn default() -> (r: Self)
        ensures
            r.inner.level == Level::Missing,
            r.inner.cases@.len() == 0,
    {
        Builder { inner: InnerConnector::default() }
    }
}

impl Builder {
    /// Build into an usable [`Connector`]
    pub fn build(self) -> (r: Connector)
        ensures
            r.inner == self.inner,
    {
        Connector::from_inner(self.inner)
    }

    /// Set the diagnostics [`Level`] for the connector
    pub fn level(&mut self, level: Level)
        ensures
            final(self).inner.level == level,
            final(self).inner.cases == old(self).inner.cases,
    {
        self.inner.level = level;
    }

    /// Create a new expected case
    pub fn expect(&mut self) -> (r: CaseBuilder<'_>)
        ensures
            *r.connector == old(self).inner,
            *final(r.connector) == final(self).inner,
            r.with matches Ok(_),
            r.count is None,
    {
        CaseBuilder::new(&mut self.inner)
    }
}

/// Builder for specific mock cases
pub struct CaseBuilder<'c, W = DefaultWith> {
    pub connector: &'c mut InnerConnector,
    pub with: Result<W, Error>,
    pub count: Option<usize>,
}

impl<'c> CaseBuilder<'c> {
    /// A builder for a case of `connector` that takes every request and
    /// expects no number of calls.
    pub fn new(connector: &'c mut InnerConnector) -> (r: Self)
        ensures
            *r.connector == *old(connector),
            *final(r.connector) == *final(connector),
            r.with matches Ok(_),
            r.count is None,
    {
        Self { connector, with: Ok(DefaultWith), count: None }
    }
}

/// What one more condition makes of the conditions so far: a failure stays
/// a failure.
pub open spec fn next(
    before: Result<WithHandler, Error>,
    step: spec_fn(Conditions) -> Option<Conditions>,
) -> Option<Conditions> {
    match built(before) {
        Some(conditions) => step(conditions),
        None => None,
    }
}

impl<'c> CaseBuilder<'c> {
    /// Pass a function or closure to check if the incoming payload matches this mock case
    ///
    /// The function must take every request, and must say the same of the
    /// same request every time. It cannot be combined with the other `with`
    /// methods.
    pub fn with<F>(self, with: F) -> (r: CaseBuilder<'c, Predicate<F>>) where
        F: Fn(&Request) -> Result<Report, String>,

        requires
            takes_every_request(with),
            says_the_same_again(with),
        ensures
            *r.connector == *old(self.connector),
            *final(r.connector) == *final(self.connector),
            r.count == self.count,
            r.with matches Ok(predicate) && predicate.check() == with,
    {
        CaseBuilder { connector: self.connector, with: Ok(Predicate::new(with)), count: self.count }
    }

    /// Match requests with the specified URI
    pub fn with_uri(self, uri: &str) -> (r: CaseBuilder<'c, WithHandler>)
        ensures
            *r.connector == *old(self.connector),
            *final(r.connector) == *final(self.connector),
            r.count == self.count,
            built(r.with) == Conditions::none().with_uri(uri@),
            r.with matches Err(err) ==> err is Http,
    {
        CaseBuilder {
            connector: self.connector,
            with: WithHandler::default().with_uri(uri),
            count: self.count,
        }
    }

    /// Match requests with the specified method
    pub fn with_method(self, method: &str) -> (r: CaseBuilder<'c, WithHandler>)
        ensures
            *r.connector == *old(self.connector),
            *final(r.connector) == *final(self.connector),
            r.count == self.count,
            built(r.with) == Conditions::none().with_method(method@),
            r.with matches Err(err) ==> err is Http,
    {
        CaseBuilder {
            connector: self.connector,
            with: WithHandler::default().with_method(method),
            count: self.count,
        }
    }

    /// Match requests that contains the specific header
    ///
    /// An HTTP request can contain multiple headers with the same key, but different values. This
    /// checks that there is at least one value matching. If you want to ensure that there is only
    /// one entry for this key, consider using `with_header_once`.
    pub fn with_header(self, key: &str, value: &str) -> (r: CaseBuilder<'c, WithHandler>)
        ensures
            *r.connector == *old(self.connector),
            *final(r.connector) == *final(self.connector),
            r.count == self.count,
            built(r.with) == Conditions::none().with_check(
                key@,
                HeaderCheckView::AtLeastOnce(encode_utf8(value@)),
            ),
            r.with matches Err(err) ==> err is Http,
    {
        CaseBuilder {
            connector: self.connector,
            with: WithHandler::default().with_header(key, value),
            count: self.count,
        }
    }

    /// Match requests that contains the specific header
    ///
    /// An HTTP request can contain multiple headers with the same key, but different values. This
    /// checks that there is only one value for the given header.
    pub fn with_header_once(self, key: &str, value: &str) -> (r: CaseBuilder<'c, WithHandler>)
        ensures
            *r.connector == *old(self.connector),
            *final(r.connector) == *final(self.connector),
            r.count == self.count,
            built(r.with) == Conditions::none().with_check(
                key@,
                HeaderCheckView::ExactlyOnce(encode_utf8(value@)),
            ),
            r.with matches Err(err) ==> err is Http,
    {
        CaseBuilder {
            connector: self.connector,
            with: WithHandler::default().with_header_once(key, value),
            count: self.count,
        }
    }

    /// Match requests that contains the specific header
    ///
    /// An HTTP request can contain multiple headers with the same key, but different values. This
    /// checks that all entries correspond to the given set of values.
    pub fn with_header_all(self, key: &str, values: &Vec<String>) -> (r: CaseBuilder<
        'c,
        WithHandler,
    >)
        ensures
            *r.connector == *old(self.connector),
            *final(r.connector) == *final(self.connector),
            r.count == self.count,
            built(r.with) == Conditions::none().with_check(
                key@,
                HeaderCheckView::All(values_of_texts(values@)),
            ),
            r.with matches Err(err) ==> err is Http,
    {
        CaseBuilder {
            connector: self.connector,
            with: WithHandler::default().with_header_all(key, values),
            count: self.count,
        }
    }

    /// Match requests that contains the provided payload
    pub fn with_body(self, body: &str) -> (r: CaseBuilder<'c, WithHandler>)
        ensures
            *r.connector == *old(self.connector),
            *final(r.connector) == *final(self.connector),
            r.count == self.count,
            built(r.with) == Some(Conditions::none().with_body(BodyView::String(body@))),
    {
        CaseBuilder {
            connector: self.connector,
            with: Ok(WithHandler::default().with_body(body)),
            count: self.count,
        }
    }

    /// Match requests with a body that exactly matches the provided JSON payload
    pub fn with_json(self, value: Json) -> (r: CaseBuilder<'c, WithHandler>)
        ensures
            *r.connector == *old(self.connector),
            *final(r.connector) == *final(self.connector),
            r.count == self.count,
            built(r.with) == Some(Conditions::none().with_body(BodyView::Json(value@))),
    {
        CaseBuilder {
            connector: self.connector,
            with: WithHandler::default().with_json(value),
            count: self.count,
        }
    }

    /// Match requests that contains the provided JSON payload, but may contain other properties
    pub fn with_json_partial(self, value: Json) -> (r: CaseBuilder<'c, WithHandler>)
        ensures
            *r.connector == *old(self.connector),
            *final(r.connector) == *final(self.connector),
            r.count == self.count,
            built(r.with) == Some(Conditions::none().with_body(BodyView::JsonPartial(value@))),
    {
        CaseBuilder {
            connector: self.connector,
            with: WithHandler::default().with_json_partial(value),
            count: self.count,
        }
    }
}

impl<'c> CaseBuilder<'c, WithHandler> {
    /// Asks, besides, that the request be for `uri`.
    pub fn with_uri(self, uri: &str) -> (r: Self)
        ensures
            *r.connector == *old(self.connector),
            *final(r.connector) == *final(self.connector),
            r.count == self.count,
            built(r.with) == next(self.with, |conditions: Conditions| conditions.with_uri(uri@)),
            self.with is Err ==> r.with == self.with,
            r.with matches Err(err) ==> self.with is Err || err is Http,
    {
        let with = match self.with {
            Ok(with) => with.with_uri(uri),
            Err(err) => Err(err),
        };
        CaseBuilder { connector: self.connector, with, count: self.count }
    }

    /// Asks, besides, that the request have the method `method`.
    pub fn with_method(self, method: &str) -> (r: Self)
        ensures
            *r.connector == *old(self.connector),
            *final(r.connector) == *final(self.connector),
            r.count == self.count,
            built(r.with) == next(
                self.with,
                |conditions: Conditions| conditions.with_method(method@),
            ),
            self.with is Err ==> r.with == self.with,
            r.with matches Err(err) ==> self.with is Err || err is Http,
    {
        let with = match self.with {
            Ok(with) => with.with_method(method),
            Err(err) => Err(err),
        };
        CaseBuilder { connector: self.connector, with, count: self.count }
    }

    /// Asks, besides, that one of the headers called `key` have the value
    /// `value`.
    pub fn with_header(self, key: &str, value: &str) -> (r: Self)
        ensures
            *r.connector == *old(self.connector),
            *final(r.connector) == *final(self.connector),
            r.count == self.count,
            built(r.with) == next(
                self.with,
                |conditions: Conditions|
                    conditions.with_check(key@, HeaderCheckView::AtLeastOnce(encode_utf8(value@))),
            ),
            self.with is Err ==> r.with == self.with,
            r.with matches Err(err) ==> self.with is Err || err is Http,
    {
        let with = match self.with {
            Ok(with) => with.with_header(key, value),
            Err(err) => Err(err),
        };
        CaseBuilder { connector: self.connector, with, count: self.count }
    }

    /// Asks, besides, that there be one header called `key` only, with the
    /// value `value`.
    pub fn with_header_once(self, key: &str, value: &str) -> (r: Self)
        ensures
            *r.connector == *old(self.connector),
            *final(r.connector) == *final(self.connector),
            r.count == self.count,
            built(r.with) == next(
                self.with,
                |conditions: Conditions|
                    conditions.with_check(key@, HeaderCheckView::ExactlyOnce(encode_utf8(value@))),
            ),
            self.with is Err ==> r.with == self.with,
            r.with matches Err(err) ==> self.with is Err || err is Http,
    {
        let with = match self.with {
            Ok(with) => with.with_header_once(key, value),
            Err(err) => Err(err),
        };
        CaseBuilder { connector: self.connector, with, count: self.count }
    }

    /// Asks, besides, that the headers called `key` have the values `values`.
    pub fn with_header_all(self, key: &str, values: &Vec<String>) -> (r: Self)
        ensures
            *r.connector == *old(self.connector),
            *final(r.connector) == *final(self.connector),
            r.count == self.count,
            built(r.with) == next(
                self.with,
                |conditions: Conditions|
                    conditions.with_check(key@, HeaderCheckView::All(values_of_texts(values@))),
            ),
            self.with is Err ==> r.with == self.with,
            r.with matches Err(err) ==> self.with is Err || err is Http,
    {
        let with = match self.with {
            Ok(with) => with.with_header_all(key, values),
            Err(err) => Err(err),
        };
        CaseBuilder { connector: self.connector, with, count: self.count }
    }

    /// Asks, besides, that the body be the text `body`. There must be no
    /// condition on the body yet.
    pub fn with_body(self, body: &str) -> (r: Self)
        requires
            self.with matches Ok(with) ==> with.body is None,
        ensures
            *r.connector == *old(self.connector),
            *final(r.connector) == *final(self.connector),
            r.count == self.count,
            built(r.with) == next(
                self.with,
                |conditions: Conditions| Some(conditions.with_body(BodyView::String(body@))),
            ),
            self.with is Err ==> r.with == self.with,
    {
        let with = match self.with {
            Ok(with) => Ok(with.with_body(body)),
            Err(err) => Err(err),
        };
        CaseBuilder { connector: self.connector, with, count: self.count }
    }

    /// Asks, besides, that the body be JSON, and the same document as `value`.
    /// There must be no condition on the body yet.
    pub fn with_json(self, value: Json) -> (r: Self)
        requires
            self.with matches Ok(with) ==> with.body is None,
        ensures
            *r.connector == *old(self.connector),
            *final(r.connector) == *final(self.connector),
            r.count == self.count,
            built(r.with) == next(
                self.with,
                |conditions: Conditions| Some(conditions.with_body(BodyView::Json(value@))),
            ),
            self.with is Err ==> r.with == self.with,
    {
        let with = match self.with {
            Ok(with) => with.with_json(value),
            Err(err) => Err(err),
        };
        CaseBuilder { connector: self.connector, with, count: self.count }
    }

    /// Asks, besides, that the body be JSON, and hold all that `value` holds.
    /// There must be no condition on the body yet.
    pub fn with_json_partial(self, value: Json) -> (r: Self)
        requires
            self.with matches Ok(with) ==> with.body is None,
        ensures
            *r.connector == *old(self.connector),
            *final(r.connector) == *final(self.connector),
            r.count == self.count,
            built(r.with) == next(
                self.with,
                |conditions: Conditions| Some(conditions.with_body(BodyView::JsonPartial(value@))),
            ),
            self.with is Err ==> r.with == self.with,
    {
        let with = match self.with {
            Ok(with) => with.with_json_partial(value),
            Err(err) => Err(err),
        };
        CaseBuilder { connector: self.connector, with, count: self.count }
    }
}

impl<'c, W> CaseBuilder<'c, W> {
    /// Mark how many times this mock case can be called
    ///
    /// Nothing enforces how many times a mock case is called, but you can use the `checkpoint`
    /// method on the [`Connector`] to ensure all methods were called the right amount of times.
    pub fn times(self, count: usize) -> (r: Self)
        ensures
            *r.connector == *old(self.connector),
            *final(r.connector) == *final(self.connector),
            r.with == self.with,
            r.count == Some(count),
    {
        Self { connector: self.connector, with: self.with, count: Some(count) }
    }
}

impl<'c, W: IntoWith + 'static> CaseBuilder<'c, W> {
    /// Mark what will generate the response for a given mock case
    ///
    /// The case is added behind the cases that the connector has already.
    ///
    /// ## Errors
    ///
    /// This will fail if any of the previous steps in [`CaseBuilder`] failed;
    /// the connector then stays as it was.
    pub fn returning<R: IntoReturning + 'static>(self, returning: R) -> (r: Result<(), Error>)
        ensures
            match self.with {
                Ok(with) => {
                    let before = old(self.connector).cases@;
                    let after = final(self.connector).cases@;
                    &&& r is Ok
                    &&& final(self.connector).level == old(self.connector).level
                    &&& after.len() == before.len() + 1
                    &&& after.drop_last() == before
                    &&& after.last().count == self.count
                    &&& after.last().seen == 0
                    &&& forall|req: RequestView| #[trigger]
                        after.last().with.outcome(req) == with.outcome(req)
                    &&& forall|req: RequestView, answer: Option<ResponseView>| #[trigger]
                        after.last().returning.answers(req, answer) == returning.answers(
                            req,
                            answer,
                        )
                },
                Err(err) => r == Err::<(), Error>(err) && *final(self.connector) == *old(
                    self.connector,
                ),
            },
    {
        match self.with {
            Ok(with) => {
                let case = Case::new(with, returning, self.count);
                let ghost before = self.connector.cases@;
                self.connector.cases.push(case);
                assert(self.connector.cases@.drop_last() =~= before);
                Ok(())
            },
            Err(err) => Err(err),
        }
    }
}

} // verus!
