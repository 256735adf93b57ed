//! Matchers: whether a case takes a request.

pub mod header;
pub mod json;
pub mod predicate;
pub mod print;
pub mod report;
pub mod structured;

use crate::error::Error;
use crate::message::{Request, RequestView};
pub use header::{check_headers, header_check_holds, HeaderCheck, HeaderCheckView};
pub use json::{contained, Json};
pub use predicate::Predicate;
use print::{named, WithPrintView};
pub use print::WithPrint;
use report::{reason_set, ReasonView, ReportView};
pub use report::{Reason, Report};
use std::sync::Arc;
pub use structured::{Body, WithHandler};
use vstd::prelude::*;

verus! {

/// A matcher: it says of a request whether the case takes it.
///
/// What a matcher says depends on the request alone: the same request gets
/// the same report, or the same failure, every time.
pub trait With: Send + Sync {
    /// What the matcher makes of a request: its report, or `None` where it
    /// fails.
    spec fn outcome(&self, req: RequestView) -> Option<ReportView>;

    /// Holds the request against the case.
    ///
    /// A failure is an error of the matcher's own: it is never `NotFound`,
    /// which says that no case matched.
    fn with(&self, req: &Request) -> (r: Result<Report, Error>)
        ensures
            match r {
                Ok(report) => self.outcome(req@) == Some(report@),
                Err(err) => self.outcome(req@) is None && !(err is NotFound),
            },
    ;

    /// The matcher written out for a reader who is told why it did not
    /// match.
    spec fn pretty(&self, reasons: Set<ReasonView>) -> WithPrintView;

    /// Writes the matcher out for a reader. `report` holds the reasons for
    /// which it did not match a request.
    fn print_pretty(&self, report: &Vec<Reason>) -> (r: WithPrint)
        ensures
            r@ == self.pretty(reason_set(report@)),
    ;
}

/// A matcher that can be put into a case.
pub trait IntoWith: With + Sized {
    /// The matcher as a case holds it: it makes the same of every request.
    fn into_with(self) -> (r: Arc<Box<dyn With>>)
        ensures
            forall|req: RequestView| #[trigger] r.outcome(req) == self.outcome(req),
    ;
}

/// The matcher of a case without conditions: it takes every request.
#[derive(Debug)]
pub struct DefaultWith;

impl With for DefaultWith {
    open spec fn outcome(&self, req: RequestView) -> Option<ReportView> {
        Some(ReportView::Match)
    }

    fn with(&self, _req: &Request) -> (r: Result<Report, Error>) {
        Ok(Report::Match)
    }

    open spec fn pretty(&self, reasons: Set<ReasonView>) -> WithPrintView {
        WithPrintView { name: "default case"@, body: None }
    }

    fn print_pretty(&self, _report: &Vec<Reason>) -> (r: WithPrint) {
        named("default case")
    }
}

impl IntoWith for DefaultWith {
    fn into_with(self) -> (r: Arc<Box<dyn With>>) {
        Arc::new(Box::new(self))
    }
}

} // verus!
