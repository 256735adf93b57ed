//! Matchers made of a function.

use super::print::{named, WithPrint, WithPrintView};
use super::report::{Reason, ReasonView, Report, ReportView};
use super::{IntoWith, With};
use crate::error::Error;
use crate::message::{Request, RequestView};
use std::sync::Arc;
use vstd::prelude::*;

verus! {

/// What the result of a function that checks a request stands for: the
/// report, or `None` for a failure.
pub open spec fn verdict(result: Result<Report, String>) -> Option<ReportView> {
    match result {
        Ok(report) => Some(report@),
        Err(_) => None,
    }
}

/// Whether `check` can be called on every request.
pub open spec fn takes_every_request<F: Fn(&Request) -> Result<Report, String>>(check: F) -> bool {
    forall|req: &Request| #[trigger] call_requires(check, (req,))
}

/// Whether what `check` says depends on what the request stands for alone.
pub open spec fn says_the_same_again<F: Fn(&Request) -> Result<Report, String>>(check: F) -> bool {
    forall|a: &Request, b: &Request, x: Result<Report, String>, y: Result<Report, String>|
        a@ == b@ && #[trigger] call_ensures(check, (a,), x) && #[trigger] call_ensures(
            check,
            (b,),
            y,
        ) ==> verdict(x) == verdict(y)
}

/// A matcher made of a function from the request to a report. An `Err` of
/// the function is a failure of the matcher, not a mismatch.
pub struct Predicate<F: Fn(&Request) -> Result<Report, String>> {
    check: F,
}

impl<F: Fn(&Request) -> Result<Report, String>> Predicate<F> {
    #[verifier::type_invariant]
    spec fn sound(self) -> bool {
        takes_every_request(self.check) && says_the_same_again(self.check)
    }

    /// The function that the matcher calls.
    pub closed spec fn check(self) -> F {
        self.check
    }

    /// Makes a matcher of a function.
    ///
    /// The function must take every request, and must say the same of the
    /// same request every time.
    pub fn new(check: F) -> (r: Self)
        requires
            takes_every_request(check),
            says_the_same_again(check),
        ensures
            r.check() == check,
    {
        Predicate { check }
    }
}

impl<F: Fn(&Request) -> Result<Report, String> + Send + Sync + 'static> With for Predicate<F> {
    /// What the function says of a request that stands for `req`.
    open spec fn outcome(&self, req: RequestView) -> Option<ReportView> {
        if exists|q: &Request, x: Result<Report, String>|
            q@ == req && #[trigger] call_ensures(self.check(), (q,), x) {
            let (q, x) = choose|q: &Request, x: Result<Report, String>|
                q@ == req && #[trigger] call_ensures(self.check(), (q,), x);
            verdict(x)
        } else {
            None
        }
    }

    fn with(&self, req: &Request) -> (r: Result<Report, Error>)
        ensures
            r matches Err(err) ==> err is Runtime,
    {
        proof {
            use_type_invariant(self);
        }
        let result = (self.check)(req);
        assert(call_ensures(self.check(), (req,), result));
        match result {
            Ok(report) => Ok(report),
            Err(message) => Err(Error::Runtime(message)),
        }
    }

    open spec fn pretty(&self, reasons: Set<ReasonView>) -> WithPrintView {
        WithPrintView { name: "closure"@, body: None }
    }

    fn print_pretty(&self, _report: &Vec<Reason>) -> (r: WithPrint) {
        named("closure")
    }
}

impl<F: Fn(&Request) -> Result<Report, String> + Send + Sync + 'static> IntoWith for Predicate<F> {
    fn into_with(self) -> (r: Arc<Box<dyn With>>) {
        Arc::new(Box::new(self))
    }
}

} // verus!
