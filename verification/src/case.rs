//! One expected case, and the check on how often it was called.

use crate::handler::returning::{IntoReturning, Returning};
use crate::handler::with::{IntoWith, With};
use crate::message::{RequestView, ResponseView};
use crate::text::{decimal, push_decimal};
use std::sync::Arc;
use vstd::prelude::*;
use vstd::string::StringExecFns;

verus! {

/// One expected case: a matcher, a responder, the number of calls expected
/// of it, if any, and the number of calls seen.
pub struct Case {
    /// Whether the case takes a request
    pub with: Arc<Box<dyn With>>,
    /// What the case answers
    pub returning: Arc<Box<dyn Returning>>,
    /// How often the case is expected to be called, if that is settled
    pub count: Option<usize>,
    /// How often the case has been called
    pub seen: usize,
}

impl Case {
    /// A case that has not been called yet.
    pub fn new<W, R>(with: W, returning: R, count: Option<usize>) -> (r: Self) where
        W: IntoWith + 'static,
        R: IntoReturning + 'static,

        ensures
            forall|req: RequestView| #[trigger] r.with.outcome(req) == with.outcome(req),
            forall|req: RequestView, answer: Option<ResponseView>| #[trigger]
                r.returning.answers(req, answer) == returning.answers(req, answer),
            r.count == count,
            r.seen == 0,
    {
        Self { with: with.into_with(), returning: returning.into_returning(), count, seen: 0 }
    }

    /// What the check of the case gives: the calls expected and seen where
    /// a number is expected and the two differ.
    pub open spec fn failure(&self) -> Option<Checkpoint> {
        match self.count {
            Some(count) => if count == self.seen {
                None
            } else {
                Some(Checkpoint { expected: count, got: self.seen })
            },
            None => None,
        }
    }

    /// Checks whether the case was called as often as expected. A case
    /// without an expected number passes.
    pub fn checkpoint(&self) -> (r: Option<Checkpoint>)
        ensures
            r == self.failure(),
    {
        match self.count {
            Some(count) => Checkpoint::check(count, self.seen),
            None => None,
        }
    }
}

/// A case that was not called as often as it was expected to be.
#[derive(Debug, Clone, Copy, PartialEq, Eq, Structural)]
pub struct Checkpoint {
    /// How often the case was expected to be called
    pub expected: usize,
    /// How often it was called
    pub got: usize,
}

impl Checkpoint {
    /// Holds the calls seen against the calls expected: `None` where they
    /// agree.
    pub fn check(expected: usize, got: usize) -> (r: Option<Self>)
        ensures
            r == if expected == got {
                None
            } else {
                Some(Checkpoint { expected, got })
            },
    {
        if expected == got {
            None
        } else {
            Some(Self { expected, got })
        }
    }

    /// What the checkpoint says to a reader.
    pub open spec fn text(self) -> Seq<char> {
        "expected "@ + decimal(self.expected as nat) + ", got "@ + decimal(self.got as nat)
    }

    /// The words `expected`, the number expected, `, got` and the number
    /// seen.
    pub fn message(&self) -> (r: String)
        ensures
            r@ == self.text(),
    {
        let mut text = String::from_str("expected ");
        push_decimal(&mut text, self.expected);
        text.append(", got ");
        push_decimal(&mut text, self.got);
        text
    }
}

} // verus!
