//! Diagnostic levels.

use std::cmp::Ordering;
use vstd::prelude::*;
use vstd::std_specs::cmp::PartialOrdSpecImpl;

verus! {

/// How much the connector tells about what it sees.
///
/// A greater level is more verbose: `Silent < Error < Missing`.
#[derive(Debug, Clone, Copy, PartialEq, Eq, Structural)]
pub enum Level {
    /// Never display diagnostic information
    Silent,
    /// Display diagnostic information on errors
    Error,
    /// Display information when no cases match the incoming request
    Missing,
}

impl Level {
    /// The place of the level in the order of verbosity.
    pub open spec fn rank(self) -> nat {
        match self {
            Level::Silent => 0,
            Level::Error => 1,
            Level::Missing => 2,
        }
    }

    /// The order of two levels, by their ranks.
    pub open spec fn order(self, other: Level) -> Ordering {
        if self.rank() < other.rank() {
            Ordering::Less
        } else if self.rank() == other.rank() {
            Ordering::Equal
        } else {
            Ordering::Greater
        }
    }

    /// Whether a request that matched no case is reported at this level.
    pub fn reports_missing(&self) -> (r: bool)
        ensures
            r == (self.rank() >= Level::Missing.rank()),
    {
        match self {
            Level::Missing => true,
            _ => false,
        }
    }

    /// Whether errors are reported at this level.
    pub fn reports_errors(&self) -> (r: bool)
        ensures
            r == (self.rank() >= Level::Error.rank()),
    {
        match self {
            Level::Silent => false,
            _ => true,
        }
    }
}

impl PartialOrd for Level {
    fn partial_cmp(&self, other: &Self) -> (r: Option<Ordering>) {
        let a: u8 = match self {
            Level::Silent => 0,
            Level::Error => 1,
            Level::Missing => 2,
        };
        let b: u8 = match other {
            Level::Silent => 0,
            Level::Error => 1,
            Level::Missing => 2,
        };
        if a < b {
            Some(Ordering::Less)
        } else if a == b {
            Some(Ordering::Equal)
        } else {
            Some(Ordering::Greater)
        }
    }
}

impl PartialOrdSpecImpl for Level {
    open spec fn obeys_partial_cmp_spec() -> bool {
        true
    }

    open spec fn partial_cmp_spec(&self, other: &Self) -> Option<Ordering> {
        Some(self.order(*other))
    }
}

impl Default for Level {
    fn default() -> (r: Self)
        ensures
            r == Level::Missing,
    {
        Level::Missing
    }
}

/// The order of the levels is total: any two compare, and equal ranks mean
/// equal levels.
pub proof fn level_order_is_total(a: Level, b: Level)
    ensures
        a.order(b) == Ordering::Equal <==> a == b,
        a.order(b) == Ordering::Less <==> b.order(a) == Ordering::Greater,
{
}

} // verus!
