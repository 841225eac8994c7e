//! Severity levels, totally ordered from `Trace` (lowest) to `Critical`
//! (highest). The order is the sole semantic the filter relies on.

use vstd::prelude::*;

verus! {

/// A record's severity. The variants are listed from least to most severe.
#[derive(Clone, Copy, Debug, PartialEq, Eq, Structural)]
pub enum Level {
    Trace,
    Debug,
    Info,
    Warning,
    Error,
    Critical,
}

impl Level {
    /// The position of this level in the total order, `Trace` being 0 and
    /// `Critical` being 5.
    pub open spec fn severity(self) -> int {
        match self {
            Level::Trace => 0,
            Level::Debug => 1,
            Level::Info => 2,
            Level::Warning => 3,
            Level::Error => 4,
            Level::Critical => 5,
        }
    }

    /// The position of this level in the total order, as a machine integer.
    pub fn severity_index(self) -> (n: u8)
        ensures
            n as int == self.severity(),
    {
        match self {
            Level::Trace => 0,
            Level::Debug => 1,
            Level::Info => 2,
            Level::Warning => 3,
            Level::Error => 4,
            Level::Critical => 5,
        }
    }

    /// Whether this level is at least as severe as `other`.
    pub fn is_at_least(self, other: Level) -> (b: bool)
        ensures
            b == (self.severity() >= other.severity()),
    {
        self.severity_index() >= other.severity_index()
    }
}

} // verus!
