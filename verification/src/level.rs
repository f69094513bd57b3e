//! Severity of a finding.
//!
//! Levels are totally ordered `Info < Warning < Error`, so that a `--fail-on`
//! threshold compares naturally with the level of each finding.

use core::cmp::Ordering;
use vstd::prelude::*;
use vstd::std_specs::cmp::PartialOrdSpecImpl;

verus! {

/// Severity of a finding, ordered so that thresholds compare naturally.
#[derive(Debug, Clone, Copy, PartialEq, Eq, Structural, Ord)]
pub enum Level {
    /// Worth knowing; not a hard break.
    Info,
    /// Likely to need a change before the new spec is adopted.
    Warning,
    /// Will break against the new spec if left as-is.
    Error,
}

/// The position of a level in the severity order.
pub open spec fn rank(level: Level) -> nat {
    match level {
        Level::Info => 0,
        Level::Warning => 1,
        Level::Error => 2,
    }
}

/// The short human label of a level.
pub open spec fn label_of(level: Level) -> Seq<char> {
    match level {
        Level::Info => "info"@,
        Level::Warning => "warning"@,
        Level::Error => "error"@,
    }
}

/// The three-way comparison of two levels by their rank.
pub open spec fn compare_levels(a: Level, b: Level) -> Ordering {
    if rank(a) < rank(b) {
        Ordering::Less
    } else if rank(a) == rank(b) {
        Ordering::Equal
    } else {
        Ordering::Greater
    }
}

impl Level {
    /// Short label for human output.
    pub fn label(self) -> (s: &'static str)
        ensures
            s@ == label_of(self),
    {
        match self {
            Level::Info => "info",
            Level::Warning => "warning",
            Level::Error => "error",
        }
    }
}

impl PartialOrd for Level {
    fn partial_cmp(&self, other: &Level) -> (r: Option<Ordering>) {
        let a: u8 = match self {
            Level::Info => 0,
            Level::Warning => 1,
            Level::Error => 2,
        };
        let b: u8 = match other {
            Level::Info => 0,
            Level::Warning => 1,
            Level::Error => 2,
        };
        if a < b {
            Some(Ordering::Less)
        } else if a == b {
            Some(Ordering::Equal)
        } else {
            Some(Ordering::Greater)
        }
    }
}

impl PartialOrdSpecImpl for Level {
    open spec fn obeys_partial_cmp_spec() -> bool {
        true
    }

    open spec fn partial_cmp_spec(&self, other: &Level) -> Option<Ordering> {
        Some(compare_levels(*self, *other))
    }
}

/// The severity order is `Info < Warning < Error`: a total order in which two
/// levels are equal exactly when they have the same rank.
pub proof fn lemma_level_order()
    ensures
        rank(Level::Info) < rank(Level::Warning),
        rank(Level::Warning) < rank(Level::Error),
        forall|a: Level, b: Level| rank(a) == rank(b) <==> a == b,
        forall|a: Level, b: Level| #[trigger] compare_levels(a, b) == Ordering::Less <==> rank(a) < rank(b),
{
}

/// The labels are `info`, `warning` and `error`, one per level: no two levels
/// share a label.
pub proof fn lemma_labels()
    ensures
        label_of(Level::Info) == "info"@,
        label_of(Level::Warning) == "warning"@,
        label_of(Level::Error) == "error"@,
        forall|a: Level, b: Level| #[trigger] label_of(a) == #[trigger] label_of(b) ==> a == b,
{
    reveal_strlit("info");
    reveal_strlit("warning");
    reveal_strlit("error");
    assert("info"@.len() != "warning"@.len());
    assert("info"@.len() != "error"@.len());
    assert("warning"@.len() != "error"@.len());
}

} // verus!
