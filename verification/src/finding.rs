//! A single migration finding, and the report a scan produces.

use crate::level::{rank, Level};
use vstd::prelude::*;

verus! {

/// One match of a rule against a source file.
#[derive(Debug, Clone)]
pub struct Finding {
    /// Severity.
    pub level: Level,
    /// Rule id that fired, e.g. `spec.error_code`.
    pub rule: &'static str,
    /// The SEP/RFC behind the rule.
    pub sep: &'static str,
    /// Path to the file (relative to the scan root when possible).
    pub file: String,
    /// 1-based line number. File-level rules report their first matching line.
    pub line: usize,
    /// What changed in the spec.
    pub message: &'static str,
    /// What to do about it.
    pub fix: &'static str,
    /// Source to verify against.
    pub url: &'static str,
    /// The matched source line, trimmed and length-capped.
    pub snippet: String,
}

/// The mathematical content of a [`Finding`]: every text as its characters.
pub struct FindingView {
    pub level: Level,
    pub rule: Seq<char>,
    pub sep: Seq<char>,
    pub file: Seq<char>,
    pub line: usize,
    pub message: Seq<char>,
    pub fix: Seq<char>,
    pub url: Seq<char>,
    pub snippet: Seq<char>,
}

impl View for Finding {
    type V = FindingView;

    open spec fn view(&self) -> FindingView {
        FindingView {
            level: self.level,
            rule: self.rule@,
            sep: self.sep@,
            file: self.file@,
            line: self.line,
            message: self.message@,
            fix: self.fix@,
            url: self.url@,
            snippet: self.snippet@,
        }
    }
}

/// The views of a sequence of findings.
pub open spec fn views(s: Seq<Finding>) -> Seq<FindingView> {
    s.map_values(|f: Finding| f@)
}

/// Result of a scan.
#[derive(Debug, Clone)]
pub struct Report {
    /// All findings, sorted by file then line.
    pub findings: Vec<Finding>,
}

impl Default for Report {
    fn default() -> (r: Report)
        ensures
            r.findings@.len() == 0,
    {
        Report { findings: Vec::new() }
    }
}

/// The number of findings in `s` at exactly `level`.
pub open spec fn count_level(s: Seq<Finding>, level: Level) -> nat {
    s.filter(|f: Finding| f.level == level).len()
}

/// Whether some finding in `s` is at or above `level`.
pub open spec fn any_at_least(s: Seq<Finding>, level: Level) -> bool {
    exists|i: int| 0 <= i < s.len() && rank(#[trigger] s[i].level) >= rank(level)
}

proof fn lemma_count_step(s: Seq<Finding>, i: int, level: Level)
    requires
        0 <= i < s.len(),
    ensures
        count_level(s.take(i + 1), level) == count_level(s.take(i), level) + (if s[i].level
            == level {
            1int
        } else {
            0int
        }),
{
    reveal(Seq::filter);
    assert(s.take(i + 1).drop_last() == s.take(i));
}

impl Report {
    /// Number of findings at exactly the given level.
    pub fn count(&self, level: Level) -> (n: usize)
        ensures
            n == count_level(self.findings@, level),
    {
        let mut n: usize = 0;
        let mut i: usize = 0;
        assert(self.findings@.take(0) == Seq::<Finding>::empty());
        reveal(Seq::filter);
        while i < self.findings.len()
            invariant
                i <= self.findings@.len(),
                n == count_level(self.findings@.take(i as int), level),
                n <= i,
            decreases self.findings@.len() - i,
        {
            proof {
                lemma_count_step(self.findings@, i as int, level);
            }
            if self.findings[i].level == level {
                n = n + 1;
            }
            i = i + 1;
        }
        assert(self.findings@.take(i as int) == self.findings@);
        n
    }

    /// Whether any finding is at or above the given level.
    pub fn has_at_least(&self, level: Level) -> (b: bool)
        ensures
            b == any_at_least(self.findings@, level),
    {
        let mut i: usize = 0;
        while i < self.findings.len()
            invariant
                i <= self.findings@.len(),
                forall|j: int| 0 <= j < i ==> rank(#[trigger] self.findings@[j].level) < rank(level),
            decreases self.findings@.len() - i,
        {
            if self.findings[i].level >= level {
                return true;
            }
            i = i + 1;
        }
        false
    }
}

proof fn lemma_counts_sum(s: Seq<Finding>)
    ensures
        count_level(s, Level::Info) + count_level(s, Level::Warning) + count_level(s, Level::Error)
            == s.len(),
    decreases s.len(),
{
    reveal(Seq::filter);
    if s.len() > 0 {
        lemma_counts_sum(s.drop_last());
    }
}

/// Every finding has exactly one level, so the per-level counts of a report
/// add up to its number of findings.
pub proof fn lemma_counts_partition(r: Report)
    ensures
        count_level(r.findings@, Level::Info) + count_level(r.findings@, Level::Warning)
            + count_level(r.findings@, Level::Error) == r.findings@.len(),
{
    lemma_counts_sum(r.findings@);
}

proof fn lemma_count_positive(s: Seq<Finding>, level: Level)
    ensures
        count_level(s, level) > 0 <==> exists|i: int| 0 <= i < s.len() && #[trigger] s[i].level == level,
    decreases s.len(),
{
    reveal(Seq::filter);
    if s.len() > 0 {
        lemma_count_positive(s.drop_last(), level);
        if exists|i: int| 0 <= i < s.len() && #[trigger] s[i].level == level {
            let i = choose|i: int| 0 <= i < s.len() && #[trigger] s[i].level == level;
            if i < s.len() - 1 {
                assert(s.drop_last()[i].level == level);
            }
        }
        if exists|i: int| 0 <= i < s.len() - 1 && #[trigger] s.drop_last()[i].level == level {
            let i = choose|i: int| 0 <= i < s.len() - 1 && #[trigger] s.drop_last()[i].level == level;
            assert(s[i].level == level);
        }
    }
}

/// A threshold is met exactly when some finding sits at it or above it:
/// `Error` needs an error, `Warning` a warning or an error, `Info` any finding.
/// In particular a threshold met at one level is met at every lower level.
pub proof fn lemma_threshold_by_counts(r: Report)
    ensures
        any_at_least(r.findings@, Level::Error) <==> count_level(r.findings@, Level::Error) > 0,
        any_at_least(r.findings@, Level::Warning) <==> count_level(r.findings@, Level::Warning)
            + count_level(r.findings@, Level::Error) > 0,
        any_at_least(r.findings@, Level::Info) <==> r.findings@.len() > 0,
        forall|a: Level, b: Level|
            rank(a) <= rank(b) && #[trigger] any_at_least(r.findings@, b) ==> #[trigger] any_at_least(
                r.findings@,
                a,
            ),
{
    let s = r.findings@;
    lemma_count_positive(s, Level::Error);
    lemma_count_positive(s, Level::Warning);
    lemma_counts_sum(s);
    if s.len() > 0 {
        assert(rank(s[0].level) >= rank(Level::Info));
    }
    if any_at_least(s, Level::Error) {
        let i = choose|i: int| 0 <= i < s.len() && rank(#[trigger] s[i].level) >= rank(Level::Error);
        assert(s[i].level == Level::Error);
    }
    if any_at_least(s, Level::Warning) {
        let i = choose|i: int| 0 <= i < s.len() && rank(#[trigger] s[i].level) >= rank(Level::Warning);
        assert(s[i].level == Level::Error || s[i].level == Level::Warning);
    }
    if count_level(s, Level::Error) > 0 {
        let i = choose|i: int| 0 <= i < s.len() && #[trigger] s[i].level == Level::Error;
        assert(rank(s[i].level) >= rank(Level::Warning));
    }
    if count_level(s, Level::Warning) > 0 {
        let i = choose|i: int| 0 <= i < s.len() && #[trigger] s[i].level == Level::Warning;
        assert(rank(s[i].level) >= rank(Level::Warning));
    }
}

} // verus!
