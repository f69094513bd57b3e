//! The CI gate: the process exit code that a report yields under a `--fail-on`
//! threshold.

use crate::finding::{any_at_least, count_level, lemma_threshold_by_counts, Report};
use crate::level::Level;
use vstd::prelude::*;

verus! {

/// The severity at which a lint run fails, or `Never`.
#[derive(Debug, Clone, Copy, PartialEq, Eq, Structural)]
pub enum FailOn {
    Error,
    Warning,
    Info,
    Never,
}

/// The level a threshold stands for, if any.
pub open spec fn threshold_of(fail_on: FailOn) -> Option<Level> {
    match fail_on {
        FailOn::Error => Some(Level::Error),
        FailOn::Warning => Some(Level::Warning),
        FailOn::Info => Some(Level::Info),
        FailOn::Never => None,
    }
}

/// The exit code of a lint run under `fail_on`: 1 when a finding at or above
/// the threshold is present, 0 otherwise (always 0 for `Never`).
pub open spec fn gate_code(report: Report, fail_on: FailOn) -> i32 {
    match threshold_of(fail_on) {
        Some(level) => if any_at_least(report.findings@, level) {
            1i32
        } else {
            0i32
        },
        None => 0i32,
    }
}

/// The exit code of a lint run: 1 when a finding at or above the threshold is
/// present, 0 otherwise (always 0 for `Never`).
pub fn exit_code(report: &Report, fail_on: FailOn) -> (code: i32)
    ensures
        code == gate_code(*report, fail_on),
{
    let threshold = match fail_on {
        FailOn::Error => Level::Error,
        FailOn::Warning => Level::Warning,
        FailOn::Info => Level::Info,
        FailOn::Never => {
            return 0;
        },
    };
    if report.has_at_least(threshold) {
        1
    } else {
        0
    }
}

/// What each `--fail-on` setting fails on: `error` fails exactly when the
/// report holds an error, `warning` exactly when it holds a warning or an
/// error, `info` exactly when it holds any finding at all, and `never` never
/// fails. The exit code is always 0 or 1.
pub proof fn lemma_gate_thresholds(r: Report)
    ensures
        gate_code(r, FailOn::Error) == 1 <==> count_level(r.findings@, Level::Error) > 0,
        gate_code(r, FailOn::Warning) == 1 <==> count_level(r.findings@, Level::Warning) > 0
            || count_level(r.findings@, Level::Error) > 0,
        gate_code(r, FailOn::Info) == 1 <==> r.findings@.len() > 0,
        gate_code(r, FailOn::Never) == 0,
        forall|f: FailOn| #[trigger] gate_code(r, f) == 0 || gate_code(r, f) == 1,
{
    lemma_threshold_by_counts(r);
}

/// A lower threshold fails whenever a higher one does: failing under `error`
/// implies failing under `warning`, which implies failing under `info`.
pub proof fn lemma_gate_monotone(r: Report)
    ensures
        gate_code(r, FailOn::Error) == 1 ==> gate_code(r, FailOn::Warning) == 1,
        gate_code(r, FailOn::Warning) == 1 ==> gate_code(r, FailOn::Info) == 1,
{
    lemma_threshold_by_counts(r);
    crate::finding::lemma_counts_partition(r);
}

} // verus!
