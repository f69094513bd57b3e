//! # mcp-herald
//!
//! A static migration linter for the MCP 2026-07-28 spec. Point it at a
//! server's source and it reports the breaking-change signatures to address for
//! the new spec: the retired `-32002` error code, stateful-session reliance,
//! deprecated roots / sampling / logging, OAuth without Protected Resource
//! Metadata, and Dynamic Client Registration without Client ID Metadata
//! Documents.
//!
//! Every finding links the SEP/RFC it derives from: it is a prompt to verify,
//! not a verdict. [`scanner::scan_content`] is pure (no filesystem), and its
//! contract states exactly which findings a file yields.

pub mod finding;
pub mod gate;
pub mod level;
pub mod order;
pub mod pattern;
pub mod report;
pub mod rules;
pub mod sarif;
pub mod scanner;
pub mod text;

pub use finding::{Finding, Report};
pub use level::Level;
pub use rules::{compile, rules, CompiledRule, Kind, RuleSpec};
pub use scanner::{finish_report, scan_content, should_scan};
