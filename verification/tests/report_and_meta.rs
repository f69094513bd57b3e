//! Report model (`count` / `has_at_least` / empty), the rendered report, and the
//! ruleset's meta-invariants (every rule compiles, ids unique, levels as
//! specified, url and fix present).

use mcp_herald::report::{render, render_rules};
use mcp_herald::rules::Kind;
use mcp_herald::{compile, rules, scan_content, Finding, Level, Report};

fn scan(file: &str, content: &str) -> Vec<Finding> {
    let rules = compile().expect("the built-in rules compile");
    let mut out = Vec::new();
    scan_content(file, content, &rules, &mut out);
    out
}

#[test]
fn clean_report_message() {
    let out = render(&Report::default(), "./src");
    assert!(out.contains("no 2026-07-28 migration issues"));
}

#[test]
fn rules_listing_lists_all_rules() {
    let out = render_rules();
    for r in rules() {
        assert!(out.contains(r.id), "missing {}", r.id);
    }
}

#[test]
fn all_rules_compile() {
    let compiled = compile().expect("the built-in rules compile");
    assert_eq!(compiled.len(), rules().len());
}

#[test]
fn rules_rule_ids_are_unique() {
    let mut seen = std::collections::BTreeSet::new();
    for r in rules() {
        assert!(seen.insert(r.id), "duplicate rule id {}", r.id);
    }
}

#[test]
fn every_rule_has_a_source_url() {
    for r in rules() {
        assert!(r.url.starts_with("https://"), "rule {} lacks a url", r.id);
        assert!(!r.fix.is_empty(), "rule {} lacks a fix", r.id);
    }
}

#[test]
fn empty_report_counts_zero_for_all_levels() {
    let r = Report::default();
    assert_eq!(r.count(Level::Error), 0);
    assert_eq!(r.count(Level::Warning), 0);
    assert_eq!(r.count(Level::Info), 0);
    assert!(!r.has_at_least(Level::Info));
    assert!(!r.has_at_least(Level::Warning));
    assert!(!r.has_at_least(Level::Error));
}

#[test]
fn count_is_per_exact_level() {
    let findings = scan(
        "mix.ts",
        "throw e(-32002);\nheaders['Mcp-Session-Id'];\nconst PV='2024-11-05';",
    );
    let r = Report { findings };
    assert_eq!(r.count(Level::Error), 1, "one -32002");
    assert_eq!(r.count(Level::Warning), 1, "one session header");
    assert_eq!(r.count(Level::Info), 1, "one old version");
}

#[test]
fn has_at_least_is_inclusive_upward() {
    let findings = scan("e.ts", "throw e(-32002);");
    let r = Report { findings };
    assert!(r.has_at_least(Level::Info));
    assert!(r.has_at_least(Level::Warning));
    assert!(r.has_at_least(Level::Error));
}

#[test]
fn has_at_least_info_only_does_not_satisfy_warning() {
    let findings = scan("i.ts", "const PV='2025-03-26';");
    let r = Report { findings };
    assert_eq!(r.count(Level::Info), 1);
    assert!(r.has_at_least(Level::Info));
    assert!(!r.has_at_least(Level::Warning));
    assert!(!r.has_at_least(Level::Error));
}

#[test]
fn has_at_least_warning_not_satisfied_only_by_warnings_for_error() {
    let findings = scan("w.ts", "headers['Mcp-Session-Id'];");
    let r = Report { findings };
    assert!(r.has_at_least(Level::Warning));
    assert!(!r.has_at_least(Level::Error));
}

#[test]
fn level_ordering_is_info_lt_warning_lt_error() {
    assert!(Level::Info < Level::Warning);
    assert!(Level::Warning < Level::Error);
    assert!(Level::Info < Level::Error);
}

#[test]
fn level_labels_are_stable() {
    assert_eq!(Level::Info.label(), "info");
    assert_eq!(Level::Warning.label(), "warning");
    assert_eq!(Level::Error.label(), "error");
}

#[test]
fn all_rules_compile_and_count_matches_specs() {
    let compiled = compile().expect("the built-in rules compile");
    assert_eq!(compiled.len(), rules().len());
    assert_eq!(rules().len(), 8, "expected 8 rules");
}

#[test]
fn report_and_meta_rule_ids_are_unique() {
    let mut seen = std::collections::BTreeSet::new();
    for r in rules() {
        assert!(seen.insert(r.id), "duplicate rule id {}", r.id);
    }
    assert_eq!(seen.len(), rules().len());
}

#[test]
fn the_eight_expected_ids_exist() {
    let ids: std::collections::BTreeSet<&str> = rules().iter().map(|r| r.id).collect();
    for expected in [
        "spec.error_code",
        "transport.stateful_session",
        "deprecated.sampling",
        "deprecated.roots",
        "deprecated.logging",
        "protocol.old_version",
        "auth.protected_resource_metadata",
        "auth.dcr_without_cimd",
    ] {
        assert!(ids.contains(expected), "missing rule id {expected}");
    }
}

#[test]
fn every_rule_has_https_url_and_non_empty_fix_and_message() {
    for r in rules() {
        assert!(
            r.url.starts_with("https://"),
            "rule {} lacks https url",
            r.id
        );
        assert!(!r.fix.is_empty(), "rule {} lacks a fix", r.id);
        assert!(!r.message.is_empty(), "rule {} lacks a message", r.id);
        assert!(!r.sep.is_empty(), "rule {} lacks a sep label", r.id);
    }
}

#[test]
fn rule_levels_match_specification() {
    let table = rules();
    let level_of = |id: &str| table.iter().find(|r| r.id == id).unwrap().level;
    assert_eq!(level_of("spec.error_code"), Level::Error);
    assert_eq!(level_of("transport.stateful_session"), Level::Warning);
    assert_eq!(level_of("deprecated.sampling"), Level::Warning);
    assert_eq!(level_of("deprecated.roots"), Level::Warning);
    assert_eq!(level_of("deprecated.logging"), Level::Warning);
    assert_eq!(level_of("protocol.old_version"), Level::Info);
    assert_eq!(level_of("auth.protected_resource_metadata"), Level::Info);
    assert_eq!(level_of("auth.dcr_without_cimd"), Level::Warning);
}

#[test]
fn exactly_one_error_rule_and_two_file_level_rules() {
    let table = rules();
    let errors = table.iter().filter(|r| r.level == Level::Error).count();
    assert_eq!(errors, 1, "only spec.error_code is Error-level");

    let file_level = table
        .iter()
        .filter(|r| matches!(r.kind, Kind::FilePresentAbsent { .. }))
        .count();
    assert_eq!(
        file_level, 2,
        "the two auth rules are file-level present/absent"
    );
}
