//! The library's own pieces on concrete values: text primitives, file selection,
//! report order, the CI gate, rendering, the SARIF model and rule compilation.

use mcp_herald::gate::{exit_code, FailOn};
use mcp_herald::order::compare_bytes;
use mcp_herald::report::{render, render_rules};
use mcp_herald::rules::{compile_rule, Kind, RuleSpec};
use mcp_herald::sarif::{level_str, sarif_log, INFO_URI};
use mcp_herald::scanner::{compare_findings, is_source_extension, sort_findings, MAX_FILE_BYTES};
use mcp_herald::text::{chars_of, is_whitespace_char, push_decimal, snippet, split_lines, trim_bounds};
use mcp_herald::{compile, finish_report, rules, scan_content, should_scan, Finding, Level, Report};

fn scan(file: &str, content: &str) -> Vec<Finding> {
    let rules = compile().expect("the built-in rules compile");
    let mut out = Vec::new();
    scan_content(file, content, &rules, &mut out);
    out
}

fn finding(file: &str, line: usize, level: Level, rule: &'static str) -> Finding {
    Finding {
        level,
        rule,
        sep: "SEP-1",
        file: file.to_string(),
        line,
        message: "m",
        fix: "f",
        url: "https://example.test",
        snippet: String::new(),
    }
}

#[test]
fn lines_follow_str_lines() {
    for text in ["", "\n", "a", "a\n", "a\r\nb\r", "a\n\nb\r\n", "\r\n\r\n", "x\ry\nz"] {
        let got: Vec<String> = split_lines(&chars_of(text));
        let want: Vec<String> = text.lines().map(|l| l.to_string()).collect();
        assert_eq!(got, want, "lines of {text:?}");
    }
}

#[test]
fn crlf_files_report_the_right_line() {
    let f = scan("w.ts", "// a\r\n// b\r\nthrow e(-32002);\r\n");
    let hit = f.iter().find(|f| f.rule == "spec.error_code").unwrap();
    assert_eq!(hit.line, 3);
    assert_eq!(hit.snippet, "throw e(-32002);");
}

#[test]
fn whitespace_is_the_unicode_set() {
    for c in ['\t', '\n', '\u{0b}', '\u{0c}', '\r', ' ', '\u{85}', '\u{a0}', '\u{1680}', '\u{2000}', '\u{200a}', '\u{2028}', '\u{2029}', '\u{202f}', '\u{205f}', '\u{3000}'] {
        assert!(is_whitespace_char(c), "{c:?} is whitespace");
        assert!(c.is_whitespace());
    }
    for c in ['a', '\u{200b}', '\u{feff}', '_', '\u{0}'] {
        assert!(!is_whitespace_char(c), "{c:?} is not whitespace");
        assert!(!c.is_whitespace());
    }
}

#[test]
fn trim_matches_str_trim() {
    for text in ["", "   ", " a ", "\u{3000}x y\u{a0}", "\tz\r"] {
        let v = chars_of(text);
        let (lo, hi) = trim_bounds(&v);
        let got: String = v[lo..hi].iter().collect();
        assert_eq!(got, text.trim());
    }
}

#[test]
fn snippet_keeps_short_lines_and_caps_long_ones() {
    assert_eq!(snippet("   short   "), "short");
    let exact = "y".repeat(200);
    assert_eq!(snippet(&exact), exact);
    let long = format!("  {}  ", "é".repeat(250));
    let s = snippet(&long);
    assert_eq!(s.chars().count(), 201);
    assert!(s.ends_with('…'));
    assert!(s.starts_with("éé"));
}

#[test]
fn decimal_rendering() {
    for n in [0usize, 7, 10, 99, 100, 12345, usize::MAX] {
        let mut s = String::from("n=");
        push_decimal(&mut s, n);
        assert_eq!(s, format!("n={n}"));
    }
}

#[test]
fn source_extensions_are_case_insensitive() {
    for ext in ["ts", "TS", "Tsx", "py", "rs", "go", "java", "kt", "kts", "rb", "cs", "php", "scala", "swift", "c", "h", "cpp", "HPP", "cc", "mjs", "cjs", "jsx", "js"] {
        assert!(is_source_extension(ext), "{ext} is source");
    }
    for ext in ["md", "txt", "json", "", "tsx2", "yaml", "t"] {
        assert!(!is_source_extension(ext), "{ext} is not source");
    }
}

#[test]
fn should_scan_needs_a_source_file_within_the_size_limit() {
    assert!(should_scan(true, Some("ts"), Some(10)));
    assert!(should_scan(true, Some("ts"), None));
    assert!(should_scan(true, Some("ts"), Some(MAX_FILE_BYTES)));
    assert!(!should_scan(true, Some("ts"), Some(MAX_FILE_BYTES + 1)));
    assert!(!should_scan(false, Some("ts"), Some(10)));
    assert!(!should_scan(true, Some("md"), Some(10)));
    assert!(!should_scan(true, None, Some(10)));
    assert_eq!(MAX_FILE_BYTES, 2 * 1024 * 1024);
}

#[test]
fn report_order_is_file_then_line_then_severity() {
    let mut all = Vec::new();
    all.extend(scan("c_last.ts", "throw e(-32002);\n"));
    all.extend(scan("a_first.ts", "// pad\nthrow e(-32002);\n"));
    all.extend(scan("b_mid.ts", "headers['Mcp-Session-Id'];\n// pad\nthrow e(-32002);\n"));
    let report = finish_report(all);
    let order: Vec<(String, usize)> = report.findings.iter().map(|f| (f.file.clone(), f.line)).collect();
    assert_eq!(
        order,
        vec![
            ("a_first.ts".to_string(), 2),
            ("b_mid.ts".to_string(), 1),
            ("b_mid.ts".to_string(), 3),
            ("c_last.ts".to_string(), 1),
        ]
    );
}

#[test]
fn sort_puts_severe_first_and_is_stable() {
    let mut v = vec![
        finding("b.ts", 1, Level::Info, "r.one"),
        finding("a.ts", 5, Level::Info, "r.two"),
        finding("a.ts", 5, Level::Error, "r.three"),
        finding("a.ts", 5, Level::Info, "r.four"),
        finding("a.ts", 2, Level::Warning, "r.five"),
    ];
    sort_findings(&mut v);
    let rules: Vec<&str> = v.iter().map(|f| f.rule).collect();
    assert_eq!(rules, vec!["r.five", "r.three", "r.two", "r.four", "r.one"]);
}

#[test]
fn file_names_compare_byte_wise() {
    assert!(compare_bytes(b"a", b"b") < 0);
    assert!(compare_bytes(b"ab", b"a") > 0);
    assert_eq!(compare_bytes(b"same", b"same"), 0);
    assert!(compare_bytes(b"Z", b"a") < 0);
    let a = finding("src/x.ts", 1, Level::Info, "r");
    let b = finding("src/x.ts", 1, Level::Error, "r");
    assert_eq!(compare_findings(&b, &a), -1);
    assert_eq!(compare_findings(&a, &a), 0);
}

#[test]
fn exit_code_follows_the_threshold() {
    let warn = Report { findings: scan("w.ts", "headers['Mcp-Session-Id'];") };
    assert_eq!(exit_code(&warn, FailOn::Error), 0);
    assert_eq!(exit_code(&warn, FailOn::Warning), 1);
    assert_eq!(exit_code(&warn, FailOn::Info), 1);
    assert_eq!(exit_code(&warn, FailOn::Never), 0);
    let clean = Report::default();
    assert_eq!(exit_code(&clean, FailOn::Info), 0);
}

#[test]
fn per_level_counts_add_up() {
    let findings = scan(
        "m.ts",
        "throw e(-32002);\nheaders['Mcp-Session-Id'];\n'roots/list'; '2024-11-05'\nWWW-Authenticate: Bearer",
    );
    let r = Report { findings };
    assert_eq!(
        r.count(Level::Error) + r.count(Level::Warning) + r.count(Level::Info),
        r.findings.len()
    );
    assert_eq!(r.findings.len(), 5);
}

#[test]
fn render_lists_findings_by_severity() {
    let findings = vec![
        finding("a.ts", 3, Level::Info, "r.info"),
        Finding { snippet: "x = 1".to_string(), ..finding("b.ts", 12, Level::Error, "r.err") },
    ];
    let out = render(&Report { findings }, "./src");
    let want = "mcp-herald: 2 finding(s) in ./src — 1 error, 0 warning, 1 info\n\n  ERROR (1)\n    b.ts:12 — m\n      fix: f\n      SEP-1 · https://example.test\n      | x = 1\n\n  INFO (1)\n    a.ts:3 — m\n      fix: f\n      SEP-1 · https://example.test\n\n";
    assert_eq!(out, want);
}

#[test]
fn render_of_nothing_is_the_clean_message() {
    assert_eq!(
        render(&Report::default(), "."),
        "mcp-herald: no 2026-07-28 migration issues found in .. [OK]\n"
    );
}

#[test]
fn rules_listing_shape() {
    let out = render_rules();
    assert!(out.starts_with("mcp-herald rules:\n\n  [error] spec.error_code (SEP-2164)\n      "));
    assert_eq!(out.matches("\n\n").count(), rules().len() + 1);
    assert!(out.contains("  [warning] auth.dcr_without_cimd (SEP-991 / spec 2026-07-28)\n"));
}

#[test]
fn sarif_model_dedups_sorts_and_clamps() {
    let findings = vec![
        finding("s.ts", 0, Level::Info, "zz.unknown"),
        finding("s.ts", 4, Level::Error, "spec.error_code"),
        finding("t.ts", 2, Level::Error, "spec.error_code"),
        finding("s.ts", 9, Level::Warning, "deprecated.roots"),
    ];
    let log = sarif_log(&Report { findings });
    let ids: Vec<&str> = log.rules.iter().map(|d| d.id).collect();
    assert_eq!(ids, vec!["deprecated.roots", "spec.error_code", "zz.unknown"]);
    assert_eq!(log.rules[1].level, "error");
    assert_eq!(log.rules[0].level, "warning");
    assert_eq!(log.rules[2].help_uri, INFO_URI);
    assert_eq!(log.rules[2].short_description, "");
    assert_eq!(log.rules[2].level, "warning");
    assert_eq!(log.results.len(), 4);
    assert_eq!(log.results[0].start_line, 1);
    assert_eq!(log.results[0].level, "note");
    assert_eq!(log.results[1].start_line, 4);
    assert_eq!(log.results[1].message, "m [SEP-1] Fix: f");
    assert_eq!(log.results[2].uri, "t.ts");
}

#[test]
fn sarif_levels() {
    assert_eq!(level_str(Level::Error), "error");
    assert_eq!(level_str(Level::Warning), "warning");
    assert_eq!(level_str(Level::Info), "note");
}

#[test]
fn an_invalid_pattern_is_reported_with_its_rule() {
    let spec = RuleSpec {
        id: "test.broken",
        sep: "—",
        level: Level::Info,
        kind: Kind::FilePresentAbsent { present: "ok", absent: "foo(bar" },
        message: "m",
        fix: "f",
        url: "https://example.test",
    };
    let err = compile_rule(spec).expect_err("an unclosed group is refused");
    assert_eq!(err.rule, "test.broken");
    assert_eq!(err.pattern, "foo(bar");
    let good = RuleSpec { kind: Kind::Line("x+"), ..spec };
    let compiled = compile_rule(good).expect("a valid pattern compiles");
    assert_eq!(compiled.spec.id, "test.broken");
}

#[test]
fn a_compiled_pattern_matches_as_the_regex_crate_does() {
    let spec = RuleSpec {
        id: "test.line",
        sep: "—",
        level: Level::Warning,
        kind: Kind::Line(r"(?i)abc\d"),
        message: "m",
        fix: "f",
        url: "https://example.test",
    };
    let rules = vec![compile_rule(spec).expect("valid")];
    let mut out = Vec::new();
    scan_content("p.ts", "xx ABC1\nabc\nabc9", &rules, &mut out);
    let lines: Vec<usize> = out.iter().map(|f| f.line).collect();
    assert_eq!(lines, vec![1, 3]);
}

#[test]
fn level_compares_by_severity() {
    assert_eq!(Level::Error.partial_cmp(&Level::Info), Some(std::cmp::Ordering::Greater));
    assert_eq!(Level::Warning.partial_cmp(&Level::Warning), Some(std::cmp::Ordering::Equal));
    assert!(Level::Info <= Level::Info);
}

#[test]
fn every_file_rule_fires_once_per_file() {
    let src = "WWW-Authenticate: a\nregistration_endpoint: x\nWWW-Authenticate: b\nregistration_endpoint: y\n";
    let f = scan("o.ts", src);
    assert_eq!(f.iter().filter(|f| f.rule == "auth.protected_resource_metadata").count(), 1);
    assert_eq!(f.iter().filter(|f| f.rule == "auth.dcr_without_cimd").count(), 1);
    let dcr = f.iter().find(|f| f.rule == "auth.dcr_without_cimd").unwrap();
    assert_eq!(dcr.line, 2);
    assert_eq!(dcr.level, Level::Warning);
}
