# mcp-herald

A static migration linter for the MCP 2026-07-28 spec, written in Verus.

- `src/` is the verified library: the ruleset (`rules.rs`), the scanner that
  applies it to a file's text (`scanner.rs`), the report model and CI gate
  (`finding.rs`, `gate.rs`), the human and SARIF renderings (`report.rs`,
  `sarif.rs`), and the text primitives they rest on (`text.rs`, `order.rs`).
  Regular-expression matching is done by the `regex` crate behind the two
  trusted functions of `pattern.rs`.
- `app/main.rs` is the command-line program: argument parsing, walking the
  source tree, reading files and printing.
- `tests/` exercises the library on concrete inputs.
