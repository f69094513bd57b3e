//! Human-readable terminal rendering.

use crate::finding::{count_level, views, Finding, FindingView, Report};
use crate::level::{label_of, Level};
use crate::rules::{rule_table, rules, RuleSpec};
use crate::text::{decimal, push_decimal};
use vstd::prelude::*;
use vstd::string::*;

verus! {

/// The heading of a severity group: the level's label in upper case.
pub open spec fn heading_of(level: Level) -> Seq<char> {
    match level {
        Level::Info => "INFO"@,
        Level::Warning => "WARNING"@,
        Level::Error => "ERROR"@,
    }
}

/// The findings of `s` at exactly `level`, in order.
pub open spec fn level_group(s: Seq<FindingView>, level: Level) -> Seq<FindingView> {
    s.filter(|f: FindingView| f.level == level)
}

/// The lines that describe one finding.
pub open spec fn finding_block(f: FindingView) -> Seq<char> {
    "    "@ + f.file + ":"@ + decimal(f.line as nat) + " — "@ + f.message + "\n"@ + "      fix: "@
        + f.fix + "\n"@ + "      "@ + f.sep + " · "@ + f.url + "\n"@ + if f.snippet.len() > 0 {
        "      | "@ + f.snippet + "\n"@
    } else {
        seq![]
    }
}

/// The blocks of all findings of `s`, in order.
pub open spec fn blocks(s: Seq<FindingView>) -> Seq<char>
    decreases s.len(),
{
    if s.len() == 0 {
        seq![]
    } else {
        blocks(s.drop_last()) + finding_block(s.last())
    }
}

/// The section of the report for one level: nothing when no finding is at
/// that level, else a heading with the count, the blocks, and a blank line.
pub open spec fn group_text(s: Seq<FindingView>, level: Level) -> Seq<char> {
    let g = level_group(s, level);
    if g.len() == 0 {
        seq![]
    } else {
        "  "@ + heading_of(level) + " ("@ + decimal(g.len()) + ")\n"@ + blocks(g) + "\n"@
    }
}

/// The full human report of findings `s` for the scanned `root`: a clean
/// message when there is none, else a summary line with the per-level counts
/// followed by the Error, Warning and Info sections.
pub open spec fn render_text(s: Seq<FindingView>, root: Seq<char>) -> Seq<char> {
    if s.len() == 0 {
        "mcp-herald: no 2026-07-28 migration issues found in "@ + root + ". [OK]\n"@
    } else {
        "mcp-herald: "@ + decimal(s.len()) + " finding(s) in "@ + root + " — "@ + decimal(
            level_group(s, Level::Error).len(),
        ) + " error, "@ + decimal(level_group(s, Level::Warning).len()) + " warning, "@ + decimal(
            level_group(s, Level::Info).len(),
        ) + " info\n\n"@ + group_text(s, Level::Error) + group_text(s, Level::Warning)
            + group_text(s, Level::Info)
    }
}

proof fn lemma_count_is_group_len(s: Seq<Finding>, level: Level)
    ensures
        count_level(s, level) == level_group(views(s), level).len(),
    decreases s.len(),
{
    reveal(Seq::filter);
    if s.len() > 0 {
        lemma_count_is_group_len(s.drop_last(), level);
        assert(views(s.drop_last()) == views(s).drop_last());
    }
}

proof fn lemma_group_step(s: Seq<FindingView>, i: int, level: Level)
    requires
        0 <= i < s.len(),
    ensures
        level_group(s.take(i + 1), level) == level_group(s.take(i), level) + (if s[i].level == level {
            seq![s[i]]
        } else {
            seq![]
        }),
{
    reveal(Seq::filter);
    assert(s.take(i + 1).drop_last() == s.take(i));
}

fn heading(level: Level) -> (s: &'static str)
    ensures
        s@ == heading_of(level),
{
    match level {
        Level::Info => "INFO",
        Level::Warning => "WARNING",
        Level::Error => "ERROR",
    }
}

fn push_block(out: &mut String, f: &Finding)
    ensures
        final(out)@ == old(out)@ + finding_block(f@),
{
    let ghost start = out@;
    out.append("    ");
    out.append(f.file.as_str());
    out.append(":");
    push_decimal(out, f.line);
    out.append(" — ");
    out.append(f.message);
    out.append("\n");
    out.append("      fix: ");
    out.append(f.fix);
    out.append("\n");
    out.append("      ");
    out.append(f.sep);
    out.append(" · ");
    out.append(f.url);
    out.append("\n");
    let ghost head = "    "@ + f@.file + ":"@ + decimal(f.line as nat) + " — "@ + f@.message + "\n"@
        + "      fix: "@ + f@.fix + "\n"@ + "      "@ + f@.sep + " · "@ + f@.url + "\n"@;
    assert(out@ =~= start + head);
    if !f.snippet.as_str().is_empty() {
        out.append("      | ");
        out.append(f.snippet.as_str());
        out.append("\n");
        assert(out@ =~= start + (head + ("      | "@ + f@.snippet + "\n"@)));
    } else {
        assert(out@ =~= start + (head + Seq::<char>::empty()));
    }
}

fn push_group(out: &mut String, findings: &Vec<Finding>, level: Level)
    ensures
        final(out)@ == old(out)@ + group_text(views(findings@), level),
{
    let ghost s = views(findings@);
    let mut n: usize = 0;
    let mut i: usize = 0;
    assert(s.take(0) == Seq::<FindingView>::empty());
    reveal(Seq::filter);
    while i < findings.len()
        invariant
            s == views(findings@),
            i <= findings@.len(),
            n == level_group(s.take(i as int), level).len(),
            n <= i,
        decreases findings@.len() - i,
    {
        proof {
            lemma_group_step(s, i as int, level);
        }
        if findings[i].level == level {
            n = n + 1;
        }
        i = i + 1;
    }
    assert(s.take(s.len() as int) == s);
    if n == 0 {
        return;
    }
    out.append("  ");
    out.append(heading(level));
    out.append(" (");
    push_decimal(out, n);
    out.append(")\n");
    let ghost before = out@;
    let mut i: usize = 0;
    while i < findings.len()
        invariant
            s == views(findings@),
            i <= findings@.len(),
            out@ == before + blocks(level_group(s.take(i as int), level)),
        decreases findings@.len() - i,
    {
        proof {
            lemma_group_step(s, i as int, level);
        }
        if findings[i].level == level {
            let ghost prev = out@;
            push_block(out, &findings[i]);
            let ghost g = level_group(s.take(i as int), level);
            let ghost t = g.push(s[i as int]);
            assert(t.drop_last() == g);
            assert(t.last() == s[i as int]);
            assert(blocks(t) == blocks(g) + finding_block(s[i as int]));
            assert(out@ =~= before + (blocks(g) + finding_block(s[i as int])));
            assert(level_group(s.take(i + 1), level) == t);
        } else {
            let ghost g = level_group(s.take(i as int), level);
            assert(g + Seq::<FindingView>::empty() == g);
        }
        i = i + 1;
    }
    out.append("\n");
}

/// Render a scan report grouped by severity, most severe first, with fixes and
/// sources.
pub fn render(report: &Report, root: &str) -> (out: String)
    ensures
        out@ == render_text(views(report.findings@), root@),
{
    let mut out = String::new();
    if report.findings.len() == 0 {
        out.append("mcp-herald: no 2026-07-28 migration issues found in ");
        out.append(root);
        out.append(". [OK]\n");
        return out;
    }
    let errors = report.count(Level::Error);
    let warnings = report.count(Level::Warning);
    let infos = report.count(Level::Info);
    proof {
        lemma_count_is_group_len(report.findings@, Level::Error);
        lemma_count_is_group_len(report.findings@, Level::Warning);
        lemma_count_is_group_len(report.findings@, Level::Info);
    }
    out.append("mcp-herald: ");
    push_decimal(&mut out, report.findings.len());
    out.append(" finding(s) in ");
    out.append(root);
    out.append(" — ");
    push_decimal(&mut out, errors);
    out.append(" error, ");
    push_decimal(&mut out, warnings);
    out.append(" warning, ");
    push_decimal(&mut out, infos);
    out.append(" info\n\n");
    push_group(&mut out, &report.findings, Level::Error);
    push_group(&mut out, &report.findings, Level::Warning);
    push_group(&mut out, &report.findings, Level::Info);
    out
}

} // verus!

verus! {

/// The entry of one rule in the ruleset listing.
pub open spec fn rule_entry(r: RuleSpec) -> Seq<char> {
    "  ["@ + label_of(r.level) + "] "@ + r.id@ + " ("@ + r.sep@ + ")\n      "@ + r.message@
        + "\n      "@ + r.url@ + "\n\n"@
}

/// The entries of all rules of `t`, in order.
pub open spec fn rule_entries(t: Seq<RuleSpec>) -> Seq<char>
    decreases t.len(),
{
    if t.len() == 0 {
        seq![]
    } else {
        rule_entries(t.drop_last()) + rule_entry(t.last())
    }
}

/// The ruleset listing.
pub open spec fn rules_text() -> Seq<char> {
    "mcp-herald rules:\n\n"@ + rule_entries(rule_table())
}

fn push_rule(out: &mut String, r: &RuleSpec)
    ensures
        final(out)@ == old(out)@ + rule_entry(*r),
{
    let ghost start = out@;
    out.append("  [");
    out.append(r.level.label());
    out.append("] ");
    out.append(r.id);
    out.append(" (");
    out.append(r.sep);
    out.append(")\n      ");
    out.append(r.message);
    out.append("\n      ");
    out.append(r.url);
    out.append("\n\n");
    assert(out@ =~= start + rule_entry(*r));
}

/// Render the full ruleset (for the `rules` command).
pub fn render_rules() -> (out: String)
    ensures
        out@ == rules_text(),
{
    let table = rules();
    let mut out = String::new();
    out.append("mcp-herald rules:\n\n");
    let ghost head = out@;
    let mut i: usize = 0;
    assert(table@.take(0) == Seq::<RuleSpec>::empty());
    while i < table.len()
        invariant
            table@ == rule_table(),
            i <= table@.len(),
            out@ == head + rule_entries(table@.take(i as int)),
        decreases table@.len() - i,
    {
        push_rule(&mut out, &table[i]);
        let ghost t = table@.take(i + 1);
        assert(t.drop_last() == table@.take(i as int));
        assert(out@ =~= head + rule_entries(t));
        i = i + 1;
    }
    assert(table@.take(table@.len() as int) == table@);
    out
}

/// Whether `needle` occurs as a contiguous piece of `hay`.
pub open spec fn occurs_in(needle: Seq<char>, hay: Seq<char>) -> bool {
    exists|k: int| 0 <= k && k + needle.len() <= hay.len() && #[trigger] hay.subrange(k, k + needle.len()) == needle
}

proof fn lemma_entries_hold_ids(t: Seq<RuleSpec>, i: int)
    requires
        0 <= i < t.len(),
    ensures
        occurs_in(t[i].id@, rule_entries(t)),
    decreases t.len(),
{
    let e = rule_entries(t);
    if i < t.len() - 1 {
        lemma_entries_hold_ids(t.drop_last(), i);
        let prev = rule_entries(t.drop_last());
        let k = choose|k: int|
            0 <= k && k + t[i].id@.len() <= prev.len() && #[trigger] prev.subrange(k, k + t[i].id@.len())
                == t[i].id@;
        assert(e.subrange(k, k + t[i].id@.len()) =~= prev.subrange(k, k + t[i].id@.len()));
    } else {
        let prev = rule_entries(t.drop_last());
        let r = t.last();
        let pre = "  ["@ + label_of(r.level) + "] "@;
        let k: int = (prev.len() + pre.len()) as int;
        assert(rule_entry(r) =~= pre + r.id@ + (" ("@ + r.sep@ + ")\n      "@ + r.message@
            + "\n      "@ + r.url@ + "\n\n"@));
        assert(e.subrange(k, k + r.id@.len()) =~= r.id@);
    }
}

/// The ruleset listing names every rule of the ruleset by its id.
pub proof fn lemma_listing_names_every_rule()
    ensures
        forall|i: int| 0 <= i < rule_table().len() ==> occurs_in(#[trigger] rule_table()[i].id@, rules_text()),
{
    assert forall|i: int| 0 <= i < rule_table().len() implies occurs_in(#[trigger] rule_table()[i].id@, rules_text()) by {
        lemma_entries_hold_ids(rule_table(), i);
        let e = rule_entries(rule_table());
        let id = rule_table()[i].id@;
        let h = "mcp-herald rules:\n\n"@;
        let k = choose|k: int| 0 <= k && k + id.len() <= e.len() && #[trigger] e.subrange(k, k + id.len()) == id;
        assert(rules_text().subrange(h.len() + k, h.len() + k + id.len()) =~= id);
        assert(0 <= h.len() + k);
    }
}

proof fn lemma_entries_hold_heads(t: Seq<RuleSpec>, i: int)
    requires
        0 <= i < t.len(),
    ensures
        occurs_in(
            "  ["@ + label_of(t[i].level) + "] "@ + t[i].id@ + " ("@ + t[i].sep@ + ")"@,
            rule_entries(t),
        ),
    decreases t.len(),
{
    let e = rule_entries(t);
    let head = "  ["@ + label_of(t[i].level) + "] "@ + t[i].id@ + " ("@ + t[i].sep@ + ")"@;
    if i < t.len() - 1 {
        lemma_entries_hold_heads(t.drop_last(), i);
        let prev = rule_entries(t.drop_last());
        assert(t.drop_last()[i] == t[i]);
        let k = choose|k: int|
            0 <= k && k + head.len() <= prev.len() && #[trigger] prev.subrange(k, k + head.len()) == head;
        assert(e.subrange(k, k + head.len()) =~= prev.subrange(k, k + head.len()));
    } else {
        let prev = rule_entries(t.drop_last());
        let r = t.last();
        reveal_strlit(")");
        reveal_strlit(")\n      ");
        reveal_strlit("\n      ");
        assert(")\n      "@ =~= ")"@ + "\n      "@);
        assert(rule_entry(r) =~= head + ("\n      "@ + r.message@ + "\n      "@ + r.url@ + "\n\n"@));
        let k: int = prev.len() as int;
        assert(e.subrange(k, k + head.len()) =~= head);
    }
}

/// Each rule's entry in the listing shows, in this order, its level label in
/// brackets, its id, and its source in parentheses:
/// `  [<label of its level>] <id> (<source>)`.
pub proof fn lemma_listing_shows_each_rule()
    ensures
        forall|i: int|
            0 <= i < rule_table().len() ==> occurs_in(
                "  ["@ + label_of(#[trigger] rule_table()[i].level) + "] "@ + rule_table()[i].id@ + " ("@
                    + rule_table()[i].sep@ + ")"@,
                rules_text(),
            ),
{
    assert forall|i: int| 0 <= i < rule_table().len() implies occurs_in(
        "  ["@ + label_of(#[trigger] rule_table()[i].level) + "] "@ + rule_table()[i].id@ + " ("@
            + rule_table()[i].sep@ + ")"@,
        rules_text(),
    ) by {
        let t = rule_table();
        lemma_entries_hold_heads(t, i);
        let e = rule_entries(t);
        let head = "  ["@ + label_of(t[i].level) + "] "@ + t[i].id@ + " ("@ + t[i].sep@ + ")"@;
        let h = "mcp-herald rules:\n\n"@;
        let k = choose|k: int| 0 <= k && k + head.len() <= e.len() && #[trigger] e.subrange(k, k + head.len()) == head;
        assert(rules_text().subrange(h.len() + k, h.len() + k + head.len()) =~= head);
        assert(0 <= h.len() + k);
    }
}

} // verus!

verus! {

/// `c` with ASCII lower-case letters mapped to upper case.
pub open spec fn ascii_upper(c: char) -> char {
    if 'a' <= c <= 'z' {
        ((c as u32) - 32) as char
    } else {
        c
    }
}

/// The heading of each severity section is the level's label in upper case.
pub proof fn lemma_heading_is_upper_label(level: Level)
    ensures
        heading_of(level) == label_of(level).map_values(|c: char| ascii_upper(c)),
{
    reveal_strlit("INFO");
    reveal_strlit("WARNING");
    reveal_strlit("ERROR");
    reveal_strlit("info");
    reveal_strlit("warning");
    reveal_strlit("error");
    assert(heading_of(level) =~= label_of(level).map_values(|c: char| ascii_upper(c)));
}

} // verus!

verus! {

/// The summary line of a rendered report: for a report with findings, the
/// text starts with the number of findings, the scanned root, and the number
/// of error, warning and info findings in that order, each counted over the
/// report; for an empty report it is the clean message alone.
pub proof fn lemma_summary_line(r: Report, root: Seq<char>)
    ensures
        r.findings@.len() > 0 ==> ("mcp-herald: "@ + decimal(r.findings@.len()) + " finding(s) in "@ + root
            + " — "@ + decimal(count_level(r.findings@, Level::Error)) + " error, "@ + decimal(
            count_level(r.findings@, Level::Warning),
        ) + " warning, "@ + decimal(count_level(r.findings@, Level::Info)) + " info\n"@).is_prefix_of(
            render_text(views(r.findings@), root),
        ),
        r.findings@.len() == 0 ==> render_text(views(r.findings@), root)
            == "mcp-herald: no 2026-07-28 migration issues found in "@ + root + ". [OK]\n"@,
{
    lemma_count_is_group_len(r.findings@, Level::Error);
    lemma_count_is_group_len(r.findings@, Level::Warning);
    lemma_count_is_group_len(r.findings@, Level::Info);
    let s = views(r.findings@);
    assert(s.len() == r.findings@.len());
    if s.len() > 0 {
        let head = "mcp-herald: "@ + decimal(s.len()) + " finding(s) in "@ + root + " — "@ + decimal(
            count_level(r.findings@, Level::Error),
        ) + " error, "@ + decimal(count_level(r.findings@, Level::Warning)) + " warning, "@ + decimal(
            count_level(r.findings@, Level::Info),
        ) + " info\n"@;
        reveal_strlit(" info\n");
        reveal_strlit(" info\n\n");
        reveal_strlit("\n");
        assert(" info\n\n"@ =~= " info\n"@ + "\n"@);
        let rest = "\n"@ + group_text(s, Level::Error) + group_text(s, Level::Warning) + group_text(s, Level::Info);
        assert(render_text(s, root) =~= head + rest);
    }
}

/// After the summary line and a blank line, a rendered report holds one
/// section per level that has findings, errors first, then warnings, then
/// info: each opens with the level's heading and its number of findings, lists
/// the blocks of the findings at that level in report order, and ends with a
/// blank line. A level without findings gets no section.
pub proof fn lemma_render_sections(r: Report, root: Seq<char>)
    requires
        r.findings@.len() > 0,
    ensures
        ({
            let s = views(r.findings@);
            let section = |level: Level|
                if count_level(r.findings@, level) == 0 {
                    Seq::<char>::empty()
                } else {
                    "  "@ + heading_of(level) + " ("@ + decimal(count_level(r.findings@, level)) + ")\n"@
                        + blocks(s.filter(|f: FindingView| f.level == level)) + "\n"@
                };
            render_text(s, root) == "mcp-herald: "@ + decimal(r.findings@.len()) + " finding(s) in "@ + root
                + " — "@ + decimal(count_level(r.findings@, Level::Error)) + " error, "@ + decimal(
                count_level(r.findings@, Level::Warning),
            ) + " warning, "@ + decimal(count_level(r.findings@, Level::Info)) + " info\n"@ + "\n"@
                + section(Level::Error) + section(Level::Warning) + section(Level::Info)
        }),
{
    lemma_count_is_group_len(r.findings@, Level::Error);
    lemma_count_is_group_len(r.findings@, Level::Warning);
    lemma_count_is_group_len(r.findings@, Level::Info);
    let s = views(r.findings@);
    assert(s.len() == r.findings@.len());
    reveal_strlit(" info\n");
    reveal_strlit(" info\n\n");
    reveal_strlit("\n");
    assert(" info\n\n"@ =~= " info\n"@ + "\n"@);
    let head = "mcp-herald: "@ + decimal(s.len()) + " finding(s) in "@ + root + " — "@ + decimal(
        count_level(r.findings@, Level::Error),
    ) + " error, "@ + decimal(count_level(r.findings@, Level::Warning)) + " warning, "@ + decimal(
        count_level(r.findings@, Level::Info),
    ) + " info\n"@;
    assert(render_text(s, root) =~= head + "\n"@ + group_text(s, Level::Error) + group_text(s, Level::Warning)
        + group_text(s, Level::Info));
}

/// The three per-level counts in the summary line of a report add up to its
/// number of findings.
pub proof fn lemma_summary_counts_add_up(r: Report)
    ensures
        level_group(views(r.findings@), Level::Error).len() + level_group(
            views(r.findings@),
            Level::Warning,
        ).len() + level_group(views(r.findings@), Level::Info).len() == views(r.findings@).len(),
{
    lemma_count_is_group_len(r.findings@, Level::Error);
    lemma_count_is_group_len(r.findings@, Level::Warning);
    lemma_count_is_group_len(r.findings@, Level::Info);
    crate::finding::lemma_counts_partition(r);
}

} // verus!
