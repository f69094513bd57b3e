//! Source scanner: apply the compiled rules to a file's content, and order the
//! findings of a whole scan.
//!
//! Walking a directory tree and reading files is done by the caller; this
//! module decides which files are scanned and what each one reports.

use crate::finding::{views, Finding, FindingView, Report};
use crate::order::{compare_bytes, finding_order, key_of, lemma_finding_order, same_key, sorted_findings};
use crate::pattern::regex_is_match;
use crate::rules::{compiled_from, lemma_compiled_ids_distinct, rule_table, CompiledKind, CompiledRule, Level};
use crate::text::{chars_of, lines_of, snippet, snippet_of, split_lines};
use vstd::prelude::*;

verus! {

/// The finding that rule `cr` reports for `file` at `line`.
pub open spec fn finding_of(cr: CompiledRule, file: Seq<char>, line: usize, snippet: Seq<char>) -> FindingView {
    FindingView {
        level: cr.spec.level,
        rule: cr.spec.id@,
        sep: cr.spec.sep@,
        file,
        line,
        message: cr.spec.message@,
        fix: cr.spec.fix@,
        url: cr.spec.url@,
        snippet,
    }
}

/// The findings of the per-line rules among `rules` on one line, numbered `n`,
/// in rule order.
pub open spec fn line_hits(rules: Seq<CompiledRule>, file: Seq<char>, line: Seq<char>, n: usize) -> Seq<FindingView>
    decreases rules.len(),
{
    if rules.len() == 0 {
        seq![]
    } else {
        line_hits(rules.drop_last(), file, line, n) + match rules.last().kind {
            CompiledKind::Line(p) => if regex_is_match(p@, line) {
                seq![finding_of(rules.last(), file, n, snippet_of(line))]
            } else {
                seq![]
            },
            _ => seq![],
        }
    }
}

/// The per-line findings of a whole file: line by line, and on each line rule
/// by rule. Lines are numbered from 1.
pub open spec fn line_pass(rules: Seq<CompiledRule>, file: Seq<char>, lines: Seq<Seq<char>>) -> Seq<FindingView>
    decreases lines.len(),
{
    if lines.len() == 0 {
        seq![]
    } else {
        line_pass(rules, file, lines.drop_last()) + line_hits(
            rules,
            file,
            lines.last(),
            lines.len() as usize,
        )
    }
}

/// The 1-based number of the first line that `pattern` matches, or 1 when it
/// matches none.
#[verifier::opaque]
pub open spec fn reported_line(pattern: Seq<char>, lines: Seq<Seq<char>>) -> nat {
    if exists|i: int| 0 <= i < lines.len() && regex_is_match(pattern, #[trigger] lines[i]) {
        ((choose|i: int|
            0 <= i < lines.len() && regex_is_match(pattern, #[trigger] lines[i]) && forall|j: int|
                0 <= j < i ==> !regex_is_match(pattern, #[trigger] lines[j])) + 1) as nat
    } else {
        1
    }
}

/// The findings of the file-level rules among `rules`, in rule order: a rule
/// fires once when its `present` pattern matches the content and its `absent`
/// pattern does not, at the first line that `present` matches, with no snippet.
pub open spec fn file_hits(
    rules: Seq<CompiledRule>,
    file: Seq<char>,
    content: Seq<char>,
    lines: Seq<Seq<char>>,
) -> Seq<FindingView>
    decreases rules.len(),
{
    if rules.len() == 0 {
        seq![]
    } else {
        file_hits(rules.drop_last(), file, content, lines) + match rules.last().kind {
            CompiledKind::FilePresentAbsent { present, absent } => if regex_is_match(
                present@,
                content,
            ) && !regex_is_match(absent@, content) {
                seq![finding_of(rules.last(), file, reported_line(present@, lines) as usize, seq![])]
            } else {
                seq![]
            },
            _ => seq![],
        }
    }
}

/// Everything a scan of one file reports: the per-line findings, then the
/// file-level ones.
pub open spec fn scan_spec(rules: Seq<CompiledRule>, file: Seq<char>, content: Seq<char>) -> Seq<FindingView> {
    line_pass(rules, file, lines_of(content)) + file_hits(rules, file, content, lines_of(content))
}

/// Build the finding that `cr` reports for `file` at `line`.
pub fn finding(cr: &CompiledRule, file: &str, line: usize, snippet: String) -> (f: Finding)
    ensures
        f@ == finding_of(*cr, file@, line, snippet@),
{
    broadcast use vstd::string::group_string_axioms;

    Finding {
        level: cr.spec.level,
        rule: cr.spec.id,
        sep: cr.spec.sep,
        file: file.to_string(),
        line,
        message: cr.spec.message,
        fix: cr.spec.fix,
        url: cr.spec.url,
        snippet,
    }
}

/// The 0-based index of the first of `lines` that `p` matches, if any.
fn first_matching_line(p: &crate::pattern::Pattern, lines: &Vec<String>) -> (r: Option<usize>)
    ensures
        match r {
            Some(i) => i < lines.len() && regex_is_match(p@, lines@[i as int]@) && forall|j: int|
                0 <= j < i ==> !regex_is_match(p@, #[trigger] lines@[j]@),
            None => forall|j: int| 0 <= j < lines@.len() ==> !regex_is_match(p@, #[trigger] lines@[j]@),
        },
{
    let mut i: usize = 0;
    while i < lines.len()
        invariant
            i <= lines@.len(),
            forall|j: int| 0 <= j < i ==> !regex_is_match(p@, #[trigger] lines@[j]@),
        decreases lines@.len() - i,
    {
        if p.is_match(lines[i].as_str()) {
            return Some(i);
        }
        i = i + 1;
    }
    None
}

/// Append the per-line findings of one line, numbered `n`.
fn scan_line(file: &str, line: &str, n: usize, rules: &[CompiledRule], out: &mut Vec<Finding>)
    ensures
        views(final(out)@) == views(old(out)@) + line_hits(rules@, file@, line@, n),
{
    let ghost before = views(out@);
    let mut r: usize = 0;
    while r < rules.len()
        invariant
            r <= rules@.len(),
            views(out@) == before + line_hits(rules@.take(r as int), file@, line@, n),
        decreases rules@.len() - r,
    {
        let ghost prev = views(out@);
        assert(rules@.take(r + 1).drop_last() == rules@.take(r as int));
        match &rules[r].kind {
            CompiledKind::Line(re) => {
                if re.is_match(line) {
                    let f = finding(&rules[r], file, n, snippet(line));
                    out.push(f);
                    assert(views(out@) == prev.push(f@));
                }
            },
            _ => {},
        }
        r = r + 1;
    }
    assert(rules@.take(rules@.len() as int) == rules@);
}

/// The reported line of a file-level finding whose `present` pattern is `p`.
fn file_line(p: &crate::pattern::Pattern, lines: &Vec<String>, ls: Ghost<Seq<Seq<char>>>) -> (n: usize)
    requires
        lines@.len() == ls@.len(),
        forall|i: int| 0 <= i < lines@.len() ==> #[trigger] lines@[i]@ == ls@[i],
    ensures
        n == reported_line(p@, ls@),
{
    reveal(reported_line);
    match first_matching_line(p, lines) {
        Some(i) => {
            proof {
                assert(regex_is_match(p@, ls@[i as int]));
                assert forall|j: int| 0 <= j < i implies !regex_is_match(p@, #[trigger] ls@[j]) by {
                    assert(ls@[j] == lines@[j]@);
                }
                let c = choose|k: int|
                    0 <= k < ls@.len() && regex_is_match(p@, #[trigger] ls@[k]) && forall|j: int|
                        0 <= j < k ==> !regex_is_match(p@, #[trigger] ls@[j]);
                if c < i {
                    assert(ls@[c] == lines@[c]@);
                }
                if c > i {
                    assert(!regex_is_match(p@, ls@[i as int]));
                }
            }
            i + 1
        },
        None => {
            proof {
                assert forall|k: int| 0 <= k < ls@.len() implies !regex_is_match(p@, #[trigger] ls@[k]) by {
                    assert(ls@[k] == lines@[k]@);
                }
            }
            1
        },
    }
}

/// Append the file-level findings of one file.
fn scan_file_level(
    file: &str,
    content: &str,
    lines: &Vec<String>,
    ls: Ghost<Seq<Seq<char>>>,
    rules: &[CompiledRule],
    out: &mut Vec<Finding>,
)
    requires
        lines@.len() == ls@.len(),
        forall|i: int| 0 <= i < lines@.len() ==> #[trigger] lines@[i]@ == ls@[i],
    ensures
        views(final(out)@) == views(old(out)@) + file_hits(rules@, file@, content@, ls@),
{
    let ghost before = views(out@);
    let mut r: usize = 0;
    while r < rules.len()
        invariant
            lines@.len() == ls@.len(),
            forall|i: int| 0 <= i < lines@.len() ==> #[trigger] lines@[i]@ == ls@[i],
            r <= rules@.len(),
            views(out@) == before + file_hits(rules@.take(r as int), file@, content@, ls@),
        decreases rules@.len() - r,
    {
        let ghost prev = views(out@);
        assert(rules@.take(r + 1).drop_last() == rules@.take(r as int));
        match &rules[r].kind {
            CompiledKind::FilePresentAbsent { present, absent } => {
                if present.is_match(content) && !absent.is_match(content) {
                    let line = file_line(present, lines, ls);
                    let f = finding(&rules[r], file, line, String::new());
                    out.push(f);
                    assert(views(out@) == prev.push(f@));
                }
            },
            _ => {},
        }
        r = r + 1;
    }
    assert(rules@.take(rules@.len() as int) == rules@);
}

/// Apply the rules to one file's content, appending what it reports to `out`.
/// Pure: no filesystem.
pub fn scan_content(file: &str, content: &str, rules: &[CompiledRule], out: &mut Vec<Finding>)
    ensures
        views(final(out)@) == views(old(out)@) + scan_spec(rules@, file@, content@),
{
    let chars = chars_of(content);
    let lines = split_lines(&chars);
    let ghost ls = lines_of(content@);
    let ghost start = views(out@);
    // Per-line rules.
    let mut idx: usize = 0;
    while idx < lines.len()
        invariant
            ls == lines_of(content@),
            lines@.len() == ls.len(),
            forall|i: int| 0 <= i < lines@.len() ==> #[trigger] lines@[i]@ == ls[i],
            lines@.len() <= chars.len(),
            idx <= lines@.len(),
            views(out@) == start + line_pass(rules@, file@, ls.take(idx as int)),
        decreases lines@.len() - idx,
    {
        scan_line(file, lines[idx].as_str(), idx + 1, rules, out);
        assert(ls.take(idx + 1).drop_last() == ls.take(idx as int));
        assert(ls.take(idx + 1).last() == ls[idx as int]);
        idx = idx + 1;
    }
    assert(ls.take(ls.len() as int) == ls);
    // File-level present/absent rules.
    scan_file_level(file, content, &lines, Ghost(ls), rules, out);
}

} // verus!

verus! {

/// Three-way comparison of two findings in report order (see
/// [`finding_order`]).
pub fn compare_findings(a: &Finding, b: &Finding) -> (c: i8)
    ensures
        c == finding_order(a@, b@),
{
    let c = compare_bytes(a.file.as_str().as_bytes(), b.file.as_str().as_bytes());
    if c != 0 {
        c
    } else if a.line < b.line {
        -1
    } else if a.line > b.line {
        1
    } else if a.level > b.level {
        -1
    } else if a.level < b.level {
        1
    } else {
        0
    }
}

proof fn lemma_filter_push(s: Seq<FindingView>, x: FindingView, f: FindingView)
    ensures
        same_key(s.push(x), f) == same_key(s, f) + (if finding_order(x, f) == 0 {
            seq![x]
        } else {
            seq![]
        }),
{
    reveal(Seq::filter);
    assert(s.push(x).drop_last() == s);
}

proof fn lemma_insert_keys(s: Seq<FindingView>, p: int, x: FindingView, f: FindingView)
    requires
        0 <= p <= s.len(),
        forall|j: int| p <= j < s.len() ==> finding_order(#[trigger] s[j], x) > 0,
    ensures
        same_key(s.insert(p, x), f) == same_key(s, f) + (if finding_order(x, f) == 0 {
            seq![x]
        } else {
            seq![]
        }),
{
    let pred = key_of(f);
    let a = s.take(p);
    let b = s.skip(p);
    assert(s == a + b);
    assert(s.insert(p, x) == a + seq![x] + b);
    Seq::filter_distributes_over_add(a, b, pred);
    Seq::filter_distributes_over_add(a + seq![x], b, pred);
    Seq::filter_distributes_over_add(a, seq![x], pred);
    reveal(Seq::filter);
    assert(seq![x].drop_last() == Seq::<FindingView>::empty());
    if finding_order(x, f) == 0 {
        assert forall|j: int| 0 <= j < b.len() implies !pred(#[trigger] b[j]) by {
            lemma_finding_order(b[j], f, x);
            lemma_finding_order(f, x, b[j]);
            lemma_finding_order(b[j], x, f);
        }
        assert(b.all(|g: FindingView| !pred(g)));
        b.lemma_all_neg_filter_empty(pred);
        assert(b.filter(pred) == Seq::<FindingView>::empty());
        assert(seq![x].filter(pred) == seq![x]);
        assert(s.filter(pred) == a.filter(pred));
        assert(s.insert(p, x).filter(pred) == a.filter(pred) + seq![x]);
    } else {
        assert(seq![x].drop_last().filter(pred).len() == 0);
        assert(seq![x].filter(pred) =~= Seq::<FindingView>::empty());
        assert(s.insert(p, x).filter(pred) == a.filter(pred) + b.filter(pred));
    }
}

/// Insert `x` into the sorted `v`, after every finding that does not sort
/// after it.
fn insert_sorted(v: &mut Vec<Finding>, x: Finding)
    requires
        sorted_findings(views(old(v)@)),
    ensures
        views(final(v)@).len() == views(old(v)@).len() + 1,
        sorted_findings(views(final(v)@)),
        forall|f: FindingView|
            #[trigger] same_key(views(final(v)@), f) == same_key(views(old(v)@), f) + (if finding_order(
                x@,
                f,
            ) == 0 {
                seq![x@]
            } else {
                seq![]
            }),
{
    let ghost s = views(v@);
    let mut p: usize = v.len();
    while p > 0 && compare_findings(&v[p - 1], &x) > 0
        invariant
            p <= v@.len(),
            s == views(v@),
            forall|j: int| p <= j < s.len() ==> finding_order(#[trigger] s[j], x@) > 0,
        decreases p,
    {
        p = p - 1;
    }
    proof {
        if p > 0 {
            assert forall|j: int| 0 <= j < p implies finding_order(#[trigger] s[j], x@) <= 0 by {
                if j < p - 1 {
                    lemma_finding_order(s[j], s[p - 1], x@);
                }
            }
        }
    }
    v.insert(p, x);
    proof {
        let t = views(v@);
        assert(t == s.insert(p as int, x@));
        assert forall|i: int, j: int| 0 <= i < j < t.len() implies finding_order(#[trigger] t[i], #[trigger] t[j]) <= 0 by {
            if i < p && j == p {
            } else if i == p && j > p {
                lemma_finding_order(t[j], x@, x@);
            } else if i < p && j > p {
                lemma_finding_order(t[i], x@, t[j]);
                lemma_finding_order(t[j], x@, t[i]);
            } else if j < p {
                assert(t[i] == s[i] && t[j] == s[j]);
            } else {
                assert(t[i] == s[i - 1] && t[j] == s[j - 1]);
            }
        }
        assert forall|f: FindingView|
            #[trigger] same_key(views(v@), f) == same_key(s, f) + (if finding_order(x@, f) == 0 {
                seq![x@]
            } else {
                seq![]
            }) by {
            lemma_insert_keys(s, p as int, x@, f);
        }
    }
}

/// Put findings in report order: by file, then line, then most severe first.
/// Findings that sort level keep their relative order (the sort is stable).
pub fn sort_findings(findings: &mut Vec<Finding>)
    ensures
        views(final(findings)@).len() == views(old(findings)@).len(),
        sorted_findings(views(final(findings)@)),
        forall|f: FindingView|
            #[trigger] same_key(views(final(findings)@), f) == same_key(views(old(findings)@), f),
{
    let mut input: Vec<Finding> = Vec::new();
    std::mem::swap(findings, &mut input);
    let ghost all = views(input@);
    assert(views(findings@) == Seq::<FindingView>::empty());
    for x in it: input.into_iter()
        invariant
            it.seq() == input@,
            all == views(input@),
            views(findings@).len() == it.index(),
            sorted_findings(views(findings@)),
            forall|f: FindingView|
                #[trigger] same_key(views(findings@), f) == same_key(all.take(it.index()), f),
    {
        let ghost i = it.index();
        proof {
            assert(all.take(i + 1) == all.take(i).push(x@));
            assert forall|f: FindingView| #[trigger] same_key(all.take(i + 1), f) == same_key(all.take(i), f) + (if finding_order(x@, f) == 0 {
                seq![x@]
            } else {
                seq![]
            }) by {
                lemma_filter_push(all.take(i), x@, f);
            }
        }
        insert_sorted(findings, x);
    }
    assert(all.take(all.len() as int) == all);
}

} // verus!

verus! {

/// Files larger than this many bytes are skipped (generated bundles,
/// lockfiles, vendored blobs).
pub const MAX_FILE_BYTES: u64 = 2097152;

/// The extensions of source files worth scanning, in lower case.
pub open spec fn source_exts() -> Seq<Seq<char>> {
    seq![
        "ts"@, "tsx"@, "js"@, "jsx"@, "mjs"@, "cjs"@, "py"@, "rs"@, "go"@, "java"@, "kt"@,
        "kts"@, "rb"@, "cs"@, "php"@, "scala"@, "swift"@, "c"@, "h"@, "cpp"@, "hpp"@, "cc"@,
    ]
}

/// `c` with ASCII upper-case letters mapped to lower case.
pub open spec fn ascii_lower(c: char) -> char {
    if 'A' <= c <= 'Z' {
        ((c as u32) + 32) as char
    } else {
        c
    }
}

/// Whether an extension (compared without regard to ASCII case) names a source
/// file.
pub open spec fn is_source_ext(ext: Seq<char>) -> bool {
    source_exts().contains(ext.map_values(|c: char| ascii_lower(c)))
}

fn lower_char(c: char) -> (r: char)
    ensures
        r == ascii_lower(c),
{
    if 'A' <= c && c <= 'Z' {
        let b = c as u8;
        (b + 32) as char
    } else {
        c
    }
}

fn same_chars(a: &Vec<char>, b: &Vec<char>) -> (r: bool)
    ensures
        r == (a@ == b@),
{
    if a.len() != b.len() {
        return false;
    }
    let mut i: usize = 0;
    while i < a.len()
        invariant
            a@.len() == b@.len(),
            i <= a@.len(),
            forall|j: int| 0 <= j < i ==> a@[j] == b@[j],
        decreases a@.len() - i,
    {
        if a[i] != b[i] {
            return false;
        }
        i = i + 1;
    }
    assert(a@ =~= b@);
    true
}

/// Whether a file with this extension is a source file worth scanning.
pub fn is_source_extension(ext: &str) -> (b: bool)
    ensures
        b == is_source_ext(ext@),
{
    let raw = chars_of(ext);
    let mut lower: Vec<char> = Vec::new();
    let mut i: usize = 0;
    while i < raw.len()
        invariant
            i <= raw@.len(),
            lower@ == raw@.take(i as int).map_values(|c: char| ascii_lower(c)),
        decreases raw@.len() - i,
    {
        let c = lower_char(raw[i]);
        lower.push(c);
        assert(raw@.take(i + 1).map_values(|c: char| ascii_lower(c)) == raw@.take(i as int).map_values(|c: char| ascii_lower(c)).push(ascii_lower(raw@[i as int])));
        i = i + 1;
    }
    assert(raw@.take(raw@.len() as int) == raw@);
    let exts: [&str; 22] = [
        "ts", "tsx", "js", "jsx", "mjs", "cjs", "py", "rs", "go", "java", "kt", "kts", "rb", "cs",
        "php", "scala", "swift", "c", "h", "cpp", "hpp", "cc",
    ];
    let mut k: usize = 0;
    while k < 22
        invariant
            k <= 22,
            exts@ == seq![
                "ts", "tsx", "js", "jsx", "mjs", "cjs", "py", "rs", "go", "java", "kt", "kts", "rb", "cs",
                "php", "scala", "swift", "c", "h", "cpp", "hpp", "cc",
            ],
            lower@ == ext@.map_values(|c: char| ascii_lower(c)),
            forall|j: int| 0 <= j < k ==> source_exts()[j] != lower@,
        decreases 22 - k,
    {
        let cand = chars_of(exts[k]);
        if same_chars(&cand, &lower) {
            assert(source_exts()[k as int] == lower@);
            return true;
        }
        k = k + 1;
    }
    assert(!source_exts().contains(lower@));
    false
}

/// Whether the walker should scan an entry: it is a regular file with a source
/// extension, and not known to exceed [`MAX_FILE_BYTES`] (an entry whose size
/// cannot be read is scanned).
pub fn should_scan(is_file: bool, ext: Option<&str>, len: Option<u64>) -> (b: bool)
    ensures
        b == (is_file && (ext matches Some(e) && is_source_ext(e@)) && !(len matches Some(
            n,
        ) && n > MAX_FILE_BYTES)),
{
    if !is_file {
        return false;
    }
    let src = match ext {
        Some(e) => is_source_extension(e),
        None => false,
    };
    if !src {
        return false;
    }
    match len {
        Some(n) => n <= MAX_FILE_BYTES,
        None => true,
    }
}

/// Finish a scan: put its findings in report order.
pub fn finish_report(findings: Vec<Finding>) -> (r: Report)
    ensures
        views(r.findings@).len() == views(findings@).len(),
        sorted_findings(views(r.findings@)),
        forall|f: FindingView| #[trigger] same_key(views(r.findings@), f) == same_key(views(findings@), f),
{
    let mut findings = findings;
    sort_findings(&mut findings);
    Report { findings }
}

} // verus!

verus! {

/// The findings of `s` reported by the rule `id`.
pub open spec fn by_rule(s: Seq<FindingView>, id: Seq<char>) -> Seq<FindingView> {
    s.filter(|v: FindingView| v.rule == id)
}

/// Whether `id` is the id of one of the per-line rules among `rules`.
pub open spec fn line_rule_id(rules: Seq<CompiledRule>, id: Seq<char>) -> bool {
    exists|j: int| 0 <= j < rules.len() && (#[trigger] rules[j]).kind is Line && rules[j].spec.id@ == id
}

/// What every finding of a scan carries: the scanned file, a line between 1
/// and the number of lines (1 for an empty file), a snippet of at most
/// `SNIPPET_MAX` characters plus the ellipsis, and the metadata of one of the
/// rules.
pub open spec fn well_formed_finding(
    v: FindingView,
    rules: Seq<CompiledRule>,
    file: Seq<char>,
    line_count: nat,
) -> bool {
    &&& v.file == file
    &&& 1 <= v.line
    &&& v.line <= line_count || v.line == 1
    &&& v.snippet.len() <= crate::text::SNIPPET_MAX + 1
    &&& exists|j: int|
        0 <= j < rules.len() && v == #[trigger] finding_of(rules[j], file, v.line, v.snippet)
}

proof fn lemma_line_hits_wf(rules: Seq<CompiledRule>, file: Seq<char>, line: Seq<char>, n: usize, count: nat)
    requires
        1 <= n <= count,
    ensures
        forall|i: int|
            0 <= i < line_hits(rules, file, line, n).len() ==> well_formed_finding(
                #[trigger] line_hits(rules, file, line, n)[i],
                rules,
                file,
                count,
            ),
        forall|i: int|
            0 <= i < line_hits(rules, file, line, n).len() ==> line_rule_id(rules, (#[trigger] line_hits(rules, file, line, n)[i]).rule),
    decreases rules.len(),
{
    if rules.len() > 0 {
        let r = rules.drop_last();
        lemma_line_hits_wf(r, file, line, n, count);
        let h = line_hits(rules, file, line, n);
        let hp = line_hits(r, file, line, n);
        assert forall|i: int| 0 <= i < h.len() implies well_formed_finding(#[trigger] h[i], rules, file, count) && line_rule_id(rules, h[i].rule) by {
            if i < hp.len() {
                assert(h[i] == hp[i]);
                let j = choose|j: int| 0 <= j < r.len() && h[i] == #[trigger] finding_of(r[j], file, h[i].line, h[i].snippet);
                assert(rules[j] == r[j]);
                let j2 = choose|j2: int| 0 <= j2 < r.len() && (#[trigger] r[j2]).kind is Line && r[j2].spec.id@ == hp[i].rule;
                assert(rules[j2] == r[j2]);
            } else {
                let last = rules.len() - 1;
                assert(rules[last] == rules.last());
                assert(h[i] == finding_of(rules[last], file, n, snippet_of(line)));
            }
        }
    }
}

proof fn lemma_line_pass_wf(rules: Seq<CompiledRule>, file: Seq<char>, lines: Seq<Seq<char>>, count: nat)
    requires
        lines.len() <= count,
        lines.len() <= usize::MAX,
    ensures
        forall|i: int|
            0 <= i < line_pass(rules, file, lines).len() ==> well_formed_finding(
                #[trigger] line_pass(rules, file, lines)[i],
                rules,
                file,
                count,
            ),
        forall|i: int|
            0 <= i < line_pass(rules, file, lines).len() ==> line_rule_id(rules, (#[trigger] line_pass(rules, file, lines)[i]).rule),
    decreases lines.len(),
{
    if lines.len() > 0 {
        lemma_line_pass_wf(rules, file, lines.drop_last(), count);
        lemma_line_hits_wf(rules, file, lines.last(), lines.len() as usize, count);
        let p = line_pass(rules, file, lines);
        let a = line_pass(rules, file, lines.drop_last());
        let b = line_hits(rules, file, lines.last(), lines.len() as usize);
        assert forall|i: int| 0 <= i < p.len() implies well_formed_finding(#[trigger] p[i], rules, file, count) && line_rule_id(rules, p[i].rule) by {
            if i < a.len() {
                assert(p[i] == a[i]);
            } else {
                assert(p[i] == b[i - a.len()]);
            }
        }
    }
}

proof fn lemma_reported_line(pattern: Seq<char>, lines: Seq<Seq<char>>)
    ensures
        1 <= reported_line(pattern, lines),
        reported_line(pattern, lines) <= lines.len() || reported_line(pattern, lines) == 1,
{
    reveal(reported_line);
    if exists|i: int| 0 <= i < lines.len() && regex_is_match(pattern, #[trigger] lines[i]) {
        let i = choose|i: int| 0 <= i < lines.len() && regex_is_match(pattern, #[trigger] lines[i]);
        lemma_least_match(pattern, lines, i);
    }
}

proof fn lemma_least_match(pattern: Seq<char>, lines: Seq<Seq<char>>, i: int)
    requires
        0 <= i < lines.len(),
        regex_is_match(pattern, lines[i]),
    ensures
        exists|m: int|
            0 <= m < lines.len() && regex_is_match(pattern, #[trigger] lines[m]) && forall|j: int|
                0 <= j < m ==> !regex_is_match(pattern, #[trigger] lines[j]),
    decreases i,
{
    if exists|j: int| 0 <= j < i && regex_is_match(pattern, #[trigger] lines[j]) {
        let j = choose|j: int| 0 <= j < i && regex_is_match(pattern, #[trigger] lines[j]);
        lemma_least_match(pattern, lines, j);
    } else {
        assert(forall|j: int| 0 <= j < i ==> !regex_is_match(pattern, #[trigger] lines[j]));
    }
}

proof fn lemma_file_hits_wf(
    rules: Seq<CompiledRule>,
    file: Seq<char>,
    content: Seq<char>,
    lines: Seq<Seq<char>>,
    count: nat,
)
    requires
        lines.len() <= count,
        lines.len() <= usize::MAX,
    ensures
        forall|i: int|
            0 <= i < file_hits(rules, file, content, lines).len() ==> well_formed_finding(
                #[trigger] file_hits(rules, file, content, lines)[i],
                rules,
                file,
                count,
            ) && file_hits(rules, file, content, lines)[i].snippet.len() == 0,
    decreases rules.len(),
{
    if rules.len() > 0 {
        let r = rules.drop_last();
        lemma_file_hits_wf(r, file, content, lines, count);
        let h = file_hits(rules, file, content, lines);
        let hp = file_hits(r, file, content, lines);
        assert forall|i: int| 0 <= i < h.len() implies well_formed_finding(#[trigger] h[i], rules, file, count)
            && h[i].snippet.len() == 0 by {
            if i < hp.len() {
                assert(h[i] == hp[i]);
                let j = choose|j: int| 0 <= j < r.len() && h[i] == #[trigger] finding_of(r[j], file, h[i].line, h[i].snippet);
                assert(rules[j] == r[j]);
            } else {
                let last = rules.len() - 1;
                assert(rules[last] == rules.last());
                match rules.last().kind {
                    CompiledKind::FilePresentAbsent { present, absent } => {
                        lemma_reported_line(present@, lines);
                        assert(h[i] == finding_of(rules[last], file, reported_line(present@, lines) as usize, seq![]));
                    },
                    _ => {},
                }
            }
        }
    }
}

/// Every finding that a scan reports names the scanned file, a line from 1 up
/// to the number of lines of the content (1 when it has none), a snippet of at
/// most `SNIPPET_MAX` characters plus an ellipsis, and carries the level, id,
/// SEP label, message, fix and source of one of the rules. File-level findings
/// carry no snippet.
pub proof fn lemma_findings_well_formed(rules: Seq<CompiledRule>, file: Seq<char>, content: Seq<char>)
    requires
        content.len() <= usize::MAX,
    ensures
        forall|i: int|
            0 <= i < scan_spec(rules, file, content).len() ==> well_formed_finding(
                #[trigger] scan_spec(rules, file, content)[i],
                rules,
                file,
                lines_of(content).len(),
            ),
        forall|i: int|
            0 <= i < file_hits(rules, file, content, lines_of(content)).len() ==> (#[trigger] file_hits(
                rules,
                file,
                content,
                lines_of(content),
            )[i]).snippet.len() == 0,
{
    let ls = lines_of(content);
    lemma_lines_count(content);
    lemma_line_pass_wf(rules, file, ls, ls.len());
    lemma_file_hits_wf(rules, file, content, ls, ls.len());
    let a = line_pass(rules, file, ls);
    let b = file_hits(rules, file, content, ls);
    let s = scan_spec(rules, file, content);
    assert forall|i: int| 0 <= i < s.len() implies well_formed_finding(#[trigger] s[i], rules, file, ls.len()) by {
        if i < a.len() {
            assert(s[i] == a[i]);
        } else {
            assert(s[i] == b[i - a.len()]);
        }
    }
}

proof fn lemma_lines_count(content: Seq<char>)
    ensures
        lines_of(content).len() <= content.len(),
    decreases content.len(),
{
    if content.len() > 0 {
        let k = crate::text::first_newline(content);
        if k < content.len() {
            lemma_lines_count(content.skip(k as int + 1));
        }
    }
}

} // verus!

verus! {

proof fn lemma_by_rule_add(a: Seq<FindingView>, b: Seq<FindingView>, id: Seq<char>)
    ensures
        by_rule(a + b, id) == by_rule(a, id) + by_rule(b, id),
{
    Seq::filter_distributes_over_add(a, b, |v: FindingView| v.rule == id);
}

proof fn lemma_by_rule_none(s: Seq<FindingView>, id: Seq<char>)
    requires
        forall|i: int| 0 <= i < s.len() ==> (#[trigger] s[i]).rule != id,
    ensures
        by_rule(s, id).len() == 0,
{
    let p = |v: FindingView| v.rule == id;
    assert(s.all(|v: FindingView| !p(v)));
    s.lemma_all_neg_filter_empty(p);
}

proof fn lemma_file_hits_once(
    rules: Seq<CompiledRule>,
    file: Seq<char>,
    content: Seq<char>,
    lines: Seq<Seq<char>>,
    j: int,
    m: int,
)
    requires
        0 <= j < rules.len(),
        0 <= m <= rules.len(),
        forall|k: int| 0 <= k < rules.len() && k != j ==> (#[trigger] rules[k]).spec.id@ != rules[j].spec.id@,
    ensures
        by_rule(file_hits(rules.take(m), file, content, lines), rules[j].spec.id@).len() <= (if j < m {
            1int
        } else {
            0int
        }),
    decreases m,
{
    let id = rules[j].spec.id@;
    if m == 0 {
        assert(rules.take(0).len() == 0);
        reveal(Seq::filter);
    } else {
        lemma_file_hits_once(rules, file, content, lines, j, m - 1);
        let t = rules.take(m);
        assert(t.drop_last() == rules.take(m - 1));
        assert(t.last() == rules[m - 1]);
        let prev = file_hits(rules.take(m - 1), file, content, lines);
        let hit = file_hits(t, file, content, lines).subrange(prev.len() as int, file_hits(t, file, content, lines).len() as int);
        assert(file_hits(t, file, content, lines) == prev + hit);
        lemma_by_rule_add(prev, hit, id);
        assert(hit.len() <= 1);
        if m - 1 != j {
            assert forall|i: int| 0 <= i < hit.len() implies (#[trigger] hit[i]).rule != id by {
                assert(hit[i].rule == rules[m - 1].spec.id@);
            }
            lemma_by_rule_none(hit, id);
        } else {
            reveal(Seq::filter);
            lemma_by_rule_len(hit, id);
        }
    }
}

proof fn lemma_by_rule_len(s: Seq<FindingView>, id: Seq<char>)
    ensures
        by_rule(s, id).len() <= s.len(),
{
    s.lemma_filter_len(|v: FindingView| v.rule == id);
}

/// A file-level rule fires at most once per file: when no other rule shares
/// its id, a scan reports at most one finding under that id, however many
/// lines its `present` pattern matches.
pub proof fn lemma_file_rule_fires_at_most_once(
    rules: Seq<CompiledRule>,
    file: Seq<char>,
    content: Seq<char>,
    j: int,
)
    requires
        content.len() <= usize::MAX,
        0 <= j < rules.len(),
        rules[j].kind is FilePresentAbsent,
        forall|k: int| 0 <= k < rules.len() && k != j ==> (#[trigger] rules[k]).spec.id@ != rules[j].spec.id@,
    ensures
        by_rule(scan_spec(rules, file, content), rules[j].spec.id@).len() <= 1,
{
    let id = rules[j].spec.id@;
    let ls = lines_of(content);
    lemma_lines_count(content);
    lemma_line_pass_wf(rules, file, ls, ls.len());
    let a = line_pass(rules, file, ls);
    assert forall|i: int| 0 <= i < a.len() implies (#[trigger] a[i]).rule != id by {
        assert(line_rule_id(rules, a[i].rule));
        let k = choose|k: int| 0 <= k < rules.len() && (#[trigger] rules[k]).kind is Line && rules[k].spec.id@ == a[i].rule;
    }
    lemma_by_rule_none(a, id);
    lemma_file_hits_once(rules, file, content, ls, j, rules.len() as int);
    assert(rules.take(rules.len() as int) == rules);
    lemma_by_rule_add(a, file_hits(rules, file, content, ls), id);
}

} // verus!

verus! {

/// Whether `r` is a per-line rule whose pattern matches `line`.
pub open spec fn matches_line(r: CompiledRule, line: Seq<char>) -> bool {
    match r.kind {
        CompiledKind::Line(p) => regex_is_match(p@, line),
        _ => false,
    }
}

proof fn lemma_line_hits_contains(
    rules: Seq<CompiledRule>,
    file: Seq<char>,
    line: Seq<char>,
    n: usize,
    f: FindingView,
)
    ensures
        line_hits(rules, file, line, n).contains(f) <==> exists|j: int|
            0 <= j < rules.len() && matches_line(#[trigger] rules[j], line) && f == finding_of(
                rules[j],
                file,
                n,
                snippet_of(line),
            ),
    decreases rules.len(),
{
    if rules.len() > 0 {
        let r = rules.drop_last();
        lemma_line_hits_contains(r, file, line, n, f);
        let h = line_hits(rules, file, line, n);
        let hp = line_hits(r, file, line, n);
        let last = rules.len() - 1;
        assert(rules[last] == rules.last());
        let tail = h.subrange(hp.len() as int, h.len() as int);
        assert(h == hp + tail);
        if h.contains(f) {
            let i = choose|i: int| 0 <= i < h.len() && h[i] == f;
            if i < hp.len() {
                assert(hp[i] == f);
                let j = choose|j: int|
                    0 <= j < r.len() && matches_line(#[trigger] r[j], line) && f == finding_of(
                        r[j],
                        file,
                        n,
                        snippet_of(line),
                    );
                assert(rules[j] == r[j]);
            } else {
                assert(matches_line(rules[last], line));
            }
        }
        if exists|j: int|
            0 <= j < rules.len() && matches_line(#[trigger] rules[j], line) && f == finding_of(
                rules[j],
                file,
                n,
                snippet_of(line),
            ) {
            let j = choose|j: int|
                0 <= j < rules.len() && matches_line(#[trigger] rules[j], line) && f == finding_of(
                    rules[j],
                    file,
                    n,
                    snippet_of(line),
                );
            if j < last {
                assert(r[j] == rules[j]);
                assert(hp.contains(f));
                let i = choose|i: int| 0 <= i < hp.len() && hp[i] == f;
                assert(h[i] == f);
            } else {
                assert(h[hp.len() as int] == f);
            }
        }
    }
}

proof fn lemma_line_pass_contains(
    rules: Seq<CompiledRule>,
    file: Seq<char>,
    lines: Seq<Seq<char>>,
    f: FindingView,
)
    requires
        lines.len() <= usize::MAX,
    ensures
        line_pass(rules, file, lines).contains(f) <==> exists|k: int|
            0 <= k < lines.len() && #[trigger] line_hits(rules, file, lines[k], (k + 1) as usize).contains(f),
    decreases lines.len(),
{
    if lines.len() > 0 {
        let d = lines.drop_last();
        lemma_line_pass_contains(rules, file, d, f);
        let p = line_pass(rules, file, lines);
        let a = line_pass(rules, file, d);
        let last = lines.len() - 1;
        let b = line_hits(rules, file, lines[last], lines.len() as usize);
        assert(lines.last() == lines[last]);
        assert(p == a + b);
        if p.contains(f) {
            let i = choose|i: int| 0 <= i < p.len() && p[i] == f;
            if i < a.len() {
                assert(a[i] == f);
                let k = choose|k: int|
                    0 <= k < d.len() && #[trigger] line_hits(rules, file, d[k], (k + 1) as usize).contains(f);
                assert(lines[k] == d[k]);
            } else {
                assert(b[i - a.len()] == f);
                assert(line_hits(rules, file, lines[last], (last + 1) as usize).contains(f));
            }
        }
        if exists|k: int| 0 <= k < lines.len() && #[trigger] line_hits(rules, file, lines[k], (k + 1) as usize).contains(f) {
            let k = choose|k: int| 0 <= k < lines.len() && #[trigger] line_hits(rules, file, lines[k], (k + 1) as usize).contains(f);
            if k < last {
                assert(d[k] == lines[k]);
                assert(line_hits(rules, file, d[k], (k + 1) as usize).contains(f));
                let i = choose|i: int| 0 <= i < a.len() && a[i] == f;
                assert(p[i] == f);
            } else {
                let i = choose|i: int| 0 <= i < b.len() && b[i] == f;
                assert(p[a.len() + i] == f);
            }
        }
    }
}

proof fn lemma_file_hits_ids(rules: Seq<CompiledRule>, file: Seq<char>, content: Seq<char>, lines: Seq<Seq<char>>)
    ensures
        forall|i: int|
            0 <= i < file_hits(rules, file, content, lines).len() ==> exists|j: int|
                0 <= j < rules.len() && (#[trigger] rules[j]).kind is FilePresentAbsent && rules[j].spec.id@
                    == (#[trigger] file_hits(rules, file, content, lines)[i]).rule,
    decreases rules.len(),
{
    if rules.len() > 0 {
        let r = rules.drop_last();
        lemma_file_hits_ids(r, file, content, lines);
        let h = file_hits(rules, file, content, lines);
        let hp = file_hits(r, file, content, lines);
        let last = rules.len() - 1;
        assert(rules[last] == rules.last());
        assert forall|i: int| 0 <= i < h.len() implies exists|j: int|
            0 <= j < rules.len() && (#[trigger] rules[j]).kind is FilePresentAbsent && rules[j].spec.id@ == (#[trigger] h[i]).rule by {
            if i < hp.len() {
                assert(h[i] == hp[i]);
                let j = choose|j: int|
                    0 <= j < r.len() && (#[trigger] r[j]).kind is FilePresentAbsent && r[j].spec.id@ == hp[i].rule;
                assert(rules[j] == r[j]);
            } else {
                assert(rules[last].kind is FilePresentAbsent);
            }
        }
    }
}

/// A per-line rule reports exactly the lines its pattern matches: when no
/// other rule shares the id of the per-line rule `j`, whose pattern is `p`,
/// line `k` of the content (numbered from 0) yields a finding under that id at
/// line `k + 1` exactly when `p` matches that line.
pub proof fn lemma_line_rule_reports_matching_lines(
    rules: Seq<CompiledRule>,
    file: Seq<char>,
    content: Seq<char>,
    j: int,
    p: Seq<char>,
)
    requires
        content.len() <= usize::MAX,
        0 <= j < rules.len(),
        rules[j].kind is Line,
        rules[j].kind->Line_0@ == p,
        forall|k: int| 0 <= k < rules.len() && k != j ==> (#[trigger] rules[k]).spec.id@ != rules[j].spec.id@,
    ensures
        forall|k: int|
            0 <= k < lines_of(content).len() ==> (regex_is_match(p, #[trigger] lines_of(content)[k]) <==> exists|i: int|
                0 <= i < scan_spec(rules, file, content).len() && scan_spec(rules, file, content)[i].rule
                    == rules[j].spec.id@ && scan_spec(rules, file, content)[i].line == k + 1),
{
    let ls = lines_of(content);
    lemma_lines_count(content);
    let s = scan_spec(rules, file, content);
    let a = line_pass(rules, file, ls);
    let b = file_hits(rules, file, content, ls);
    let id = rules[j].spec.id@;
    lemma_file_hits_ids(rules, file, content, ls);
    assert(s == a + b);
    assert forall|k: int| 0 <= k < ls.len() implies (regex_is_match(p, #[trigger] ls[k]) <==> exists|i: int|
        0 <= i < s.len() && s[i].rule == id && s[i].line == k + 1) by {
        if regex_is_match(p, ls[k]) {
            let f = finding_of(rules[j], file, (k + 1) as usize, snippet_of(ls[k]));
            assert(matches_line(rules[j], ls[k]));
            lemma_line_hits_contains(rules, file, ls[k], (k + 1) as usize, f);
            assert(line_hits(rules, file, ls[k], (k + 1) as usize).contains(f));
            lemma_line_pass_contains(rules, file, ls, f);
            let i = choose|i: int| 0 <= i < a.len() && a[i] == f;
            assert(s[i] == f);
        }
        if exists|i: int| 0 <= i < s.len() && s[i].rule == id && s[i].line == k + 1 {
            let i = choose|i: int| 0 <= i < s.len() && s[i].rule == id && s[i].line == k + 1;
            if i < a.len() {
                let f = a[i];
                assert(s[i] == f);
                assert(a.contains(f));
                lemma_line_pass_contains(rules, file, ls, f);
                let k2 = choose|k2: int|
                    0 <= k2 < ls.len() && #[trigger] line_hits(rules, file, ls[k2], (k2 + 1) as usize).contains(f);
                lemma_line_hits_contains(rules, file, ls[k2], (k2 + 1) as usize, f);
                let j2 = choose|j2: int|
                    0 <= j2 < rules.len() && matches_line(#[trigger] rules[j2], ls[k2]) && f == finding_of(
                        rules[j2],
                        file,
                        (k2 + 1) as usize,
                        snippet_of(ls[k2]),
                    );
                assert(k2 == k);
                assert(j2 == j);
            } else {
                assert(s[i] == b[i - a.len()]);
                let j2 = choose|j2: int|
                    0 <= j2 < rules.len() && (#[trigger] rules[j2]).kind is FilePresentAbsent && rules[j2].spec.id@
                        == b[i - a.len()].rule;
                assert(j2 != j);
            }
        }
    }
}

/// The `spec.error_code` rule flags the hardcoded resource-not-found code:
/// with the compiled ruleset, line `k` of a file (numbered from 0) yields a
/// `spec.error_code` finding at line `k + 1` exactly when the pattern
/// `-32002\b` (the code, then a word boundary) matches that line, and every
/// such finding is an error.
pub proof fn lemma_error_code_rule(rules: Seq<CompiledRule>, file: Seq<char>, content: Seq<char>)
    requires
        content.len() <= usize::MAX,
        rules.len() == rule_table().len(),
        forall|i: int|
            0 <= i < rules.len() ==> #[trigger] rules[i].spec == rule_table()[i] && compiled_from(
                rules[i].kind,
                rule_table()[i].kind,
            ),
    ensures
        forall|k: int|
            0 <= k < lines_of(content).len() ==> (regex_is_match("-32002\\b"@, #[trigger] lines_of(content)[k])
                <==> exists|i: int|
                0 <= i < scan_spec(rules, file, content).len() && scan_spec(rules, file, content)[i].rule
                    == "spec.error_code"@ && scan_spec(rules, file, content)[i].line == k + 1),
        forall|i: int|
            0 <= i < scan_spec(rules, file, content).len() && (#[trigger] scan_spec(rules, file, content)[i]).rule
                == "spec.error_code"@ ==> scan_spec(rules, file, content)[i].level == Level::Error,
{
    assert(rules[0].spec == rule_table()[0]);
    assert(compiled_from(rules[0].kind, rule_table()[0].kind));
    lemma_compiled_ids_distinct(rules);
    lemma_line_rule_reports_matching_lines(rules, file, content, 0, "-32002\\b"@);
    lemma_findings_well_formed(rules, file, content);
    let s = scan_spec(rules, file, content);
    let ls = lines_of(content);
    assert forall|i: int| 0 <= i < s.len() && (#[trigger] s[i]).rule == "spec.error_code"@ implies s[i].level
        == Level::Error by {
        assert(well_formed_finding(s[i], rules, file, ls.len()));
        let j = choose|j: int| 0 <= j < rules.len() && s[i] == #[trigger] finding_of(rules[j], file, s[i].line, s[i].snippet);
        if j != 0 {
            assert(rules[j].spec.id@ != rules[0].spec.id@);
        }
    }
}

} // verus!
