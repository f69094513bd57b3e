//! Verified text primitives: characters of a string, string building, line
//! splitting, whitespace trimming and decimal rendering.

use vstd::prelude::*;

verus! {

broadcast use vstd::string::group_string_axioms;

/// Appends one character to a string.
///
/// Trusted wrapper of `String::push`, which std documents as appending the given
/// `char` to the end of the string; the contract says exactly that.
#[verifier::external_body]
pub(crate) fn push_char(s: &mut String, c: char)
    ensures
        final(s)@ == old(s)@.push(c),
{
    s.push(c)
}

/// The characters of a string slice, in order.
pub fn chars_of(s: &str) -> (v: Vec<char>)
    ensures
        v@ == s@,
{
    let mut v: Vec<char> = Vec::new();
    for c in it: s.chars()
        invariant
            v@ == it.seq().take(it.index()),
    {
        v.push(c);
    }
    v
}

} // verus!

verus! {

/// The number of characters before the first `'\n'` of `s`, or `s.len()` when
/// it has none.
pub open spec fn first_newline(s: Seq<char>) -> nat
    decreases s.len(),
{
    if s.len() == 0 {
        0
    } else if s[0] == '\n' {
        0
    } else {
        1 + first_newline(s.drop_first())
    }
}

/// A line with the `'\r'` of a `"\r\n"` ending removed.
pub open spec fn strip_cr(line: Seq<char>) -> Seq<char> {
    if line.len() > 0 && line.last() == '\r' {
        line.drop_last()
    } else {
        line
    }
}

/// The lines of a text, as `str::lines` yields them: the text is split at each
/// `'\n'`, a `'\r'` directly before that `'\n'` is dropped with it, and the
/// final line ending is optional (an empty text has no lines).
pub open spec fn lines_of(s: Seq<char>) -> Seq<Seq<char>>
    decreases s.len(),
{
    if s.len() == 0 {
        seq![]
    } else {
        let k = first_newline(s);
        if k >= s.len() {
            seq![s]
        } else {
            seq![strip_cr(s.take(k as int))] + lines_of(s.skip(k as int + 1))
        }
    }
}

proof fn lemma_first_newline(s: Seq<char>, k: nat)
    requires
        k <= s.len(),
        forall|j: int| 0 <= j < k ==> s[j] != '\n',
        k < s.len() ==> s[k as int] == '\n',
    ensures
        first_newline(s) == k,
    decreases k,
{
    if k > 0 {
        lemma_first_newline(s.drop_first(), (k - 1) as nat);
    }
}

/// A string holding `v[from..to]`.
pub fn string_of_range(v: &Vec<char>, from: usize, to: usize) -> (s: String)
    requires
        from <= to <= v.len(),
    ensures
        s@ == v@.subrange(from as int, to as int),
{
    let mut s = String::new();
    let mut i = from;
    while i < to
        invariant
            from <= i <= to <= v.len(),
            s@ == v@.subrange(from as int, i as int),
        decreases to - i,
    {
        push_char(&mut s, v[i]);
        assert(v@.subrange(from as int, i + 1) == v@.subrange(from as int, i as int).push(v@[i as int]));
        i = i + 1;
    }
    s
}

/// The lines of `content`, split as `str::lines` does.
pub fn split_lines(content: &Vec<char>) -> (lines: Vec<String>)
    ensures
        lines@.len() == lines_of(content@).len(),
        forall|i: int| 0 <= i < lines@.len() ==> #[trigger] lines@[i]@ == lines_of(content@)[i],
        lines@.len() <= content@.len(),
{
    let n = content.len();
    let mut lines: Vec<String> = Vec::new();
    let ghost mut done: Seq<Seq<char>> = seq![];
    let mut start: usize = 0;
    let mut i: usize = 0;
    assert(content@.skip(0) == content@);
    while i < n
        invariant
            n == content.len(),
            start <= i <= n,
            forall|j: int| start <= j < i ==> content@[j] != '\n',
            lines_of(content@) == done + lines_of(content@.skip(start as int)),
            lines@.len() == done.len(),
            forall|j: int| 0 <= j < lines@.len() ==> #[trigger] lines@[j]@ == done[j],
            done.len() <= start,
        decreases n - i,
    {
        if content[i] == '\n' {
            let ghost rest = content@.skip(start as int);
            proof {
                lemma_first_newline(rest, (i - start) as nat);
                assert(rest.take((i - start) as int) == content@.subrange(start as int, i as int));
                assert(rest.skip((i - start) + 1) == content@.skip(i + 1));
            }
            let mut end = i;
            if end > start && content[end - 1] == '\r' {
                end = end - 1;
                assert(content@.subrange(start as int, end as int) == content@.subrange(start as int, i as int).drop_last());
            }
            let line = string_of_range(content, start, end);
            lines.push(line);
            proof {
                done = done.push(strip_cr(content@.subrange(start as int, i as int)));
            }
            start = i + 1;
        }
        i = i + 1;
    }
    if start < n {
        let ghost rest = content@.skip(start as int);
        proof {
            lemma_first_newline(rest, (n - start) as nat);
        }
        let line = string_of_range(content, start, n);
        assert(rest == content@.subrange(start as int, n as int));
        lines.push(line);
        proof {
            done = done.push(rest);
        }
    } else {
        assert(content@.skip(start as int).len() == 0);
    }
    assert(lines_of(content@) == done);
    lines
}

} // verus!

verus! {

/// Whether `c` has the Unicode `White_Space` property, the set that
/// `char::is_whitespace` tests and `str::trim` removes.
pub open spec fn is_white(c: char) -> bool {
    let u = c as u32;
    ||| 0x09 <= u <= 0x0d
    ||| u == 0x20
    ||| u == 0x85
    ||| u == 0xa0
    ||| u == 0x1680
    ||| 0x2000 <= u <= 0x200a
    ||| u == 0x2028
    ||| u == 0x2029
    ||| u == 0x202f
    ||| u == 0x205f
    ||| u == 0x3000
}

/// `s` without its leading whitespace.
pub open spec fn trim_start(s: Seq<char>) -> Seq<char>
    decreases s.len(),
{
    if s.len() > 0 && is_white(s[0]) {
        trim_start(s.drop_first())
    } else {
        s
    }
}

/// `s` without its trailing whitespace.
pub open spec fn trim_end(s: Seq<char>) -> Seq<char>
    decreases s.len(),
{
    if s.len() > 0 && is_white(s.last()) {
        trim_end(s.drop_last())
    } else {
        s
    }
}

/// `s` without leading and trailing whitespace, as `str::trim` returns it.
pub open spec fn trim(s: Seq<char>) -> Seq<char> {
    trim_end(trim_start(s))
}

/// Whether `c` is whitespace (see [`is_white`]).
pub fn is_whitespace_char(c: char) -> (b: bool)
    ensures
        b == is_white(c),
{
    let u = c as u32;
    (0x09 <= u && u <= 0x0d) || u == 0x20 || u == 0x85 || u == 0xa0 || u == 0x1680 || (0x2000
        <= u && u <= 0x200a) || u == 0x2028 || u == 0x2029 || u == 0x202f || u == 0x205f || u
        == 0x3000
}

proof fn lemma_trim_start(s: Seq<char>, lo: nat)
    requires
        lo <= s.len(),
        forall|j: int| 0 <= j < lo ==> is_white(s[j]),
        lo < s.len() ==> !is_white(s[lo as int]),
    ensures
        trim_start(s) == s.skip(lo as int),
    decreases lo,
{
    if lo > 0 {
        lemma_trim_start(s.drop_first(), (lo - 1) as nat);
        assert(s.drop_first().skip(lo - 1) == s.skip(lo as int));
    } else {
        assert(s.skip(0) == s);
    }
}

proof fn lemma_trim_end(s: Seq<char>, hi: nat)
    requires
        hi <= s.len(),
        forall|j: int| hi <= j < s.len() ==> is_white(s[j]),
        hi > 0 ==> !is_white(s[hi - 1]),
    ensures
        trim_end(s) == s.take(hi as int),
    decreases s.len() - hi,
{
    if hi < s.len() {
        lemma_trim_end(s.drop_last(), hi);
        assert(s.drop_last().take(hi as int) == s.take(hi as int));
    } else {
        assert(s.take(hi as int) == s);
    }
}

/// The bounds `(lo, hi)` of `v` with surrounding whitespace removed:
/// `v[lo..hi]` is the trimmed text.
pub fn trim_bounds(v: &Vec<char>) -> (r: (usize, usize))
    ensures
        r.0 <= r.1 <= v.len(),
        v@.subrange(r.0 as int, r.1 as int) == trim(v@),
{
    let n = v.len();
    let mut lo: usize = 0;
    while lo < n && is_whitespace_char(v[lo])
        invariant
            lo <= n == v.len(),
            forall|j: int| 0 <= j < lo ==> is_white(v@[j]),
        decreases n - lo,
    {
        lo = lo + 1;
    }
    proof {
        lemma_trim_start(v@, lo as nat);
    }
    let ghost t = v@.skip(lo as int);
    let mut hi: usize = n;
    while hi > lo && is_whitespace_char(v[hi - 1])
        invariant
            lo <= hi <= n == v.len(),
            forall|j: int| hi <= j < n ==> is_white(v@[j]),
        decreases hi,
    {
        hi = hi - 1;
    }
    proof {
        assert forall|j: int| (hi - lo) <= j < t.len() implies is_white(t[j]) by {
            assert(t[j] == v@[lo + j]);
        }
        lemma_trim_end(t, (hi - lo) as nat);
        assert(t.take(hi - lo) == v@.subrange(lo as int, hi as int));
    }
    (lo, hi)
}

/// Longest snippet kept before it is cut and marked with an ellipsis.
pub const SNIPPET_MAX: usize = 200;

/// The snippet shown for a matched line: the line trimmed, and when that is
/// longer than [`SNIPPET_MAX`] characters, its first `SNIPPET_MAX` characters
/// followed by `'…'`.
pub open spec fn snippet_of(line: Seq<char>) -> Seq<char> {
    let t = trim(line);
    if t.len() <= SNIPPET_MAX {
        t
    } else {
        t.take(SNIPPET_MAX as int).push('…')
    }
}

/// The snippet of a line (see [`snippet_of`]).
pub fn snippet(line: &str) -> (s: String)
    ensures
        s@ == snippet_of(line@),
{
    let v = chars_of(line);
    let (lo, hi) = trim_bounds(&v);
    if hi - lo <= SNIPPET_MAX {
        string_of_range(&v, lo, hi)
    } else {
        let mut s = string_of_range(&v, lo, lo + SNIPPET_MAX);
        assert(v@.subrange(lo as int, lo + SNIPPET_MAX) == trim(v@).take(SNIPPET_MAX as int));
        push_char(&mut s, '…');
        s
    }
}

/// The decimal digit character of `d < 10`.
pub open spec fn digit_of(d: nat) -> char {
    seq!['0', '1', '2', '3', '4', '5', '6', '7', '8', '9'][d as int]
}

/// The decimal notation of `n`, without leading zeros.
pub open spec fn decimal(n: nat) -> Seq<char>
    decreases n,
{
    if n < 10 {
        seq![digit_of(n)]
    } else {
        decimal(n / 10).push(digit_of(n % 10))
    }
}

fn digit_char(d: usize) -> (c: char)
    requires
        d < 10,
    ensures
        c == digit_of(d as nat),
{
    if d == 0 {
        '0'
    } else if d == 1 {
        '1'
    } else if d == 2 {
        '2'
    } else if d == 3 {
        '3'
    } else if d == 4 {
        '4'
    } else if d == 5 {
        '5'
    } else if d == 6 {
        '6'
    } else if d == 7 {
        '7'
    } else if d == 8 {
        '8'
    } else {
        '9'
    }
}

/// Appends the decimal notation of `n` to `s`.
pub fn push_decimal(s: &mut String, n: usize)
    ensures
        final(s)@ == old(s)@ + decimal(n as nat),
    decreases n,
{
    if n >= 10 {
        push_decimal(s, n / 10);
    }
    push_char(s, digit_char(n % 10));
}

} // verus!
