//! The order in which a report lists its findings: by file (compared as
//! strings are, byte by byte), then by line, then most severe first.

use crate::finding::FindingView;
use crate::level::rank;
use vstd::prelude::*;
use vstd::utf8::encode_utf8;

verus! {

/// Three-way lexicographic comparison of byte strings: negative, zero or
/// positive as `x` sorts before, equal to, or after `y`. A proper prefix sorts
/// first. This is how `str` and `String` compare.
pub open spec fn bytes_order(x: Seq<u8>, y: Seq<u8>) -> int
    decreases x.len(),
{
    if x.len() == 0 && y.len() == 0 {
        0
    } else if x.len() == 0 {
        -1
    } else if y.len() == 0 {
        1
    } else if x[0] < y[0] {
        -1
    } else if x[0] > y[0] {
        1
    } else {
        bytes_order(x.drop_first(), y.drop_first())
    }
}

/// Three-way comparison of findings by (file, line, level descending).
pub open spec fn finding_order(a: FindingView, b: FindingView) -> int {
    let c = bytes_order(encode_utf8(a.file), encode_utf8(b.file));
    if c != 0 {
        c
    } else if a.line < b.line {
        -1
    } else if a.line > b.line {
        1
    } else if rank(a.level) > rank(b.level) {
        -1
    } else if rank(a.level) < rank(b.level) {
        1
    } else {
        0
    }
}

/// Whether `s` is in report order.
pub open spec fn sorted_findings(s: Seq<FindingView>) -> bool {
    forall|i: int, j: int| 0 <= i < j < s.len() ==> finding_order(#[trigger] s[i], #[trigger] s[j]) <= 0
}

/// The findings of `s` that sort level with `f` (same file, line and level),
/// in their order in `s`.
pub open spec fn same_key(s: Seq<FindingView>, f: FindingView) -> Seq<FindingView> {
    s.filter(key_of(f))
}

/// Whether a finding sorts level with `f`.
pub open spec fn key_of(f: FindingView) -> spec_fn(FindingView) -> bool {
    |g: FindingView| finding_order(g, f) == 0
}

/// `bytes_order` is a total order on byte strings: antisymmetric, zero exactly
/// on equal strings, and transitive.
pub proof fn lemma_bytes_order(x: Seq<u8>, y: Seq<u8>, z: Seq<u8>)
    ensures
        bytes_order(x, y) == -bytes_order(y, x),
        -1 <= bytes_order(x, y) <= 1,
        bytes_order(x, y) == 0 <==> x == y,
        bytes_order(x, y) <= 0 && bytes_order(y, z) <= 0 ==> bytes_order(x, z) <= 0,
        bytes_order(x, y) < 0 && bytes_order(y, z) <= 0 ==> bytes_order(x, z) < 0,
        bytes_order(x, y) <= 0 && bytes_order(y, z) < 0 ==> bytes_order(x, z) < 0,
    decreases x.len(),
{
    if x.len() > 0 && y.len() > 0 && z.len() > 0 {
        lemma_bytes_order(x.drop_first(), y.drop_first(), z.drop_first());
    } else if x.len() > 0 && y.len() > 0 {
        lemma_bytes_order(x.drop_first(), y.drop_first(), z);
    }
    if x.len() > 0 && y.len() > 0 && x[0] == y[0] && x.drop_first() == y.drop_first() {
        assert(x == seq![x[0]] + x.drop_first());
        assert(y == seq![y[0]] + y.drop_first());
    }
    if x.len() == 0 && y.len() == 0 {
        assert(x =~= y);
    }
    if x == y && x.len() > 0 {
        assert(x.drop_first() == y.drop_first());
    }
}

/// `finding_order` orders findings totally: it is antisymmetric and transitive,
/// and its zero is an equivalence.
pub proof fn lemma_finding_order(a: FindingView, b: FindingView, c: FindingView)
    ensures
        finding_order(a, b) == -finding_order(b, a),
        -1 <= finding_order(a, b) <= 1,
        finding_order(a, a) == 0,
        finding_order(a, b) <= 0 && finding_order(b, c) <= 0 ==> finding_order(a, c) <= 0,
        finding_order(a, b) < 0 && finding_order(b, c) <= 0 ==> finding_order(a, c) < 0,
        finding_order(a, b) <= 0 && finding_order(b, c) < 0 ==> finding_order(a, c) < 0,
        finding_order(a, b) == 0 && finding_order(b, c) == 0 ==> finding_order(a, c) == 0,
{
    let fa = encode_utf8(a.file);
    let fb = encode_utf8(b.file);
    let fc = encode_utf8(c.file);
    lemma_bytes_order(fa, fb, fc);
    lemma_bytes_order(fa, fa, fa);
    lemma_bytes_order(fb, fc, fa);
    lemma_bytes_order(fa, fc, fb);
}

/// `bytes_order` compares byte strings as `str` does: at the first byte where
/// they differ the smaller byte sorts first, and a proper prefix sorts before
/// the longer string.
pub proof fn lemma_bytes_order_lexicographic(p: Seq<u8>, a: u8, b: u8, x: Seq<u8>, y: Seq<u8>)
    ensures
        a < b ==> bytes_order(p + seq![a] + x, p + seq![b] + y) < 0,
        bytes_order(p, p + seq![b] + y) < 0,
    decreases p.len(),
{
    if p.len() > 0 {
        lemma_bytes_order_lexicographic(p.drop_first(), a, b, x, y);
        assert((p + seq![a] + x).drop_first() =~= p.drop_first() + seq![a] + x);
        assert((p + seq![b] + y).drop_first() =~= p.drop_first() + seq![b] + y);
    } else {
        assert((p + seq![a] + x)[0] == a);
        assert((p + seq![b] + y)[0] == b);
    }
}

/// Report order, key by key: a file that sorts before another (as strings
/// compare) comes first; within one file, a smaller line number comes first,
/// compared as numbers; on one line, the more severe finding comes first.
pub proof fn lemma_finding_order_keys(a: FindingView, b: FindingView)
    ensures
        bytes_order(encode_utf8(a.file), encode_utf8(b.file)) < 0 ==> finding_order(a, b) < 0,
        a.file == b.file && a.line < b.line ==> finding_order(a, b) < 0,
        a.file == b.file && a.line == b.line && rank(a.level) > rank(b.level) ==> finding_order(a, b) < 0,
        a.file == b.file && a.line == b.line && a.level == b.level ==> finding_order(a, b) == 0,
{
    lemma_bytes_order(encode_utf8(a.file), encode_utf8(b.file), encode_utf8(b.file));
}

/// In a sequence in report order, the findings of one file come by
/// non-decreasing line number, and those of one line from the most severe
/// down.
pub proof fn lemma_sorted_lines(s: Seq<FindingView>, i: int, j: int)
    requires
        sorted_findings(s),
        0 <= i < j < s.len(),
        s[i].file == s[j].file,
    ensures
        s[i].line <= s[j].line,
        s[i].line == s[j].line ==> rank(s[i].level) >= rank(s[j].level),
{
    lemma_finding_order_keys(s[j], s[i]);
    lemma_finding_order(s[i], s[j], s[j]);
}

/// Three-way comparison of two byte slices (see [`bytes_order`]).
pub fn compare_bytes(x: &[u8], y: &[u8]) -> (c: i8)
    ensures
        c == bytes_order(x@, y@),
{
    let mut i: usize = 0;
    assert(x@.skip(0) == x@);
    assert(y@.skip(0) == y@);
    while i < x.len() && i < y.len() && x[i] == y[i]
        invariant
            i <= x@.len(),
            i <= y@.len(),
            bytes_order(x@, y@) == bytes_order(x@.skip(i as int), y@.skip(i as int)),
        decreases x@.len() - i,
    {
        assert(x@.skip(i as int).drop_first() == x@.skip(i + 1));
        assert(y@.skip(i as int).drop_first() == y@.skip(i + 1));
        i = i + 1;
    }
    if i == x.len() && i == y.len() {
        0
    } else if i == x.len() {
        -1
    } else if i == y.len() {
        1
    } else if x[i] < y[i] {
        -1
    } else {
        1
    }
}

} // verus!
