//! Pattern compilation and per-line matching.
//!
//! A [`Matcher`] owns a pattern compiled case-insensitively by the
//! `regex` crate. What the compiled pattern matches on a given line is
//! named by the uninterpreted function [`match_spans`]; everything the
//! library claims about matching goes through that name together with
//! the well-formedness facts the `regex` documentation gives.

use vstd::prelude::*;

verus! {

/// Whether the `regex` crate accepts `q` as a well-formed pattern.
pub uninterp spec fn pattern_ok(q: Seq<char>) -> bool;

/// The spans the case-insensitively compiled pattern `q` matches in
/// `line`: successive non-overlapping matches, left to right, each a
/// half-open range of byte offsets into `line`'s UTF-8 encoding.
pub uninterp spec fn match_spans(q: Seq<char>, line: Seq<char>) -> Seq<(usize, usize)>;

/// Well-formed spans over a line of `n` bytes: each span is a valid
/// half-open range within the line, and consecutive spans do not
/// overlap (so the sequence is sorted by start offset).
pub open spec fn spans_wf(spans: Seq<(usize, usize)>, n: nat) -> bool {
    &&& forall|i: int| 0 <= i < spans.len() ==> #[trigger] spans[i].0 <= spans[i].1 <= n
    &&& forall|i: int| 0 <= i + 1 < spans.len() ==> #[trigger] spans[i].1 <= spans[i + 1].0
}

/// Well-formed spans are sorted by start offset and pairwise disjoint:
/// each span ends at or before every later span starts.
pub proof fn lemma_spans_pairwise_disjoint(spans: Seq<(usize, usize)>, n: nat)
    requires
        spans_wf(spans, n),
    ensures
        forall|i: int, j: int|
            0 <= i < j < spans.len() ==> #[trigger] spans[i].1 <= #[trigger] spans[j].0,
{
    assert forall|i: int, j: int|
        0 <= i < j < spans.len() implies #[trigger] spans[i].1 <= #[trigger] spans[j].0 by {
        lemma_spans_chain(spans, n, i, j);
    }
}

proof fn lemma_spans_chain(spans: Seq<(usize, usize)>, n: nat, i: int, j: int)
    requires
        spans_wf(spans, n),
        0 <= i < j < spans.len(),
    ensures
        spans[i].1 <= spans[j].0,
    decreases j - i,
{
    if i + 1 == j {
        assert(spans[i].1 <= spans[i + 1].0);
    } else {
        lemma_spans_chain(spans, n, i, j - 1);
        assert(spans[j - 1].1 <= spans[j].0);
        assert(spans[j - 1].0 <= spans[j - 1].1);
    }
}

/// A compiled, reusable, case-insensitive pattern.
pub struct Matcher {
    pattern: String,
    re: regex::Regex,
}

#[verifier::external_type_specification]
#[verifier::external_body]
pub struct ExRegex(regex::Regex);

impl Matcher {
    /// The pattern this matcher was compiled from.
    pub closed spec fn pattern_view(&self) -> Seq<char> {
        self.pattern@
    }
}

/// A pattern compilation failure, carrying the underlying syntax
/// diagnostic.
#[derive(Debug)]
pub struct PatternError {
    pub message: String,
}

/// Relies on `regex::RegexBuilder::build` (with `case_insensitive(true)`):
/// it returns `Ok` exactly when the pattern is well-formed in the crate's
/// syntax, and the compiled value's behaviour depends on the pattern alone.
#[verifier::external_body]
fn regex_compile(query: &str) -> (r: Result<Matcher, String>)
    ensures
        r is Ok <==> pattern_ok(query@),
        r is Ok ==> r->Ok_0.pattern_view() == query@,
{
    match regex::RegexBuilder::new(query).case_insensitive(true).build() {
        Ok(re) => Ok(Matcher { pattern: String::from(query), re }),
        Err(e) => Err(format!("{}", e)),
    }
}

/// Relies on `regex::Regex::find_iter`: it yields the successive
/// non-overlapping matches from left to right, each with byte offsets
/// `start() <= end()` into the haystack.
#[verifier::external_body]
fn regex_find_spans(m: &Matcher, line: &str) -> (r: Vec<(usize, usize)>)
    ensures
        r@ == match_spans(m.pattern_view(), line@),
        spans_wf(r@, vstd::utf8::encode_utf8(line@).len()),
{
    m.re.find_iter(line).map(|found| (found.start(), found.end())).collect()
}

/// Compiles `query` into a reusable case-insensitive [`Matcher`].
///
/// Succeeds exactly on the patterns the `regex` crate accepts; an empty
/// query is such a pattern and matches every line.
pub fn build_query(query: &str) -> (r: Result<Matcher, PatternError>)
    ensures
        r is Ok <==> pattern_ok(query@),
        r is Ok ==> r->Ok_0.pattern_view() == query@,
{
    match regex_compile(query) {
        Ok(m) => Ok(m),
        Err(message) => Err(PatternError { message }),
    }
}

/// Returns every match of `m`'s pattern in `line`, in left-to-right
/// order, as half-open byte-offset spans; the empty vector means the
/// line does not match.
///
/// The spans are sorted by start offset, pairwise non-overlapping, and
/// each lies within the line's UTF-8 byte length.
pub fn match_line(m: &Matcher, line: &str) -> (r: Vec<(usize, usize)>)
    ensures
        r@ == match_spans(m.pattern_view(), line@),
        spans_wf(r@, vstd::utf8::encode_utf8(line@).len()),
{
    regex_find_spans(m, line)
}

} // verus!
