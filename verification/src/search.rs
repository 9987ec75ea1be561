//! The search engine: line splitting, per-file scanning and the
//! directory scan with per-file isolation.
//!
//! The contracts are stated over [`lines_spec`] (the platform-independent
//! line-splitting convention), [`search_spec`] (which lines of a file
//! match and with which spans) and [`scan_spec`] (which files of a scan
//! produce a result). The directory walk itself and all file reading
//! happen outside the library; the scan here consumes, per file, the
//! file's name and its contents — or `None` where the file could not be
//! read — and is verified for every outcome of those reads.

use vstd::prelude::*;

use crate::matcher::{match_spans, match_line, spans_wf, Matcher};
use vstd::string::StrSliceExecFns;

verus! {

/// The index of the first newline in `s`, or `s.len()` if there is none.
pub open spec fn line_break(s: Seq<char>) -> int
    decreases s.len(),
{
    if s.len() == 0 {
        0
    } else if s[0] == '\n' {
        0
    } else {
        1 + line_break(s.drop_first())
    }
}

/// `line_break` points at the first newline: everything before it is
/// not a newline, and it is a newline unless it is the end of `s`.
pub proof fn lemma_line_break_bounds(s: Seq<char>)
    ensures
        0 <= line_break(s) <= s.len(),
        forall|k: int| 0 <= k < line_break(s) ==> s[k] != '\n',
        line_break(s) < s.len() ==> s[line_break(s)] == '\n',
    decreases s.len(),
{
    if s.len() == 0 {
    } else if s[0] == '\n' {
    } else {
        lemma_line_break_bounds(s.drop_first());
        assert forall|k: int| 0 <= k < line_break(s) implies s[k] != '\n' by {
            if k > 0 {
                assert(s.drop_first()[k - 1] != '\n');
            }
        }
    }
}

/// Removes one trailing carriage return, if present.
pub open spec fn strip_cr(l: Seq<char>) -> Seq<char> {
    if l.len() > 0 && l.last() == '\r' {
        l.drop_last()
    } else {
        l
    }
}

/// The lines of `s`: maximal runs of characters not containing a line
/// terminator. A terminator is a newline or a carriage return followed
/// by a newline; the final line needs no terminator; an empty text has
/// no lines.
pub open spec fn lines_spec(s: Seq<char>) -> Seq<Seq<char>>
    decreases s.len(),
        via lines_spec_decreases
{
    if s.len() == 0 {
        Seq::empty()
    } else {
        let b = line_break(s);
        if b == s.len() {
            seq![s]
        } else {
            seq![strip_cr(s.take(b))] + lines_spec(s.skip(b + 1))
        }
    }
}

#[via_fn]
proof fn lines_spec_decreases(s: Seq<char>) {
    lemma_line_break_bounds(s);
}

/// The views of a sequence of owned strings.
pub open spec fn str_views(v: Seq<String>) -> Seq<Seq<char>> {
    v.map_values(|s: String| s@)
}

/// Splits `s` into its lines, as [`lines_spec`] describes: split at
/// every newline, drop a carriage return that immediately precedes a
/// newline, keep a final unterminated line, and produce nothing for an
/// empty text.
pub fn split_lines(s: &str) -> (r: Vec<String>)
    ensures
        str_views(r@) == lines_spec(s@),
{
    let n = s.unicode_len();
    let mut r: Vec<String> = Vec::new();
    let mut pos: usize = 0;
    proof {
        assert(s@.skip(0) =~= s@);
        assert(str_views(r@) + lines_spec(s@.skip(0)) =~= lines_spec(s@));
    }
    while pos < n
        invariant
            n == s@.len(),
            pos <= n,
            lines_spec(s@) == str_views(r@) + lines_spec(s@.skip(pos as int)),
        decreases n - pos,
    {
        let ghost t = s@.skip(pos as int);
        let ghost line_start = pos as int;
        let mut j: usize = pos;
        while j < n && s.get_char(j) != '\n'
            invariant
                n == s@.len(),
                pos <= j <= n,
                forall|k: int| pos <= k < j ==> s@[k] != '\n',
            decreases n - j,
        {
            j += 1;
        }
        proof {
            lemma_line_break_bounds(t);
            let b = line_break(t);
            assert forall|k: int| 0 <= k < j - pos implies t[k] != '\n' by {
                assert(s@[pos + k] != '\n');
            }
            if b < j - pos {
                assert(t[b] != '\n');
            }
            if b > j - pos {
                assert(j < n);
                assert(t[j - pos] == s@[j as int]);
            }
            assert(b == j - pos);
        }
        let line: &str;
        if j == n {
            line = s.substring_char(pos, n);
            proof {
                assert(line@ =~= t);
                assert(lines_spec(t) =~= seq![t]);
            }
        } else if j > pos && s.get_char(j - 1) == '\r' {
            line = s.substring_char(pos, j - 1);
            proof {
                assert(t.take(j - pos as int).last() == s@[j - 1]);
                assert(line@ =~= strip_cr(t.take(j - pos as int)));
            }
        } else {
            line = s.substring_char(pos, j);
            proof {
                let head = t.take(j - pos as int);
                assert(line@ =~= head);
                if head.len() > 0 {
                    assert(head.last() == s@[j - 1]);
                }
                assert(line@ =~= strip_cr(head));
            }
        }
        let owned = line.to_owned();
        let ghost old_r = r@;
        r.push(owned);
        proof {
            assert(str_views(r@) =~= str_views(old_r).push(line@));
        }
        if j == n {
            pos = n;
            proof {
                assert(lines_spec(s@.skip(pos as int)) =~= Seq::<Seq<char>>::empty());
                assert(lines_spec(s@) =~= str_views(r@) + lines_spec(s@.skip(pos as int)));
            }
        } else {
            pos = j + 1;
            proof {
                assert(s@.skip(pos as int) =~= t.skip(j - line_start + 1));
                assert(lines_spec(t) =~= seq![line@] + lines_spec(s@.skip(pos as int)));
                assert(lines_spec(s@) =~= str_views(r@) + lines_spec(s@.skip(pos as int)));
            }
        }
    }
    proof {
        assert(s@.skip(pos as int) =~= Seq::<char>::empty());
        assert(lines_spec(s@) =~= str_views(r@));
    }
    r
}

/// One matching line: its 1-based line number, its text, and the
/// ordered non-overlapping match spans within it.
#[derive(Debug, PartialEq, Eq, Clone)]
pub struct LineResult {
    pub line_number: usize,
    pub line: String,
    pub matches: Vec<(usize, usize)>,
}

/// The mathematical value of a [`LineResult`].
#[verifier::ext_equal]
pub struct LineModel {
    pub line_number: nat,
    pub line: Seq<char>,
    pub matches: Seq<(usize, usize)>,
}

impl View for LineResult {
    type V = LineModel;

    open spec fn view(&self) -> LineModel {
        LineModel {
            line_number: self.line_number as nat,
            line: self.line@,
            matches: self.matches@,
        }
    }
}

impl LineResult {
    pub fn new(line_number: usize, line: String, matches: Vec<(usize, usize)>) -> (r: LineResult)
        ensures
            r.line_number == line_number,
            r.line == line,
            r.matches == matches,
    {
        LineResult { line_number, line, matches }
    }
}

/// The results of one file of a directory scan: the file's name and
/// its matching lines. Never built with an empty line-results sequence.
#[derive(Debug, PartialEq, Eq, Clone)]
pub struct FileResult {
    pub file_name: String,
    pub line_results: Vec<LineResult>,
}

/// The mathematical value of a [`FileResult`].
#[verifier::ext_equal]
pub struct FileModel {
    pub file_name: Seq<char>,
    pub line_results: Seq<LineModel>,
}

/// The views of a sequence of line results.
pub open spec fn line_results_view(v: Seq<LineResult>) -> Seq<LineModel> {
    v.map_values(|lr: LineResult| lr@)
}

/// The views of a sequence of file results.
pub open spec fn file_results_view(v: Seq<FileResult>) -> Seq<FileModel> {
    v.map_values(|fr: FileResult| fr@)
}

impl View for FileResult {
    type V = FileModel;

    open spec fn view(&self) -> FileModel {
        FileModel {
            file_name: self.file_name@,
            line_results: line_results_view(self.line_results@),
        }
    }
}

/// One file handed to the scan: its display name and its contents, or
/// `None` where the file could not be read as text.
#[derive(Debug, Clone)]
pub struct FileInput {
    pub file_name: String,
    pub contents: Option<String>,
}

/// The matching lines of a text whose lines are `lines`, searched with
/// pattern `p`: for each line with at least one match span, in file
/// order, its 1-based number, its text and its spans.
pub open spec fn search_spec(p: Seq<char>, lines: Seq<Seq<char>>) -> Seq<LineModel>
    decreases lines.len(),
{
    if lines.len() == 0 {
        Seq::empty()
    } else {
        let rest = search_spec(p, lines.drop_last());
        let l = lines.last();
        if match_spans(p, l).len() > 0 {
            rest.push(
                LineModel { line_number: lines.len() as nat, line: l, matches: match_spans(p, l) },
            )
        } else {
            rest
        }
    }
}

/// What one file contributes to a directory scan: nothing if it was
/// unreadable or nothing in it matches, else its non-empty results.
pub open spec fn file_step_spec(p: Seq<char>, f: FileInput) -> Option<FileModel> {
    match f.contents {
        Option::None => Option::None,
        Option::Some(c) => {
            let lrs = search_spec(p, lines_spec(c@));
            if lrs.len() == 0 {
                Option::None
            } else {
                Option::Some(FileModel { file_name: f.file_name@, line_results: lrs })
            }
        },
    }
}

/// The results of scanning `files` in order with pattern `p`: the
/// contributions of the files that have one, in traversal order.
pub open spec fn scan_spec(p: Seq<char>, files: Seq<FileInput>) -> Seq<FileModel>
    decreases files.len(),
{
    if files.len() == 0 {
        Seq::empty()
    } else {
        let rest = scan_spec(p, files.drop_last());
        match file_step_spec(p, files.last()) {
            Option::None => rest,
            Option::Some(fm) => rest.push(fm),
        }
    }
}

/// Searches `contents` line by line with `m` and returns, in file
/// order, every line with at least one match, its 1-based line number
/// and its match spans. An empty text yields no results; a readable
/// text with no matches yields an empty vector, not an error.
pub fn search(m: &Matcher, contents: &str) -> (r: Vec<LineResult>)
    ensures
        line_results_view(r@) == search_spec(m.pattern_view(), lines_spec(contents@)),
        contents@.len() == 0 ==> r@.len() == 0,
        forall|i: int| 0 <= i < r@.len() ==> (#[trigger] r@[i]).matches@.len() > 0,
        forall|i: int|
            0 <= i < r@.len() ==> spans_wf(
                (#[trigger] r@[i]).matches@,
                vstd::utf8::encode_utf8(r@[i].line@).len(),
            ),
{
    let lines = split_lines(contents);
    let ghost lv = str_views(lines@);
    let mut r: Vec<LineResult> = Vec::new();
    let mut i: usize = 0;
    while i < lines.len()
        invariant
            i <= lines@.len(),
            lv == str_views(lines@),
            lv == lines_spec(contents@),
            line_results_view(r@) == search_spec(m.pattern_view(), lv.take(i as int)),
            forall|k: int| 0 <= k < r@.len() ==> (#[trigger] r@[k]).matches@.len() > 0,
            forall|k: int|
                0 <= k < r@.len() ==> spans_wf(
                    (#[trigger] r@[k]).matches@,
                    vstd::utf8::encode_utf8(r@[k].line@).len(),
                ),
        decreases lines@.len() - i,
    {
        let line = &lines[i];
        let spans = match_line(m, line.as_str());
        let ghost old_r = r@;
        if spans.len() > 0 {
            let lr = LineResult::new(i + 1, line.clone(), spans);
            r.push(lr);
        }
        proof {
            let p = m.pattern_view();
            let head = lv.take(i + 1);
            assert(head.drop_last() =~= lv.take(i as int));
            assert(head.last() == lv[i as int]);
            assert(lv[i as int] == lines@[i as int]@);
            if old_r != r@ {
                assert(line_results_view(r@) =~= line_results_view(old_r).push(r@.last()@));
            }
            assert(line_results_view(r@) =~= search_spec(p, head));
        }
        i += 1;
    }
    proof {
        assert(lv.take(lines@.len() as int) =~= lv);
        if contents@.len() == 0 {
            assert(lines_spec(contents@) =~= Seq::<Seq<char>>::empty());
            assert(search_spec(m.pattern_view(), lv).len() == 0);
            assert(r@.len() == line_results_view(r@).len());
        }
    }
    r
}

/// Scans one file of a directory walk: returns its [`FileResult`]
/// exactly when the file was readable and at least one of its lines
/// matches; an unreadable file and a file with no matching line both
/// contribute nothing.
pub fn scan_file(m: &Matcher, f: &FileInput) -> (r: Option<FileResult>)
    ensures
        r is Some <==> file_step_spec(m.pattern_view(), *f) is Some,
        r is Some ==> r->0@ == file_step_spec(m.pattern_view(), *f)->0,
        r is Some ==> r->0.line_results@.len() > 0,
{
    match &f.contents {
        None => None,
        Some(c) => {
            let line_results = search(m, c.as_str());
            if line_results.len() == 0 {
                None
            } else {
                let fr = FileResult { file_name: f.file_name.clone(), line_results };
                proof {
                    assert(fr@ =~= file_step_spec(m.pattern_view(), *f)->0);
                }
                Some(fr)
            }
        },
    }
}

/// Scans `files` — the regular files found under a directory, in
/// traversal order, each with its contents or `None` where reading
/// failed — and returns one [`FileResult`] per file with at least one
/// matching line, in the same order. A file that could not be read is
/// skipped and never prevents the others from being reported, and no
/// returned file result is empty.
pub fn find_matches_in_dir_child_files(m: &Matcher, files: &Vec<FileInput>) -> (r: Vec<
    FileResult,
>)
    ensures
        file_results_view(r@) == scan_spec(m.pattern_view(), files@),
        forall|i: int| 0 <= i < r@.len() ==> (#[trigger] r@[i]).line_results@.len() > 0,
{
    let mut r: Vec<FileResult> = Vec::new();
    let mut i: usize = 0;
    while i < files.len()
        invariant
            i <= files@.len(),
            file_results_view(r@) == scan_spec(m.pattern_view(), files@.take(i as int)),
            forall|k: int| 0 <= k < r@.len() ==> (#[trigger] r@[k]).line_results@.len() > 0,
        decreases files@.len() - i,
    {
        let ghost old_r = r@;
        match scan_file(m, &files[i]) {
            None => {},
            Some(fr) => {
                r.push(fr);
            },
        }
        proof {
            let p = m.pattern_view();
            let head = files@.take(i + 1);
            assert(head.drop_last() =~= files@.take(i as int));
            assert(head.last() == files@[i as int]);
            if old_r != r@ {
                assert(file_results_view(r@) =~= file_results_view(old_r).push(r@.last()@));
            }
            assert(file_results_view(r@) =~= scan_spec(p, head));
        }
        i += 1;
    }
    proof {
        assert(files@.take(files@.len() as int) =~= files@);
    }
    r
}

/// Law: a scan is a function of the pattern and of the traversed files
/// alone — two scans of the same, unchanged state are identical.
pub proof fn lemma_scan_deterministic(
    p: Seq<char>,
    files: Seq<FileInput>,
    r1: Seq<FileModel>,
    r2: Seq<FileModel>,
)
    requires
        r1 == scan_spec(p, files),
        r2 == scan_spec(p, files),
    ensures
        r1 == r2,
{
}

/// Law: an unreadable file contributes nothing to a scan — removing it
/// from the traversal leaves the results of every other file unchanged.
pub proof fn lemma_unreadable_file_isolated(p: Seq<char>, files: Seq<FileInput>, i: int)
    requires
        0 <= i < files.len(),
        files[i].contents is None,
    ensures
        scan_spec(p, files) == scan_spec(p, files.remove(i)),
    decreases files.len(),
{
    if i == files.len() - 1 {
        assert(files.remove(i) =~= files.drop_last());
        assert(file_step_spec(p, files.last()) is None);
    } else {
        let fd = files.drop_last();
        lemma_unreadable_file_isolated(p, fd, i);
        let rem = files.remove(i);
        assert(rem.drop_last() =~= fd.remove(i));
        assert(rem.last() == files.last());
        assert(scan_spec(p, rem) == scan_spec(p, files));
    }
}

} // verus!
