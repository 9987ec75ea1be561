//! Rendering of search results as text lines.
//!
//! Each matching line is rendered as `<line number>: <line text>` with
//! the line number in green and every matched span in red, using ANSI
//! escape codes. The functions here only build the strings; printing
//! them is the caller's concern. Match spans are byte offsets into the
//! line's UTF-8 encoding, the same unit the matcher emits, so the
//! highlighter walks the line's characters while tracking each one's
//! byte position.

use vstd::prelude::*;

use crate::search::{str_views, LineResult};
use vstd::string::{StrSliceExecFns, StringExecFns};

verus! {

/// Errors of the output formatter.
#[derive(Debug, PartialEq, Eq, Structural, Clone, Copy)]
pub enum FormatterError {
    InvalidFile,
}

impl FormatterError {
    /// A human-readable description of the error.
    pub fn message(&self) -> (r: &'static str)
        ensures
            self is InvalidFile ==> r@ == "Path specified was not a proper file"@,
    {
        match self {
            FormatterError::InvalidFile => "Path specified was not a proper file",
        }
    }
}

/// The ANSI code that turns the text green.
pub open spec fn green_code() -> Seq<char> {
    "\u{1b}[32m"@
}

/// The ANSI code that turns the text red.
pub open spec fn red_code() -> Seq<char> {
    "\u{1b}[31m"@
}

/// The ANSI code that resets the text colour.
pub open spec fn reset_code() -> Seq<char> {
    "\u{1b}[0m"@
}

/// The decimal digit `d` as a one-character string.
pub open spec fn digit_code(d: nat) -> Seq<char> {
    if d == 0 {
        "0"@
    } else if d == 1 {
        "1"@
    } else if d == 2 {
        "2"@
    } else if d == 3 {
        "3"@
    } else if d == 4 {
        "4"@
    } else if d == 5 {
        "5"@
    } else if d == 6 {
        "6"@
    } else if d == 7 {
        "7"@
    } else if d == 8 {
        "8"@
    } else {
        "9"@
    }
}

/// The decimal rendering of `n`, most significant digit first, with no
/// leading zeros (`0` renders as `"0"`).
pub open spec fn dec_spec(n: nat) -> Seq<char>
    decreases n,
{
    if n < 10 {
        digit_code(n)
    } else {
        dec_spec(n / 10) + digit_code(n % 10)
    }
}

fn digit_str(d: usize) -> (r: &'static str)
    requires
        d < 10,
    ensures
        r@ == digit_code(d as nat),
{
    if d == 0 {
        "0"
    } else if d == 1 {
        "1"
    } else if d == 2 {
        "2"
    } else if d == 3 {
        "3"
    } else if d == 4 {
        "4"
    } else if d == 5 {
        "5"
    } else if d == 6 {
        "6"
    } else if d == 7 {
        "7"
    } else if d == 8 {
        "8"
    } else {
        "9"
    }
}

/// Renders `n` in decimal.
pub fn format_number(n: usize) -> (r: String)
    ensures
        r@ == dec_spec(n as nat),
    decreases n,
{
    if n < 10 {
        digit_str(n).to_owned()
    } else {
        let mut s = format_number(n / 10);
        s.append(digit_str(n % 10));
        s
    }
}

/// The number of bytes of the UTF-8 encoding of `c`.
pub open spec fn char_bytes(c: char) -> nat {
    if (c as u32) < 0x80 {
        1
    } else if (c as u32) < 0x800 {
        2
    } else if (c as u32) < 0x10000 {
        3
    } else {
        4
    }
}

fn char_width(c: char) -> (w: usize)
    ensures
        w == char_bytes(c),
{
    let u = c as u32;
    if u < 0x80 {
        1
    } else if u < 0x800 {
        2
    } else if u < 0x10000 {
        3
    } else {
        4
    }
}

/// Whether byte offset `bp` lies inside one of `spans`.
pub open spec fn span_covers(spans: Seq<(usize, usize)>, bp: nat) -> bool {
    exists|k: int| 0 <= k < spans.len() && (#[trigger] spans[k]).0 <= bp < spans[k].1
}

fn is_covered(spans: &Vec<(usize, usize)>, bp: u128) -> (r: bool)
    ensures
        r == span_covers(spans@, bp as nat),
{
    let mut k: usize = 0;
    while k < spans.len()
        invariant
            k <= spans@.len(),
            forall|t: int|
                0 <= t < k ==> !((#[trigger] spans@[t]).0 <= bp as nat && (bp as nat)
                    < (spans@[t]).1),
        decreases spans@.len() - k,
    {
        let sp = spans[k];
        if (sp.0 as u128) <= bp && bp < (sp.1 as u128) {
            return true;
        }
        k += 1;
    }
    false
}

/// The highlighted rendering of `line` from character `i` on, where
/// `bp` is that character's byte offset and `matching` says whether
/// the red highlight is currently open: red is opened before the first
/// covered character of a span run and reset after the last one.
pub open spec fn highlight_from(
    line: Seq<char>,
    spans: Seq<(usize, usize)>,
    i: int,
    bp: nat,
    matching: bool,
) -> Seq<char>
    decreases line.len() - i,
{
    if i < 0 || i >= line.len() {
        Seq::empty()
    } else {
        let cov = span_covers(spans, bp);
        let pre = if cov && !matching {
            red_code()
        } else if !cov && matching {
            reset_code()
        } else {
            Seq::<char>::empty()
        };
        pre + seq![line[i]] + highlight_from(line, spans, i + 1, bp + char_bytes(line[i]), cov)
    }
}

/// The full rendering of one matching line: the line number in green,
/// a separating `": "`, then the line with its matched spans in red.
pub open spec fn format_line_spec(lm: crate::search::LineModel) -> Seq<char> {
    green_code() + dec_spec(lm.line_number) + reset_code() + ": "@ + highlight_from(
        lm.line,
        lm.matches,
        0,
        0,
        false,
    )
}

/// Renders one matching line, as [`format_line_spec`] describes.
pub fn format_line(line_result: &LineResult) -> (r: String)
    ensures
        r@ == format_line_spec(line_result@),
{
    let ghost lv = line_result.line@;
    let ghost sv = line_result.matches@;
    let mut out = "\u{1b}[32m".to_owned();
    let number = format_number(line_result.line_number);
    out.append(number.as_str());
    out.append("\u{1b}[0m");
    out.append(": ");
    let line = line_result.line.as_str();
    let n = line.unicode_len();
    let mut i: usize = 0;
    let mut bp: u128 = 0;
    let mut matching = false;
    while i < n
        invariant
            n == lv.len(),
            line@ == lv,
            sv == line_result.matches@,
            i <= n,
            bp as nat <= 4 * (i as nat),
            format_line_spec(line_result@) == out@ + highlight_from(
                lv,
                sv,
                i as int,
                bp as nat,
                matching,
            ),
        decreases n - i,
    {
        let ghost prev_out = out@;
        let ghost prev_bp = bp as nat;
        let ghost prev_matching = matching;
        let c = line.get_char(i);
        let cov = is_covered(&line_result.matches, bp);
        if cov && !matching {
            out.append("\u{1b}[31m");
        } else if !cov && matching {
            out.append("\u{1b}[0m");
        }
        let piece = line.substring_char(i, i + 1);
        out.append(piece);
        proof {
            assert(piece@ =~= seq![lv[i as int]]);
            let pre = if cov && !prev_matching {
                red_code()
            } else if !cov && prev_matching {
                reset_code()
            } else {
                Seq::<char>::empty()
            };
            assert(out@ =~= prev_out + pre + seq![lv[i as int]]);
            assert(highlight_from(lv, sv, i as int, prev_bp, prev_matching) == pre + seq![
                lv[i as int],
            ] + highlight_from(lv, sv, i + 1, prev_bp + char_bytes(lv[i as int]), cov));
            assert(prev_out + highlight_from(lv, sv, i as int, prev_bp, prev_matching) =~= out@
                + highlight_from(lv, sv, i + 1, prev_bp + char_bytes(lv[i as int]), cov));
        }
        bp = bp + (char_width(c) as u128);
        matching = cov;
        i += 1;
    }
    out
}

/// The renderings of a sequence of line results, in order.
pub open spec fn formatted_lines(v: Seq<LineResult>) -> Seq<Seq<char>> {
    v.map_values(|lr: LineResult| format_line_spec(lr@))
}

/// Renders the results of a single-file search: one rendered line per
/// matching line, in file order.
pub fn format_results(results: &Vec<LineResult>) -> (r: Vec<String>)
    ensures
        str_views(r@) == formatted_lines(results@),
{
    let mut r: Vec<String> = Vec::new();
    let mut i: usize = 0;
    proof {
        assert(str_views(r@) =~= formatted_lines(results@.take(0)));
    }
    while i < results.len()
        invariant
            i <= results@.len(),
            str_views(r@) == formatted_lines(results@.take(i as int)),
        decreases results@.len() - i,
    {
        let ghost old_r = r@;
        let formatted = format_line(&results[i]);
        r.push(formatted);
        proof {
            assert(str_views(r@) =~= str_views(old_r).push(r@.last()@));
            assert(str_views(r@) =~= formatted_lines(results@.take(i + 1)));
        }
        i += 1;
    }
    proof {
        assert(results@.take(results@.len() as int) =~= results@);
    }
    r
}

/// Renders the results of one file of a directory scan: the file's
/// display name first, then one rendered line per matching line.
pub fn format_results_dir(file_name: &str, results: &Vec<LineResult>) -> (r: Vec<String>)
    ensures
        str_views(r@) == seq![file_name@] + formatted_lines(results@),
{
    let mut r: Vec<String> = Vec::new();
    r.push(file_name.to_owned());
    let formatted = format_results(results);
    let mut i: usize = 0;
    proof {
        assert(str_views(r@) =~= seq![file_name@] + formatted_lines(results@).take(0));
    }
    while i < formatted.len()
        invariant
            i <= formatted@.len(),
            str_views(formatted@) == formatted_lines(results@),
            str_views(r@) == seq![file_name@] + formatted_lines(results@).take(i as int),
        decreases formatted@.len() - i,
    {
        let ghost old_r = r@;
        r.push(formatted[i].clone());
        proof {
            assert(str_views(r@) =~= str_views(old_r).push(r@.last()@));
            assert(r@.last()@ == formatted_lines(results@)[i as int]);
            assert(str_views(r@) =~= seq![file_name@] + formatted_lines(results@).take(i + 1));
        }
        i += 1;
    }
    proof {
        assert(formatted_lines(results@).take(formatted_lines(results@).len() as int)
            =~= formatted_lines(results@));
    }
    r
}

} // verus!
