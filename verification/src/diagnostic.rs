//! Turning the compiler's captured output into classified diagnostics.
//!
//! The output is read line by line. A line is tried first as a located
//! diagnostic (`file:line: message`), then as one of the two unlocated forms.
//! A line that fits none of them is passed over.

use vstd::prelude::*;
use vstd::string::StringExecFns;
use crate::text::{
    chars_of, contains_ignoring_case, contains_lowered, find_char, first_index, holds_char,
    lemma_first_index, lemma_first_index_is, parse_positive, positive_number, string_of, trim, trim_bounds,
};

verus! {

/// How serious a diagnostic is.
#[derive(Clone, Copy, Debug, PartialEq, Eq, Structural)]
pub enum Severity {
    Error,
    Warning,
}

/// The name of a severity in lower case.
pub open spec fn severity_label(severity: Severity) -> Seq<char> {
    match severity {
        Severity::Error => "error"@,
        Severity::Warning => "warning"@,
    }
}

impl Severity {
    /// The name of the severity in lower case.
    pub fn label(&self) -> (name: String)
        ensures
            name@ == severity_label(*self),
    {
        match self {
            Severity::Error => String::from_str("error"),
            Severity::Warning => String::from_str("warning"),
        }
    }
}

/// One message of the compiler, with the source line where it has one.
#[derive(Clone, Debug, PartialEq, Eq)]
pub struct LatexError {
    pub line: Option<u32>,
    pub message: String,
    pub severity: Severity,
}

/// What a `LatexError` stands for.
pub struct Diagnostic {
    pub line: Option<u32>,
    pub message: Seq<char>,
    pub severity: Severity,
}

impl View for LatexError {
    type V = Diagnostic;

    open spec fn view(&self) -> Diagnostic {
        Diagnostic { line: self.line, message: self.message@, severity: self.severity }
    }
}

impl Diagnostic {
    /// A line number, where there is one, is positive.
    pub open spec fn wf(self) -> bool {
        self.line is Some ==> self.line->0 > 0
    }
}

/// The diagnostics that a sequence of records stands for.
pub open spec fn views_of(errors: Seq<LatexError>) -> Seq<Diagnostic> {
    errors.map_values(|e: LatexError| e@)
}

pub open spec fn word_error() -> Seq<char> {
    seq!['e', 'r', 'r', 'o', 'r']
}

pub open spec fn word_warning() -> Seq<char> {
    seq!['w', 'a', 'r', 'n', 'i', 'n', 'g']
}

pub open spec fn phrase_latex_warning() -> Seq<char> {
    seq!['l', 'a', 't', 'e', 'x', ' ', 'w', 'a', 'r', 'n', 'i', 'n', 'g']
}

/// The line number and the message of a located line: the text between the
/// first two colons, trimmed, is a positive number, and the message is what
/// follows the second colon, trimmed.
pub open spec fn located(line: Seq<char>) -> Option<(u32, Seq<char>)> {
    let a = first_index(line, ':');
    let rest = line.subrange(a + 1, line.len() as int);
    let b = first_index(rest, ':');
    if a < line.len() && b < rest.len() {
        match positive_number(trim(rest.subrange(0, b))) {
            Some(n) => Some((n, trim(rest.subrange(b + 1, rest.len() as int)))),
            None => None,
        }
    } else {
        None
    }
}

/// Whether a line opens with the compiler's error marker, `! `.
pub open spec fn has_error_marker(line: Seq<char>) -> bool {
    line.len() >= 2 && line[0] == '!' && line[1] == ' '
}

/// The diagnostic that one line of output gives, if it gives one.
pub open spec fn classify(line: Seq<char>) -> Option<Diagnostic> {
    match located(line) {
        Some((n, message)) => {
            if contains_ignoring_case(message, word_error()) || holds_char(line, '!') {
                Some(Diagnostic { line: Some(n), message, severity: Severity::Error })
            } else if contains_ignoring_case(message, word_warning()) {
                Some(Diagnostic { line: Some(n), message, severity: Severity::Warning })
            } else {
                None
            }
        },
        None => {
            if has_error_marker(line) {
                Some(
                    Diagnostic {
                        line: None,
                        message: trim(line.subrange(2, line.len() as int)),
                        severity: Severity::Error,
                    },
                )
            } else if contains_ignoring_case(line, phrase_latex_warning()) {
                Some(Diagnostic { line: None, message: trim(line), severity: Severity::Warning })
            } else {
                None
            }
        },
    }
}

/// The first line of a non-empty text, without its line ending: a line ends
/// at a line feed, and a carriage return just before that line feed belongs
/// to the ending.
pub open spec fn first_line(s: Seq<char>) -> Seq<char> {
    let k = first_index(s, '\n');
    if 0 < k < s.len() && s[k - 1] == '\r' {
        s.subrange(0, k - 1)
    } else {
        s.subrange(0, k)
    }
}

/// What follows the first line and its ending.
pub open spec fn after_first_line(s: Seq<char>) -> Seq<char> {
    let k = first_index(s, '\n');
    if k < s.len() {
        s.subrange(k + 1, s.len() as int)
    } else {
        Seq::empty()
    }
}

/// The lines of a text. A line ending at the very end opens no further line.
pub open spec fn lines_of(s: Seq<char>) -> Seq<Seq<char>>
    decreases s.len(),
    via lines_of_decreases
{
    if s.len() == 0 {
        Seq::empty()
    } else {
        seq![first_line(s)] + lines_of(after_first_line(s))
    }
}

#[via_fn]
proof fn lines_of_decreases(s: Seq<char>) {
    lemma_first_index(s, '\n');
}

/// The zero or one diagnostics of a line.
pub open spec fn emitted(line: Seq<char>) -> Seq<Diagnostic> {
    match classify(line) {
        Some(d) => seq![d],
        None => Seq::empty(),
    }
}

/// The diagnostics of a sequence of lines, in the order of the lines.
pub open spec fn diagnostics_in(lines: Seq<Seq<char>>) -> Seq<Diagnostic>
    decreases lines.len(),
{
    if lines.len() == 0 {
        Seq::empty()
    } else {
        emitted(lines[0]) + diagnostics_in(lines.drop_first())
    }
}

/// The diagnostics of a captured output.
pub open spec fn diagnostics_of(output: Seq<char>) -> Seq<Diagnostic> {
    diagnostics_in(lines_of(output))
}

/// A located diagnostic carries a positive line number.
pub proof fn lemma_classified_is_well_formed(line: Seq<char>)
    ensures
        classify(line) matches Some(d) ==> d.wf(),
{
}

/// The diagnostics of two runs of lines, one after the other, are those of
/// the first run followed by those of the second: the order of the lines is
/// the order of the diagnostics.
pub proof fn lemma_diagnostics_in_order(first: Seq<Seq<char>>, second: Seq<Seq<char>>)
    ensures
        diagnostics_in(first + second) == diagnostics_in(first) + diagnostics_in(second),
    decreases first.len(),
{
    if first.len() == 0 {
        assert(first + second =~= second);
        assert(diagnostics_in(first) + diagnostics_in(second) =~= diagnostics_in(second));
    } else {
        let whole = first + second;
        assert(whole[0] == first[0]);
        assert(whole.drop_first() =~= first.drop_first() + second);
        lemma_diagnostics_in_order(first.drop_first(), second);
        assert(emitted(first[0]) + (diagnostics_in(first.drop_first()) + diagnostics_in(second))
            =~= (emitted(first[0]) + diagnostics_in(first.drop_first())) + diagnostics_in(
            second,
        ));
    }
}

/// A text that ends with a line feed, followed by a second text, has the
/// lines of the first and then those of the second.
pub proof fn lemma_lines_of_joined(first: Seq<char>, second: Seq<char>)
    requires
        first.len() == 0 || first.last() == '\n',
    ensures
        lines_of(first + second) == lines_of(first) + lines_of(second),
    decreases first.len(),
{
    if first.len() == 0 {
        assert(first + second =~= second);
        assert(lines_of(first) + lines_of(second) =~= lines_of(second));
    } else {
        let whole = first + second;
        let k = first_index(first, '\n');
        lemma_first_index(first, '\n');
        assert(k < first.len());
        assert forall|j: int| 0 <= j < k implies whole[j] != '\n' by {
            assert(whole[j] == first[j]);
        }
        assert(whole[k] == first[k]);
        lemma_first_index_is(whole, '\n', k);
        if k > 0 {
            assert(whole[k - 1] == first[k - 1]);
        }
        assert(first_line(whole) =~= first_line(first));
        let rest = after_first_line(first);
        assert(after_first_line(whole) =~= rest + second);
        if rest.len() > 0 {
            assert(rest.last() == first.last());
        }
        lemma_lines_of_joined(rest, second);
        assert(seq![first_line(first)] + (lines_of(rest) + lines_of(second)) =~= (seq![
            first_line(first),
        ] + lines_of(rest)) + lines_of(second));
    }
}

/// The diagnostics of an output that ends with a line feed, followed by a
/// second output, are those of the first and then those of the second.
pub proof fn lemma_outputs_joined(first: Seq<char>, second: Seq<char>)
    requires
        first.len() == 0 || first.last() == '\n',
    ensures
        diagnostics_of(first + second) == diagnostics_of(first) + diagnostics_of(second),
{
    lemma_lines_of_joined(first, second);
    lemma_diagnostics_in_order(lines_of(first), lines_of(second));
}

/// Every line that gives a diagnostic is reported.
pub proof fn lemma_every_finding_is_reported(lines: Seq<Seq<char>>, i: int)
    requires
        0 <= i < lines.len(),
        classify(lines[i]) is Some,
    ensures
        diagnostics_in(lines).contains(classify(lines[i])->0),
    decreases lines.len(),
{
    let d = classify(lines[i])->0;
    let rest = diagnostics_in(lines.drop_first());
    if i == 0 {
        assert((emitted(lines[0]) + rest)[0] == d);
    } else {
        lemma_every_finding_is_reported(lines.drop_first(), i - 1);
        let k = choose|k: int| 0 <= k < rest.len() && rest[k] == d;
        assert((emitted(lines[0]) + rest)[emitted(lines[0]).len() + k] == d);
    }
}

/// Every diagnostic that is reported is the finding of some line, and so is
/// well formed.
pub proof fn lemma_every_report_has_its_line(lines: Seq<Seq<char>>, k: int)
    requires
        0 <= k < diagnostics_in(lines).len(),
    ensures
        exists|i: int| 0 <= i < lines.len() && classify(#[trigger] lines[i]) == Some(diagnostics_in(lines)[k]),
        diagnostics_in(lines)[k].wf(),
    decreases lines.len(),
{
    let head = emitted(lines[0]);
    if k < head.len() {
        assert(classify(lines[0]) == Some(diagnostics_in(lines)[k]));
    } else {
        let tail = lines.drop_first();
        lemma_every_report_has_its_line(tail, k - head.len());
        let i = choose|i: int| 0 <= i < tail.len() && classify(#[trigger] tail[i]) == Some(diagnostics_in(tail)[k - head.len()]);
        assert(lines[i + 1] == tail[i]);
    }
}

/// An output without diagnostics is one in which no line gives one.
pub proof fn lemma_silent_output(lines: Seq<Seq<char>>)
    ensures
        diagnostics_in(lines).len() == 0 <==> forall|i: int|
            0 <= i < lines.len() ==> classify(#[trigger] lines[i]) is None,
    decreases lines.len(),
{
    if lines.len() > 0 {
        let tail = lines.drop_first();
        lemma_silent_output(tail);
        if diagnostics_in(lines).len() == 0 {
            assert forall|i: int| 0 <= i < lines.len() implies classify(#[trigger] lines[i]) is None by {
                if i > 0 {
                    assert(lines[i] == tail[i - 1]);
                }
            }
        }
        if forall|i: int| 0 <= i < lines.len() ==> classify(#[trigger] lines[i]) is None {
            assert(classify(lines[0]) is None);
            assert forall|i: int| 0 <= i < tail.len() implies classify(#[trigger] tail[i]) is None by {
                assert(tail[i] == lines[i + 1]);
            }
        }
    }
}

fn error_word() -> (p: Vec<char>)
    ensures
        p@ == word_error(),
{
    let p = vec!['e', 'r', 'r', 'o', 'r'];
    assert(p@ =~= word_error());
    p
}

fn warning_word() -> (p: Vec<char>)
    ensures
        p@ == word_warning(),
{
    let p = vec!['w', 'a', 'r', 'n', 'i', 'n', 'g'];
    assert(p@ =~= word_warning());
    p
}

fn latex_warning_phrase() -> (p: Vec<char>)
    ensures
        p@ == phrase_latex_warning(),
{
    let p = vec!['l', 'a', 't', 'e', 'x', ' ', 'w', 'a', 'r', 'n', 'i', 'n', 'g'];
    assert(p@ =~= phrase_latex_warning());
    p
}

/// Reads `v[lo..hi]` as a located line: the line number, and the bounds in
/// `v` of the trimmed message.
pub fn locate(v: &Vec<char>, lo: usize, hi: usize) -> (r: Option<(u32, usize, usize)>)
    requires
        lo <= hi <= v.len(),
    ensures
        match r {
            Some((n, a, b)) => lo <= a <= b <= hi && located(v@.subrange(lo as int, hi as int))
                == Some((n, v@.subrange(a as int, b as int))),
            None => located(v@.subrange(lo as int, hi as int)) is None,
        },
{
    let ghost line = v@.subrange(lo as int, hi as int);
    let first = find_char(v, lo, hi, ':');
    if first == hi {
        return None;
    }
    let ghost rest = line.subrange(first - lo + 1, line.len() as int);
    assert(rest =~= v@.subrange(first + 1, hi as int));
    let second = find_char(v, first + 1, hi, ':');
    if second == hi {
        return None;
    }
    assert(rest.subrange(0, second - first - 1) =~= v@.subrange(first + 1, second as int));
    assert(rest.subrange(second - first, rest.len() as int) =~= v@.subrange(
        second + 1,
        hi as int,
    ));
    let (ta, tb) = trim_bounds(v, first + 1, second);
    match parse_positive(v, ta, tb) {
        Some(n) => {
            let (ma, mb) = trim_bounds(v, second + 1, hi);
            Some((n, ma, mb))
        },
        None => None,
    }
}

/// The diagnostic of the line `v[lo..hi]`, if it gives one.
pub fn classify_line(v: &Vec<char>, lo: usize, hi: usize) -> (r: Option<LatexError>)
    requires
        lo <= hi <= v.len(),
    ensures
        match r {
            Some(e) => classify(v@.subrange(lo as int, hi as int)) == Some(e@),
            None => classify(v@.subrange(lo as int, hi as int)) is None,
        },
{
    let ghost line = v@.subrange(lo as int, hi as int);
    match locate(v, lo, hi) {
        Some((n, a, b)) => {
            let bang = find_char(v, lo, hi, '!');
            if bang < hi || contains_lowered(v, a, b, &error_word()) {
                Some(
                    LatexError {
                        line: Some(n),
                        message: string_of(v, a, b),
                        severity: Severity::Error,
                    },
                )
            } else if contains_lowered(v, a, b, &warning_word()) {
                Some(
                    LatexError {
                        line: Some(n),
                        message: string_of(v, a, b),
                        severity: Severity::Warning,
                    },
                )
            } else {
                None
            }
        },
        None => {
            if hi - lo >= 2 && v[lo] == '!' && v[lo + 1] == ' ' {
                assert(line.subrange(2, line.len() as int) =~= v@.subrange(lo + 2, hi as int));
                let (a, b) = trim_bounds(v, lo + 2, hi);
                Some(
                    LatexError {
                        line: None,
                        message: string_of(v, a, b),
                        severity: Severity::Error,
                    },
                )
            } else if contains_lowered(v, lo, hi, &latex_warning_phrase()) {
                let (a, b) = trim_bounds(v, lo, hi);
                Some(
                    LatexError {
                        line: None,
                        message: string_of(v, a, b),
                        severity: Severity::Warning,
                    },
                )
            } else {
                None
            }
        },
    }
}

/// Extracts the diagnostics from the compiler's captured output, in the
/// order in which they appear. Nothing is merged and nothing is sorted.
pub fn parse_latex_errors(output: &str) -> (errors: Vec<LatexError>)
    ensures
        views_of(errors@) == diagnostics_of(output@),
        forall|i: int| 0 <= i < errors.len() ==> (#[trigger] errors[i])@.wf(),
{
    let v = chars_of(output);
    let n = v.len();
    let mut errors: Vec<LatexError> = Vec::new();
    let mut pos: usize = 0;
    assert(v@.subrange(0, n as int) =~= v@);
    assert(views_of(errors@) =~= Seq::empty());
    while pos < n
        invariant
            pos <= n,
            n == v.len(),
            views_of(errors@) + diagnostics_of(v@.subrange(pos as int, n as int))
                == diagnostics_of(v@),
        decreases n - pos,
    {
        let ghost s = v@.subrange(pos as int, n as int);
        let ghost before = views_of(errors@);
        let feed = find_char(&v, pos, n, '\n');
        let end = if pos < feed && feed < n && v[feed - 1] == '\r' {
            feed - 1
        } else {
            feed
        };
        let next = if feed < n {
            feed + 1
        } else {
            n
        };
        proof {
            assert(first_line(s) =~= v@.subrange(pos as int, end as int));
            assert(after_first_line(s) =~= v@.subrange(next as int, n as int));
            let tail = lines_of(after_first_line(s));
            assert((seq![first_line(s)] + tail).drop_first() =~= tail);
            assert(diagnostics_of(s) == emitted(first_line(s)) + diagnostics_of(
                after_first_line(s),
            ));
        }
        match classify_line(&v, pos, end) {
            Some(e) => {
                errors.push(e);
                assert(views_of(errors@) =~= before + seq![e@]);
            },
            None => {},
        }
        assert(views_of(errors@) =~= before + emitted(first_line(s)));
        assert((before + emitted(first_line(s))) + diagnostics_of(after_first_line(s))
            =~= before + (emitted(first_line(s)) + diagnostics_of(after_first_line(s))));
        pos = next;
    }
    assert(views_of(errors@) + Seq::<Diagnostic>::empty() =~= views_of(errors@));
    assert forall|i: int| 0 <= i < errors.len() implies (#[trigger] errors[i])@.wf() by {
        assert(views_of(errors@)[i] == errors[i]@);
        lemma_every_report_has_its_line(lines_of(output@), i);
    }
    errors
}

} // verus!
