//! The report on one sentence: its label and the two rows of tokens, each
//! token padded to the width of its column and marked with its emphasis.

use vstd::prelude::*;
use vstd::string::{StrSliceExecFns, StringExecFns};
use vstd::utf8::encode_utf8;
use crate::aligned::{any_fatal, has_fatal};
use crate::boundary::Bounds;
use crate::counters::RunCounters;
use crate::policy::Severity;
use crate::verdict::{
    classify_verdict, compare, judges, outcome_of_verdict, Outcome, SentenceVerdict, VerdictView,
};

verus! {

/// How a token is shown.
#[derive(Clone, Copy, Debug, PartialEq, Eq, Structural)]
pub enum Emphasis {
    Plain,
    Light,
    Fatal,
}

/// One token of a row: its text, padded on the left, and its emphasis.
#[derive(Debug, PartialEq, Eq)]
pub struct Cell {
    pub text: String,
    pub emphasis: Emphasis,
}

/// A `Cell` as a mathematical value.
pub struct CellView {
    pub text: Seq<char>,
    pub emphasis: Emphasis,
}

impl DeepView for Cell {
    type V = CellView;

    open spec fn deep_view(&self) -> CellView {
        CellView { text: self.text@, emphasis: self.emphasis }
    }
}

/// The report on a sentence whose two sequences differ.
#[derive(Debug, PartialEq, Eq)]
pub struct Report {
    /// Light for a light mismatch, fatal for a fatal one.
    pub emphasis: Emphasis,
    pub label: String,
    pub row_a: Vec<Cell>,
    pub row_b: Vec<Cell>,
}

/// A `Report` as a mathematical value.
pub struct ReportView {
    pub emphasis: Emphasis,
    pub label: Seq<char>,
    pub row_a: Seq<CellView>,
    pub row_b: Seq<CellView>,
}

impl View for Report {
    type V = ReportView;

    open spec fn view(&self) -> ReportView {
        ReportView {
            emphasis: self.emphasis,
            label: self.label@,
            row_a: self.row_a.deep_view(),
            row_b: self.row_b.deep_view(),
        }
    }
}

/// The decimal digit `d`, for `d` below ten.
pub open spec fn digit(d: nat) -> char {
    ((48 + d) as u8) as char
}

/// `n` in decimal digits, without leading zeros.
pub open spec fn decimal_of(n: nat) -> Seq<char>
    decreases n,
{
    if n < 10 {
        seq![digit(n)]
    } else {
        decimal_of(n / 10).push(digit(n % 10))
    }
}

/// `n` blanks; none if `n` is not positive.
pub open spec fn spaces(n: int) -> Seq<char> {
    Seq::new(
        if n > 0 {
            n as nat
        } else {
            0
        },
        |i: int| ' ',
    )
}

/// `token` after as many blanks as it has characters less than `width`.
pub open spec fn pad_to(token: Seq<char>, width: int) -> Seq<char> {
    spaces(width - token.len()) + token
}

/// The length of `token` in bytes of UTF-8.
pub open spec fn byte_len(token: Seq<char>) -> usize {
    encode_utf8(token).len() as usize
}

/// The width of the column of two tokens at the same position: the greater
/// of their lengths in bytes.
pub open spec fn column_width(x: Seq<char>, y: Seq<char>) -> usize {
    if byte_len(x) >= byte_len(y) {
        byte_len(x)
    } else {
        byte_len(y)
    }
}

/// The emphasis of a token by the severity at its position.
pub open spec fn emphasis_of(s: Severity) -> Emphasis {
    match s {
        Severity::Match => Emphasis::Plain,
        Severity::Light => Emphasis::Light,
        Severity::Fatal => Emphasis::Fatal,
    }
}

/// The emphasis of the token at index `i` by the boundaries in its
/// sequence: fatal from the fatal boundary of the left scan up to that of
/// the right scan, light between the light and the fatal boundary on either
/// side of that region, plain elsewhere.
pub open spec fn emphasis_at(r: Bounds, i: int) -> Emphasis {
    if r.left_fatal <= i < r.right_fatal {
        Emphasis::Fatal
    } else if r.left_light <= i < r.left_fatal || r.right_fatal <= i < r.right_light {
        Emphasis::Light
    } else {
        Emphasis::Plain
    }
}

/// The row of `own` beside `other`, for two sequences of the same length.
pub open spec fn positional_row(
    own: Seq<Seq<char>>,
    other: Seq<Seq<char>>,
    severities: Seq<Severity>,
) -> Seq<CellView> {
    Seq::new(
        own.len(),
        |i: int|
            CellView {
                text: pad_to(own[i], column_width(own[i], other[i]) as int),
                emphasis: emphasis_of(severities[i]),
            },
    )
}

/// The row of a sequence whose length differs from that of the other. A
/// column is as wide as its token is long in bytes.
pub open spec fn boundary_row(tokens: Seq<Seq<char>>, r: Bounds) -> Seq<CellView> {
    Seq::new(
        tokens.len(),
        |i: int|
            CellView {
                text: pad_to(tokens[i], byte_len(tokens[i]) as int),
                emphasis: emphasis_at(r, i),
            },
    )
}

/// The label of a verdict; empty for `AllMatch`, which is not reported.
pub open spec fn label_of(v: VerdictView) -> Seq<char> {
    match v {
        VerdictView::AllMatch => Seq::empty(),
        VerdictView::PositionalMismatch(s) => if any_fatal(s) {
            "Fatal mismatch"@
        } else {
            "Light mismatch"@
        },
        VerdictView::LengthMismatch(r) => "Fatal mismatch (length mismatch: A="@ + decimal_of(
            r.len_a as nat,
        ) + ", B="@ + decimal_of(r.len_b as nat) + ")"@,
    }
}

/// The emphasis of the report on a verdict.
pub open spec fn emphasis_of_verdict(v: VerdictView) -> Emphasis {
    match outcome_of_verdict(v) {
        Outcome::Match => Emphasis::Plain,
        Outcome::LightMismatch => Emphasis::Light,
        Outcome::FatalMismatch => Emphasis::Fatal,
        Outcome::Error => Emphasis::Plain,
    }
}

/// The report on two sequences with the verdict `v`.
pub open spec fn report_of(v: VerdictView, a: Seq<Seq<char>>, b: Seq<Seq<char>>) -> ReportView {
    ReportView {
        emphasis: emphasis_of_verdict(v),
        label: label_of(v),
        row_a: match v {
            VerdictView::AllMatch => Seq::empty(),
            VerdictView::PositionalMismatch(s) => positional_row(a, b, s),
            VerdictView::LengthMismatch(r) => boundary_row(a, r.a),
        },
        row_b: match v {
            VerdictView::AllMatch => Seq::empty(),
            VerdictView::PositionalMismatch(s) => positional_row(b, a, s),
            VerdictView::LengthMismatch(r) => boundary_row(b, r.b),
        },
    }
}

/// A cell as terminal text: plain as it is, light in yellow, fatal in red.
pub open spec fn painted_cell(c: CellView) -> Seq<char> {
    match c.emphasis {
        Emphasis::Plain => c.text,
        Emphasis::Light => "\x1b[33m"@ + c.text + "\x1b[0m"@,
        Emphasis::Fatal => "\x1b[31m"@ + c.text + "\x1b[0m"@,
    }
}

/// A row as terminal text: its cells, one blank between two.
pub open spec fn painted(row: Seq<CellView>) -> Seq<char>
    decreases row.len(),
{
    if row.len() == 0 {
        Seq::empty()
    } else if row.len() == 1 {
        painted_cell(row[0])
    } else {
        painted(row.drop_last()) + seq![' '] + painted_cell(row.last())
    }
}

/// The line that sums up the counters of the file or run called `name`.
pub open spec fn summary_of(name: Seq<char>, c: RunCounters) -> Seq<char> {
    name + ": "@ + decimal_of(c.matches as nat) + " matches, "@ + decimal_of(
        c.light_mismatches as nat,
    ) + " light mismatches, "@ + decimal_of(c.fatal_mismatches as nat) + " fatal mismatches, "@
        + decimal_of(c.errors as nat) + " errors"@
}

/// The prefix of the report on sentence `index` of `count` in the file
/// called `name`.
pub open spec fn prefix_of(name: Seq<char>, index: nat, count: nat) -> Seq<char> {
    "["@ + name + " : "@ + decimal_of(index) + " / "@ + decimal_of(count) + "]: "@
}

/// `n` in decimal digits.
pub fn decimal(n: u64) -> (r: String)
    ensures
        r@ == decimal_of(n as nat),
    decreases n,
{
    let d: u8 = (n % 10) as u8;
    let c: char = (48u8 + d) as char;
    if n < 10 {
        let mut out = String::new();
        out.push(c);
        out
    } else {
        let mut out = decimal(n / 10);
        out.push(c);
        out
    }
}

/// `token`, with blanks before it up to `width` characters.
pub fn padded(token: &String, width: usize) -> (r: String)
    ensures
        r@ == pad_to(token@, width as int),
{
    let n = token.as_str().unicode_len();
    let fill: usize = if width > n {
        width - n
    } else {
        0
    };
    let mut out = String::new();
    let mut k: usize = 0;
    while k < fill
        invariant
            k <= fill,
            out@ == spaces(k as int),
        decreases fill - k,
    {
        out.push(' ');
        k += 1;
    }
    out.append(token.as_str());
    out
}

/// The width of the column of two tokens at the same position.
pub fn width_of_column(x: &String, y: &String) -> (r: usize)
    ensures
        r == column_width(x@, y@),
{
    let m = x.as_str().len();
    let n = y.as_str().len();
    if m >= n {
        m
    } else {
        n
    }
}

/// The emphasis of a token by the severity at its position.
pub fn emphasis_for(s: Severity) -> (r: Emphasis)
    ensures
        r == emphasis_of(s),
{
    match s {
        Severity::Match => Emphasis::Plain,
        Severity::Light => Emphasis::Light,
        Severity::Fatal => Emphasis::Fatal,
    }
}

/// The emphasis of the token at index `i` by the boundaries in its sequence.
pub fn emphasis_within(r: &Bounds, i: usize) -> (e: Emphasis)
    ensures
        e == emphasis_at(*r, i as int),
{
    if r.left_fatal <= i && i < r.right_fatal {
        Emphasis::Fatal
    } else if (r.left_light <= i && i < r.left_fatal) || (r.right_fatal <= i && i
        < r.right_light) {
        Emphasis::Light
    } else {
        Emphasis::Plain
    }
}

/// The row of `own` beside `other`: each token padded to the width of its
/// column and marked by the severity at its position.
pub fn row_of_positions(own: &Vec<String>, other: &Vec<String>, severities: &Vec<Severity>) -> (r:
    Vec<Cell>)
    requires
        own.len() == other.len(),
        own.len() == severities.len(),
    ensures
        r.deep_view() == positional_row(own.deep_view(), other.deep_view(), severities@),
{
    let mut row: Vec<Cell> = Vec::new();
    let mut i: usize = 0;
    while i < own.len()
        invariant
            i <= own.len(),
            own.len() == other.len(),
            own.len() == severities.len(),
            row.len() == i,
            forall|j: int|
                0 <= j < i ==> #[trigger] row@[j].deep_view() == positional_row(
                    own.deep_view(),
                    other.deep_view(),
                    severities@,
                )[j],
        decreases own.len() - i,
    {
        let width = width_of_column(&own[i], &other[i]);
        let cell = Cell { text: padded(&own[i], width), emphasis: emphasis_for(severities[i]) };
        row.push(cell);
        i += 1;
    }
    row
}

/// The row of a sequence whose length differs from that of the other: each
/// token marked by the boundaries in its sequence.
pub fn row_of_bounds(tokens: &Vec<String>, bounds: &Bounds) -> (r: Vec<Cell>)
    ensures
        r.deep_view() == boundary_row(tokens.deep_view(), *bounds),
{
    let mut row: Vec<Cell> = Vec::new();
    let mut i: usize = 0;
    while i < tokens.len()
        invariant
            i <= tokens.len(),
            row.len() == i,
            forall|j: int|
                0 <= j < i ==> #[trigger] row@[j].deep_view() == boundary_row(
                    tokens.deep_view(),
                    *bounds,
                )[j],
        decreases tokens.len() - i,
    {
        let width = tokens[i].as_str().len();
        let cell = Cell { text: padded(&tokens[i], width), emphasis: emphasis_within(bounds, i) };
        row.push(cell);
        i += 1;
    }
    row
}

/// The label under which a verdict is reported.
pub fn label(verdict: &SentenceVerdict) -> (r: String)
    ensures
        r@ == label_of(verdict@),
{
    match verdict {
        SentenceVerdict::AllMatch => String::new(),
        SentenceVerdict::PositionalMismatch(s) => if has_fatal(s) {
            String::from_str("Fatal mismatch")
        } else {
            String::from_str("Light mismatch")
        },
        SentenceVerdict::LengthMismatch(r) => {
            let mut out = String::from_str("Fatal mismatch (length mismatch: A=");
            out.append(decimal(r.len_a as u64).as_str());
            out.append(", B=");
            out.append(decimal(r.len_b as u64).as_str());
            out.append(")");
            out
        },
    }
}

/// Compares the two sequences of a sentence and, unless they are the same,
/// reports on how they differ.
pub fn describe(a: &Vec<String>, b: &Vec<String>) -> (r: (SentenceVerdict, Option<Report>))
    ensures
        judges(r.0@, a.deep_view(), b.deep_view()),
        r.1 is None <==> r.0@ is AllMatch,
        r.1 matches Some(report) ==> report@ == report_of(r.0@, a.deep_view(), b.deep_view()),
{
    let verdict = compare(a, b);
    let emphasis = match classify_verdict(&verdict) {
        Outcome::LightMismatch => Emphasis::Light,
        Outcome::FatalMismatch => Emphasis::Fatal,
        _ => Emphasis::Plain,
    };
    let report = match &verdict {
        SentenceVerdict::AllMatch => None,
        SentenceVerdict::PositionalMismatch(s) => Some(
            Report {
                emphasis,
                label: label(&verdict),
                row_a: row_of_positions(a, b, s),
                row_b: row_of_positions(b, a, s),
            },
        ),
        SentenceVerdict::LengthMismatch(r) => Some(
            Report {
                emphasis,
                label: label(&verdict),
                row_a: row_of_bounds(a, &r.a),
                row_b: row_of_bounds(b, &r.b),
            },
        ),
    };
    (verdict, report)
}

/// A row as terminal text.
pub fn paint(row: &Vec<Cell>) -> (r: String)
    ensures
        r@ == painted(row.deep_view()),
{
    let mut out = String::new();
    let mut i: usize = 0;
    while i < row.len()
        invariant
            i <= row.len(),
            out@ == painted(row.deep_view().take(i as int)),
        decreases row.len() - i,
    {
        proof {
            assert(row.deep_view().take(i as int + 1).drop_last() =~= row.deep_view().take(
                i as int,
            ));
        }
        if i > 0 {
            out.push(' ');
        }
        match row[i].emphasis {
            Emphasis::Plain => {
                out.append(row[i].text.as_str());
            },
            Emphasis::Light => {
                out.append("\x1b[33m");
                out.append(row[i].text.as_str());
                out.append("\x1b[0m");
            },
            Emphasis::Fatal => {
                out.append("\x1b[31m");
                out.append(row[i].text.as_str());
                out.append("\x1b[0m");
            },
        }
        i += 1;
    }
    assert(row.deep_view().take(row.len() as int) =~= row.deep_view());
    out
}

/// The line that sums up the counters of the file or run called `name`.
pub fn summary_line(name: &str, counters: &RunCounters) -> (r: String)
    ensures
        r@ == summary_of(name@, *counters),
{
    let mut out = String::from_str(name);
    out.append(": ");
    out.append(decimal(counters.matches).as_str());
    out.append(" matches, ");
    out.append(decimal(counters.light_mismatches).as_str());
    out.append(" light mismatches, ");
    out.append(decimal(counters.fatal_mismatches).as_str());
    out.append(" fatal mismatches, ");
    out.append(decimal(counters.errors).as_str());
    out.append(" errors");
    out
}

/// The prefix of the report on sentence `index` of `count` in the file
/// called `name`.
pub fn prefix(name: &str, index: usize, count: usize) -> (r: String)
    ensures
        r@ == prefix_of(name@, index as nat, count as nat),
{
    let mut out = String::from_str("[");
    out.append(name);
    out.append(" : ");
    out.append(decimal(index as u64).as_str());
    out.append(" / ");
    out.append(decimal(count as u64).as_str());
    out.append("]: ");
    out
}

} // verus!
