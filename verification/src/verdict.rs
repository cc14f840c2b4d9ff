//! The verdict on the two token sequences of one sentence.

use vstd::prelude::*;
use crate::aligned::{all_match, any_fatal, compare_aligned, has_fatal, is_all_match, severities_of};
use crate::boundary::{
    boundary_verdict_is_unique, bounds_are_ordered, locate, locates, BoundaryVerdict,
};
use crate::policy::Severity;

verus! {

/// The judgment on two token sequences.
#[derive(Debug, PartialEq, Eq)]
pub enum SentenceVerdict {
    /// The sequences are the same, token by token.
    AllMatch,
    /// The sequences have the same length and differ; one severity for each
    /// position.
    PositionalMismatch(Vec<Severity>),
    /// The sequences differ in length.
    LengthMismatch(BoundaryVerdict),
}

/// A `SentenceVerdict` as a mathematical value.
pub enum VerdictView {
    AllMatch,
    PositionalMismatch(Seq<Severity>),
    LengthMismatch(BoundaryVerdict),
}

impl VerdictView {
    /// A positional mismatch holds a severity other than `Match`; a length
    /// mismatch holds two different lengths and ordered boundaries.
    pub open spec fn well_formed(self) -> bool {
        match self {
            VerdictView::AllMatch => true,
            VerdictView::PositionalMismatch(s) => !all_match(s),
            VerdictView::LengthMismatch(r) => r.len_a != r.len_b && r.well_formed(),
        }
    }
}

impl View for SentenceVerdict {
    type V = VerdictView;

    open spec fn view(&self) -> VerdictView {
        match self {
            SentenceVerdict::AllMatch => VerdictView::AllMatch,
            SentenceVerdict::PositionalMismatch(s) => VerdictView::PositionalMismatch(s@),
            SentenceVerdict::LengthMismatch(r) => VerdictView::LengthMismatch(*r),
        }
    }
}

/// Whether `v` is the verdict on `a` and `b`.
pub open spec fn judges(v: VerdictView, a: Seq<Seq<char>>, b: Seq<Seq<char>>) -> bool {
    match v {
        VerdictView::AllMatch => a == b,
        VerdictView::PositionalMismatch(s) => {
            &&& a != b
            &&& a.len() == b.len()
            &&& s == severities_of(a, b)
        },
        VerdictView::LengthMismatch(r) => {
            &&& a.len() != b.len()
            &&& locates(r, a, b)
        },
    }
}

/// What one sentence adds to the counters of a run.
#[derive(Clone, Copy, Debug, PartialEq, Eq, Structural)]
pub enum Outcome {
    /// Both pipelines gave the same sequence.
    Match,
    /// The sequences differ, and in nothing but the case of ASCII letters.
    LightMismatch,
    /// The sequences differ in length, or in some token beyond case.
    FatalMismatch,
    /// A pipeline gave no sequence.
    Error,
}

/// The outcome that a verdict stands for.
pub open spec fn outcome_of_verdict(v: VerdictView) -> Outcome {
    match v {
        VerdictView::AllMatch => Outcome::Match,
        VerdictView::PositionalMismatch(s) => if any_fatal(s) {
            Outcome::FatalMismatch
        } else {
            Outcome::LightMismatch
        },
        VerdictView::LengthMismatch(_) => Outcome::FatalMismatch,
    }
}

/// The outcome of a sentence for which a verdict was reached, or none was.
pub open spec fn outcome_of(v: Option<VerdictView>) -> Outcome {
    match v {
        Some(v) => outcome_of_verdict(v),
        None => Outcome::Error,
    }
}

/// What a pipeline gave, as a mathematical value.
pub open spec fn tokens_of(s: Option<Vec<String>>) -> Option<Seq<Seq<char>>> {
    match s {
        Some(s) => Some(s.deep_view()),
        None => None,
    }
}

/// The verdict on a sentence, if there is one, as a mathematical value.
pub open spec fn verdict_view(v: Option<SentenceVerdict>) -> Option<VerdictView> {
    match v {
        Some(v) => Some(v@),
        None => None,
    }
}

/// Whether the two sequences hold the same tokens in the same order.
pub fn same_sequence(a: &Vec<String>, b: &Vec<String>) -> (r: bool)
    ensures
        r == (a.deep_view() == b.deep_view()),
{
    if a.len() != b.len() {
        assert(a.deep_view().len() != b.deep_view().len());
        return false;
    }
    let mut i: usize = 0;
    while i < a.len()
        invariant
            i <= a.len(),
            a.len() == b.len(),
            forall|j: int| 0 <= j < i ==> a@[j]@ == b@[j]@,
        decreases a.len() - i,
    {
        if a[i] != b[i] {
            assert(a.deep_view()[i as int] != b.deep_view()[i as int]);
            return false;
        }
        i += 1;
    }
    assert(a.deep_view() =~= b.deep_view());
    true
}

/// Compares the two token sequences of one sentence.
pub fn compare(a: &Vec<String>, b: &Vec<String>) -> (r: SentenceVerdict)
    ensures
        judges(r@, a.deep_view(), b.deep_view()),
        r@.well_formed(),
{
    if same_sequence(a, b) {
        SentenceVerdict::AllMatch
    } else if a.len() == b.len() {
        let severities = compare_aligned(a, b);
        if is_all_match(&severities) {
            proof {
                let x = a.deep_view();
                let y = b.deep_view();
                assert forall|i: int| 0 <= i < x.len() implies x[i] == y[i] by {
                    assert(severities@[i] == Severity::Match);
                }
                assert(x =~= y);
            }
            SentenceVerdict::AllMatch
        } else {
            SentenceVerdict::PositionalMismatch(severities)
        }
    } else {
        SentenceVerdict::LengthMismatch(locate(a, b))
    }
}

/// The outcome that `verdict` stands for in the counters of a run.
pub fn classify_verdict(verdict: &SentenceVerdict) -> (r: Outcome)
    ensures
        r == outcome_of_verdict(verdict@),
{
    match verdict {
        SentenceVerdict::AllMatch => Outcome::Match,
        SentenceVerdict::PositionalMismatch(s) => if has_fatal(s) {
            Outcome::FatalMismatch
        } else {
            Outcome::LightMismatch
        },
        SentenceVerdict::LengthMismatch(_) => Outcome::FatalMismatch,
    }
}

/// The outcome of one sentence, from its verdict, or from there being none.
pub fn classify_outcome(verdict: &Option<SentenceVerdict>) -> (r: Outcome)
    ensures
        r == outcome_of(verdict_view(*verdict)),
{
    match verdict {
        Some(v) => classify_verdict(v),
        None => Outcome::Error,
    }
}

/// Two sequences of the same length are judged `AllMatch` exactly if they
/// hold the same text at every position; otherwise the verdict is a
/// `PositionalMismatch` with one severity for each position.
pub proof fn verdict_on_equal_lengths(v: VerdictView, a: Seq<Seq<char>>, b: Seq<Seq<char>>)
    requires
        judges(v, a, b),
        a.len() == b.len(),
    ensures
        v is AllMatch <==> (forall|i: int| 0 <= i < a.len() ==> a[i] == b[i]),
        !(v is AllMatch) ==> (v matches VerdictView::PositionalMismatch(s) && s.len() == a.len()
            && !all_match(s)),
{
    if forall|i: int| 0 <= i < a.len() ==> a[i] == b[i] {
        assert(a =~= b);
    }
    if let VerdictView::PositionalMismatch(s) = v {
        if all_match(s) {
            assert forall|i: int| 0 <= i < a.len() implies a[i] == b[i] by {
                assert(s[i] == Severity::Match);
            }
            assert(a =~= b);
        }
    }
}

/// Every verdict on two sequences is well formed.
pub proof fn verdicts_are_well_formed(v: VerdictView, a: Seq<Seq<char>>, b: Seq<Seq<char>>)
    requires
        judges(v, a, b),
    ensures
        v.well_formed(),
{
    match v {
        VerdictView::AllMatch => {},
        VerdictView::PositionalMismatch(s) => {
            verdict_on_equal_lengths(v, a, b);
        },
        VerdictView::LengthMismatch(r) => {
            bounds_are_ordered(r.a, a, b, a.len());
            bounds_are_ordered(r.b, a, b, b.len());
        },
    }
}

/// A sequence compared with itself is judged `AllMatch`.
pub proof fn verdict_on_itself(v: VerdictView, a: Seq<Seq<char>>)
    requires
        judges(v, a, a),
    ensures
        v is AllMatch,
{
}

/// At most one verdict fits two given sequences.
pub proof fn verdict_is_unique(v: VerdictView, w: VerdictView, a: Seq<Seq<char>>, b: Seq<Seq<char>>)
    requires
        judges(v, a, b),
        judges(w, a, b),
    ensures
        v == w,
{
    if let VerdictView::LengthMismatch(r) = v {
        if let VerdictView::LengthMismatch(s) = w {
            boundary_verdict_is_unique(r, s, a, b);
        }
    }
}

} // verus!
