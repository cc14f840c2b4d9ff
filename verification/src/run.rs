//! One step of a run: what the results of the two pipelines for one
//! sentence add to the counters, and what there is to report.

use vstd::prelude::*;
use crate::counters::RunCounters;
use crate::render::{describe, report_of, Report};
use crate::verdict::{
    classify_outcome, judges, outcome_of, tokens_of, verdict_view, Outcome, SentenceVerdict,
};

verus! {

/// What came of one sentence.
#[derive(Debug, PartialEq, Eq)]
pub struct Processed {
    /// The verdict; none if a pipeline gave no sequence.
    pub verdict: Option<SentenceVerdict>,
    /// The report; none unless the two sequences differ.
    pub report: Option<Report>,
}

/// Whether `p` is what comes of a sentence for which the pipelines gave
/// `a` and `b`, each a sequence or nothing.
pub open spec fn comes_of(p: Processed, a: Option<Seq<Seq<char>>>, b: Option<Seq<Seq<char>>>) -> bool {
    match (a, b) {
        (Some(x), Some(y)) => {
            &&& p.verdict matches Some(v)
            &&& judges(v@, x, y)
            &&& p.report is None <==> v@ is AllMatch
            &&& p.report matches Some(report) ==> report@ == report_of(v@, x, y)
        },
        _ => p.verdict is None && p.report is None,
    }
}

/// Takes the results of the two pipelines for one sentence, counts the
/// sentence by its outcome and says what there is to report. A sentence for
/// which either pipeline failed is counted as an error and has no verdict.
pub fn process_sentence(
    counters: &mut RunCounters,
    a: &Option<Vec<String>>,
    b: &Option<Vec<String>>,
) -> (r: Processed)
    requires
        forall|which: Outcome| old(counters).count(which) < u64::MAX,
    ensures
        comes_of(r, tokens_of(*a), tokens_of(*b)),
        forall|which: Outcome|
            final(counters).count(which) == old(counters).count(which) + if which == outcome_of(
                verdict_view(r.verdict),
            ) {
                1nat
            } else {
                0nat
            },
        final(counters).total() == old(counters).total() + 1,
{
    let r = match (a, b) {
        (Some(x), Some(y)) => {
            let (verdict, report) = describe(x, y);
            Processed { verdict: Some(verdict), report }
        },
        _ => Processed { verdict: None, report: None },
    };
    let outcome = classify_outcome(&r.verdict);
    counters.record(outcome);
    r
}

} // verus!
