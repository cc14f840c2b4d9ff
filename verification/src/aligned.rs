//! Position-wise comparison of two token sequences of the same length.

use vstd::prelude::*;
use crate::policy::{classify, severity_of, Severity};

verus! {

/// The severity at each position of two sequences of the same length.
pub open spec fn severities_of(a: Seq<Seq<char>>, b: Seq<Seq<char>>) -> Seq<Severity>
    recommends
        a.len() == b.len(),
{
    Seq::new(a.len(), |i: int| severity_of(a[i], b[i]))
}

/// Whether every entry is `Match`.
pub open spec fn all_match(s: Seq<Severity>) -> bool {
    forall|i: int| 0 <= i < s.len() ==> s[i] == Severity::Match
}

/// Whether some entry is `Fatal`.
pub open spec fn any_fatal(s: Seq<Severity>) -> bool {
    exists|i: int| 0 <= i < s.len() && s[i] == Severity::Fatal
}

/// Classifies the two sequences position by position, in order.
pub fn compare_aligned(a: &Vec<String>, b: &Vec<String>) -> (r: Vec<Severity>)
    requires
        a.len() == b.len(),
    ensures
        r@ == severities_of(a.deep_view(), b.deep_view()),
{
    let mut out: Vec<Severity> = Vec::new();
    let mut i: usize = 0;
    while i < a.len()
        invariant
            i <= a.len(),
            a.len() == b.len(),
            out.len() == i,
            forall|j: int| 0 <= j < i ==> out@[j] == severity_of(a@[j]@, b@[j]@),
        decreases a.len() - i,
    {
        let s = classify(&a[i], &b[i]);
        out.push(s);
        i += 1;
    }
    out
}

/// Whether every entry of `s` is `Match`.
pub fn is_all_match(s: &Vec<Severity>) -> (r: bool)
    ensures
        r == all_match(s@),
{
    let mut i: usize = 0;
    while i < s.len()
        invariant
            i <= s.len(),
            forall|j: int| 0 <= j < i ==> s@[j] == Severity::Match,
        decreases s.len() - i,
    {
        if s[i] != Severity::Match {
            return false;
        }
        i += 1;
    }
    true
}

/// Whether some entry of `s` is `Fatal`.
pub fn has_fatal(s: &Vec<Severity>) -> (r: bool)
    ensures
        r == any_fatal(s@),
{
    let mut i: usize = 0;
    while i < s.len()
        invariant
            i <= s.len(),
            forall|j: int| 0 <= j < i ==> s@[j] != Severity::Fatal,
        decreases s.len() - i,
    {
        if s[i] == Severity::Fatal {
            return true;
        }
        i += 1;
    }
    false
}

} // verus!
