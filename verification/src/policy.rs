//! Token equality policy: exact equality, equality up to ASCII letter case,
//! and the severity that the two together assign to a pair of tokens.

use vstd::prelude::*;

verus! {

/// How far two tokens at the same position are apart.
#[derive(Clone, Copy, Debug, PartialEq, Eq, Structural)]
pub enum Severity {
    /// The tokens are the same text.
    Match,
    /// The tokens differ, but only in the case of ASCII letters.
    Light,
    /// The tokens differ beyond the case of ASCII letters.
    Fatal,
}

/// A character with the ASCII capital letters mapped to their small
/// counterparts, and every other character left as it is.
pub open spec fn fold_ascii(c: char) -> char {
    if 'A' <= c && c <= 'Z' {
        ((c as u32) + 32) as char
    } else {
        c
    }
}

/// Two texts are the same once the ASCII capital letters are folded.
pub open spec fn same_folded(a: Seq<char>, b: Seq<char>) -> bool {
    &&& a.len() == b.len()
    &&& forall|i: int| 0 <= i < a.len() ==> fold_ascii(#[trigger] a[i]) == fold_ascii(b[i])
}

/// The severity of the pair `(a, b)`.
pub open spec fn severity_of(a: Seq<char>, b: Seq<char>) -> Severity {
    if a == b {
        Severity::Match
    } else if same_folded(a, b) {
        Severity::Light
    } else {
        Severity::Fatal
    }
}

/// `str::eq_ignore_ascii_case` of std compares two strings after mapping the
/// ASCII letters `A` to `Z` of both to `a` to `z`; no other character is
/// changed. Stated here over the characters of the two strings.
pub assume_specification[ str::eq_ignore_ascii_case ](a: &str, b: &str) -> (r: bool)
    ensures
        r == same_folded(a@, b@),
;

/// Whether the two tokens are identical as text.
pub fn exactly_equal(a: &String, b: &String) -> (r: bool)
    ensures
        r == (a@ == b@),
{
    *a == *b
}

/// Whether the two tokens are identical up to the case of ASCII letters.
pub fn case_insensitively_equal(a: &String, b: &String) -> (r: bool)
    ensures
        r == same_folded(a@, b@),
{
    a.as_str().eq_ignore_ascii_case(b.as_str())
}

/// The severity of a pair of tokens: `Match` if they are identical, `Light`
/// if they are identical only up to ASCII letter case, `Fatal` otherwise.
pub fn classify(a: &String, b: &String) -> (r: Severity)
    ensures
        r == severity_of(a@, b@),
{
    if exactly_equal(a, b) {
        Severity::Match
    } else if case_insensitively_equal(a, b) {
        Severity::Light
    } else {
        Severity::Fatal
    }
}

/// `classify` does not depend on the order of its two tokens.
pub proof fn classify_is_symmetric(a: Seq<char>, b: Seq<char>)
    ensures
        severity_of(a, b) == severity_of(b, a),
{
}

/// What each severity says of the two equalities: `Match` is exact equality,
/// `Light` is equality up to case without exact equality, and `Fatal` is the
/// failure of equality up to case. Exact equality implies equality up to
/// case, so a fatal pair is never an exact match.
pub proof fn severity_meaning(a: Seq<char>, b: Seq<char>)
    ensures
        severity_of(a, b) == Severity::Match <==> a == b,
        severity_of(a, b) == Severity::Light <==> same_folded(a, b) && a != b,
        severity_of(a, b) == Severity::Fatal <==> !same_folded(a, b),
        a == b ==> same_folded(a, b),
{
}

} // verus!
