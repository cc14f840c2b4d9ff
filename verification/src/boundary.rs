//! Localisation of the region in which two token sequences of different
//! lengths disagree, by one scan from the left and one from the right.
//!
//! Each scan pairs the tokens at the same distance from its end of the two
//! sequences and looks at the pairs in order, up to and including the first
//! pair that differs beyond case. No token is realigned: one inserted token
//! makes every later pair of the left scan a mismatch.

use vstd::prelude::*;
use crate::policy::{case_insensitively_equal, exactly_equal, same_folded};

verus! {

/// The number of pairs that a scan of `x` against `y` can form.
pub open spec fn overlap(x: Seq<Seq<char>>, y: Seq<Seq<char>>) -> int {
    if x.len() <= y.len() {
        x.len() as int
    } else {
        y.len() as int
    }
}

/// The offset of the first of the first `n` pairs that differs beyond case.
pub open spec fn first_fatal(x: Seq<Seq<char>>, y: Seq<Seq<char>>, n: int) -> Option<int>
    decreases n,
{
    if n <= 0 {
        None
    } else {
        match first_fatal(x, y, n - 1) {
            Some(i) => Some(i),
            None => if same_folded(x[n - 1], y[n - 1]) {
                None
            } else {
                Some(n - 1)
            },
        }
    }
}

/// The offset of the last of the first `n` pairs whose tokens are not the
/// same text.
pub open spec fn last_difference(x: Seq<Seq<char>>, y: Seq<Seq<char>>, n: int) -> Option<int>
    decreases n,
{
    if n <= 0 {
        None
    } else if x[n - 1] != y[n - 1] {
        Some(n - 1)
    } else {
        last_difference(x, y, n - 1)
    }
}

/// The number of pairs that a scan looks at: all of them, or those up to and
/// including the first that differs beyond case.
pub open spec fn scanned(x: Seq<Seq<char>>, y: Seq<Seq<char>>) -> int {
    match first_fatal(x, y, overlap(x, y)) {
        Some(i) => i + 1,
        None => overlap(x, y),
    }
}

/// The offset at which a scan of `x` against `y` finds fatal divergence.
pub open spec fn fatal_offset(x: Seq<Seq<char>>, y: Seq<Seq<char>>) -> Option<int> {
    first_fatal(x, y, overlap(x, y))
}

/// The offset of the last pair that a scan of `x` against `y` looks at and
/// finds not to be the same text.
pub open spec fn light_offset(x: Seq<Seq<char>>, y: Seq<Seq<char>>) -> Option<int> {
    last_difference(x, y, scanned(x, y))
}

/// The four boundary indices into one of the two sequences. An index that a
/// scan did not set is the length of that sequence.
#[derive(Clone, Copy, Debug, PartialEq, Eq, Structural)]
pub struct Bounds {
    /// Index of the last pair of the left scan that is not the same text.
    pub left_light: usize,
    /// Index of the first pair of the left scan that differs beyond case.
    pub left_fatal: usize,
    /// The sequence's length less the offset from its end of the last pair of
    /// the right scan that is not the same text.
    pub right_light: usize,
    /// The sequence's length less the offset from its end of the first pair
    /// of the right scan that differs beyond case.
    pub right_fatal: usize,
}

/// The verdict on two sequences of different lengths.
#[derive(Clone, Copy, Debug, PartialEq, Eq, Structural)]
pub struct BoundaryVerdict {
    /// Length of the first sequence.
    pub len_a: usize,
    /// Length of the second sequence.
    pub len_b: usize,
    /// Boundaries in the first sequence.
    pub a: Bounds,
    /// Boundaries in the second sequence.
    pub b: Bounds,
}

impl Bounds {
    /// On either side the light boundary is not after the fatal one, and no
    /// boundary is beyond the length `len` of the sequence.
    pub open spec fn ordered_within(self, len: nat) -> bool {
        &&& self.left_light <= self.left_fatal <= len
        &&& self.right_light <= self.right_fatal <= len
    }
}

impl BoundaryVerdict {
    /// The boundaries in each sequence are ordered and within its length.
    pub open spec fn well_formed(self) -> bool {
        &&& self.a.ordered_within(self.len_a as nat)
        &&& self.b.ordered_within(self.len_b as nat)
    }
}

/// A boundary of the left scan in a sequence of length `len`.
pub open spec fn left_bound(offset: Option<int>, len: nat) -> int {
    match offset {
        Some(i) => i,
        None => len as int,
    }
}

/// A boundary of the right scan in a sequence of length `len`.
pub open spec fn right_bound(offset: Option<int>, len: nat) -> int {
    match offset {
        Some(i) => len - i,
        None => len as int,
    }
}

/// Whether `r` holds the boundaries that the two scans of `a` against `b`
/// give in a sequence of length `len`, which is that of `a` or of `b`.
pub open spec fn bounds_within(r: Bounds, a: Seq<Seq<char>>, b: Seq<Seq<char>>, len: nat) -> bool {
    &&& r.left_light == left_bound(light_offset(a, b), len)
    &&& r.left_fatal == left_bound(fatal_offset(a, b), len)
    &&& r.right_light == right_bound(light_offset(a.reverse(), b.reverse()), len)
    &&& r.right_fatal == right_bound(fatal_offset(a.reverse(), b.reverse()), len)
}

/// Whether `r` is the boundary verdict on `a` and `b`.
pub open spec fn locates(r: BoundaryVerdict, a: Seq<Seq<char>>, b: Seq<Seq<char>>) -> bool {
    &&& r.len_a == a.len()
    &&& r.len_b == b.len()
    &&& bounds_within(r.a, a, b, a.len())
    &&& bounds_within(r.b, a, b, b.len())
}

/// Among the first `n` pairs, `first_fatal` names the least offset of a pair
/// that differs beyond case, and is `None` exactly if there is no such pair.
pub proof fn first_fatal_is_least(x: Seq<Seq<char>>, y: Seq<Seq<char>>, n: int)
    ensures
        match first_fatal(x, y, n) {
            Some(i) => {
                &&& 0 <= i < n
                &&& !same_folded(x[i], y[i])
                &&& forall|j: int| 0 <= j < i ==> same_folded(#[trigger] x[j], y[j])
            },
            None => forall|j: int| 0 <= j < n ==> same_folded(#[trigger] x[j], y[j]),
        },
    decreases n,
{
    if n > 0 {
        first_fatal_is_least(x, y, n - 1);
    }
}

/// Among the first `n` pairs, `last_difference` names the greatest offset of
/// a pair that is not the same text, and is `None` exactly if there is none.
pub proof fn last_difference_is_greatest(x: Seq<Seq<char>>, y: Seq<Seq<char>>, n: int)
    ensures
        match last_difference(x, y, n) {
            Some(i) => {
                &&& 0 <= i < n
                &&& x[i] != y[i]
                &&& forall|j: int| i < j < n ==> #[trigger] x[j] == y[j]
            },
            None => forall|j: int| 0 <= j < n ==> #[trigger] x[j] == y[j],
        },
    decreases n,
{
    if n > 0 {
        last_difference_is_greatest(x, y, n - 1);
    }
}

/// A scan that finds fatal divergence finds its light divergence at the
/// same offset; one that finds none finds its light divergence, if any,
/// within the pairs that it can form.
pub proof fn offsets_of_a_scan(x: Seq<Seq<char>>, y: Seq<Seq<char>>)
    ensures
        fatal_offset(x, y) is Some ==> light_offset(x, y) == fatal_offset(x, y),
        fatal_offset(x, y) matches Some(i) ==> 0 <= i < overlap(x, y),
        light_offset(x, y) matches Some(i) ==> 0 <= i < overlap(x, y),
{
    first_fatal_is_least(x, y, overlap(x, y));
    last_difference_is_greatest(x, y, scanned(x, y));
}

/// In each sequence the light boundary of a scan is never after its fatal
/// boundary, and no boundary is beyond the sequence's length.
pub proof fn bounds_are_ordered(r: Bounds, a: Seq<Seq<char>>, b: Seq<Seq<char>>, len: nat)
    requires
        bounds_within(r, a, b, len),
        len == a.len() || len == b.len(),
    ensures
        r.ordered_within(len),
{
    offsets_of_a_scan(a, b);
    offsets_of_a_scan(a.reverse(), b.reverse());
}

/// Where the left scan finds fatal divergence, or finds no pair that is not
/// the same text, the fatal boundary of the left scan is not after its light
/// boundary (the two are then the same index). For the right scan the light
/// boundary is never after the fatal one.
pub proof fn fatal_bound_not_after_light(r: BoundaryVerdict, a: Seq<Seq<char>>, b: Seq<Seq<char>>)
    requires
        locates(r, a, b),
        a.len() != b.len(),
        fatal_offset(a, b) is Some || light_offset(a, b) is None,
    ensures
        r.a.left_fatal <= r.a.left_light,
        r.b.left_fatal <= r.b.left_light,
        r.a.right_light <= r.a.right_fatal,
        r.b.right_light <= r.b.right_fatal,
{
    offsets_of_a_scan(a, b);
    bounds_are_ordered(r.a, a, b, a.len());
    bounds_are_ordered(r.b, a, b, b.len());
}

/// At most one boundary verdict fits two given sequences.
pub proof fn boundary_verdict_is_unique(
    r: BoundaryVerdict,
    s: BoundaryVerdict,
    a: Seq<Seq<char>>,
    b: Seq<Seq<char>>,
)
    requires
        locates(r, a, b),
        locates(s, a, b),
    ensures
        r == s,
{
}

proof fn first_fatal_found(x: Seq<Seq<char>>, y: Seq<Seq<char>>, i: int, n: int)
    requires
        0 <= i < n,
        first_fatal(x, y, i) is None,
        !same_folded(x[i], y[i]),
    ensures
        first_fatal(x, y, n) == Some(i),
    decreases n,
{
    if n > i + 1 {
        first_fatal_found(x, y, i, n - 1);
    }
}

/// The offsets that one scan finds.
struct Offsets {
    light: Option<usize>,
    fatal: Option<usize>,
}

spec fn as_int(o: Option<usize>) -> Option<int> {
    match o {
        Some(i) => Some(i as int),
        None => None,
    }
}

spec fn scan_order(a: Seq<Seq<char>>, from_end: bool) -> Seq<Seq<char>> {
    if from_end {
        a.reverse()
    } else {
        a
    }
}

/// Scans `a` against `b` from the left, or from the right if `from_end`.
fn scan(a: &Vec<String>, b: &Vec<String>, from_end: bool) -> (r: Offsets)
    ensures
        as_int(r.fatal) == fatal_offset(
            scan_order(a.deep_view(), from_end),
            scan_order(b.deep_view(), from_end),
        ),
        as_int(r.light) == light_offset(
            scan_order(a.deep_view(), from_end),
            scan_order(b.deep_view(), from_end),
        ),
{
    let ghost x = scan_order(a.deep_view(), from_end);
    let ghost y = scan_order(b.deep_view(), from_end);
    let pairs: usize = if a.len() <= b.len() {
        a.len()
    } else {
        b.len()
    };
    let mut light: Option<usize> = None;
    let mut fatal: Option<usize> = None;
    let mut i: usize = 0;
    while i < pairs
        invariant_except_break
            fatal is None,
            first_fatal(x, y, i as int) is None,
            as_int(light) == last_difference(x, y, i as int),
        invariant
            i <= pairs,
            pairs == overlap(x, y),
            pairs <= a.len(),
            pairs <= b.len(),
            x == scan_order(a.deep_view(), from_end),
            y == scan_order(b.deep_view(), from_end),
        ensures
            as_int(fatal) == fatal_offset(x, y),
            as_int(light) == light_offset(x, y),
        decreases pairs - i,
    {
        let ia: usize = if from_end {
            a.len() - 1 - i
        } else {
            i
        };
        let ib: usize = if from_end {
            b.len() - 1 - i
        } else {
            i
        };
        if !exactly_equal(&a[ia], &b[ib]) {
            light = Some(i);
        }
        if !case_insensitively_equal(&a[ia], &b[ib]) {
            fatal = Some(i);
            proof {
                first_fatal_found(x, y, i as int, pairs as int);
            }
            break ;
        }
        i += 1;
    }
    Offsets { light, fatal }
}

fn left_index(offset: Option<usize>, len: usize) -> (r: usize)
    ensures
        r == left_bound(as_int(offset), len as nat),
{
    match offset {
        Some(i) => i,
        None => len,
    }
}

fn right_index(offset: Option<usize>, len: usize) -> (r: usize)
    requires
        offset matches Some(i) ==> i <= len,
    ensures
        r == right_bound(as_int(offset), len as nat),
{
    match offset {
        Some(i) => len - i,
        None => len,
    }
}

/// Finds, by one scan from each end, the boundaries of the region in which
/// `a` and `b` disagree.
pub fn locate(a: &Vec<String>, b: &Vec<String>) -> (r: BoundaryVerdict)
    ensures
        locates(r, a.deep_view(), b.deep_view()),
        r.well_formed(),
{
    let left = scan(a, b, false);
    let right = scan(a, b, true);
    proof {
        offsets_of_a_scan(a.deep_view().reverse(), b.deep_view().reverse());
    }
    let r = BoundaryVerdict {
        len_a: a.len(),
        len_b: b.len(),
        a: Bounds {
            left_light: left_index(left.light, a.len()),
            left_fatal: left_index(left.fatal, a.len()),
            right_light: right_index(right.light, a.len()),
            right_fatal: right_index(right.fatal, a.len()),
        },
        b: Bounds {
            left_light: left_index(left.light, b.len()),
            left_fatal: left_index(left.fatal, b.len()),
            right_light: right_index(right.light, b.len()),
            right_fatal: right_index(right.fatal, b.len()),
        },
    };
    proof {
        bounds_are_ordered(r.a, a.deep_view(), b.deep_view(), a.deep_view().len());
        bounds_are_ordered(r.b, a.deep_view(), b.deep_view(), b.deep_view().len());
    }
    r
}

} // verus!
