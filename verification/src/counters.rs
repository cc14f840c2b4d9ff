//! The counters of a run: how many sentences matched, mismatched lightly,
//! mismatched fatally, or could not be compared.

use vstd::prelude::*;
use crate::verdict::Outcome;

verus! {

/// Counts of sentences by outcome, for one file or for a whole run.
#[derive(Clone, Copy, Debug, PartialEq, Eq, Structural)]
pub struct RunCounters {
    pub matches: u64,
    pub light_mismatches: u64,
    pub fatal_mismatches: u64,
    pub errors: u64,
}

/// How many of `outcomes` are `which`.
pub open spec fn occurrences(outcomes: Seq<Outcome>, which: Outcome) -> nat
    decreases outcomes.len(),
{
    if outcomes.len() == 0 {
        0
    } else {
        occurrences(outcomes.drop_last(), which) + if outcomes.last() == which {
            1nat
        } else {
            0nat
        }
    }
}

impl RunCounters {
    /// The count kept for `which`.
    pub open spec fn count(self, which: Outcome) -> nat {
        match which {
            Outcome::Match => self.matches as nat,
            Outcome::LightMismatch => self.light_mismatches as nat,
            Outcome::FatalMismatch => self.fatal_mismatches as nat,
            Outcome::Error => self.errors as nat,
        }
    }

    /// The number of sentences counted.
    pub open spec fn total(self) -> nat {
        (self.matches + self.light_mismatches + self.fatal_mismatches + self.errors) as nat
    }

    /// Whether the counters are those of the sentences with these outcomes.
    pub open spec fn counts(self, outcomes: Seq<Outcome>) -> bool {
        forall|which: Outcome| self.count(which) == occurrences(outcomes, which)
    }

    /// Counters that have counted nothing.
    pub fn new() -> (r: RunCounters)
        ensures
            r.matches == 0,
            r.light_mismatches == 0,
            r.fatal_mismatches == 0,
            r.errors == 0,
            r.counts(Seq::empty()),
    {
        RunCounters { matches: 0, light_mismatches: 0, fatal_mismatches: 0, errors: 0 }
    }

    /// Whether one more sentence with this outcome can be counted.
    pub fn has_room(&self, outcome: Outcome) -> (r: bool)
        ensures
            r == (self.count(outcome) < u64::MAX),
    {
        match outcome {
            Outcome::Match => self.matches < u64::MAX,
            Outcome::LightMismatch => self.light_mismatches < u64::MAX,
            Outcome::FatalMismatch => self.fatal_mismatches < u64::MAX,
            Outcome::Error => self.errors < u64::MAX,
        }
    }

    /// Whether one more sentence can be counted, whatever its outcome.
    pub fn has_room_for_any(&self) -> (r: bool)
        ensures
            r == (forall|which: Outcome| self.count(which) < u64::MAX),
    {
        let r = self.matches < u64::MAX && self.light_mismatches < u64::MAX
            && self.fatal_mismatches < u64::MAX && self.errors < u64::MAX;
        proof {
            if !r {
                assert(self.count(Outcome::Match) >= u64::MAX || self.count(Outcome::LightMismatch)
                    >= u64::MAX || self.count(Outcome::FatalMismatch) >= u64::MAX || self.count(
                    Outcome::Error,
                ) >= u64::MAX);
            }
        }
        r
    }

    /// Counts one sentence: the count for its outcome grows by one, the
    /// other three stay.
    pub fn record(&mut self, outcome: Outcome)
        requires
            old(self).count(outcome) < u64::MAX,
        ensures
            forall|which: Outcome|
                final(self).count(which) == old(self).count(which) + if which == outcome {
                    1nat
                } else {
                    0nat
                },
            final(self).total() == old(self).total() + 1,
    {
        match outcome {
            Outcome::Match => {
                self.matches = self.matches + 1;
            },
            Outcome::LightMismatch => {
                self.light_mismatches = self.light_mismatches + 1;
            },
            Outcome::FatalMismatch => {
                self.fatal_mismatches = self.fatal_mismatches + 1;
            },
            Outcome::Error => {
                self.errors = self.errors + 1;
            },
        }
    }

    /// Whether the counts of `other` can be added to these.
    pub fn can_absorb(&self, other: &RunCounters) -> (r: bool)
        ensures
            r == (forall|which: Outcome| self.count(which) + other.count(which) <= u64::MAX),
    {
        let r = self.matches <= u64::MAX - other.matches && self.light_mismatches <= u64::MAX
            - other.light_mismatches && self.fatal_mismatches <= u64::MAX - other.fatal_mismatches
            && self.errors <= u64::MAX - other.errors;
        proof {
            if !r {
                assert(self.count(Outcome::Match) + other.count(Outcome::Match) > u64::MAX
                    || self.count(Outcome::LightMismatch) + other.count(Outcome::LightMismatch)
                    > u64::MAX || self.count(Outcome::FatalMismatch) + other.count(
                    Outcome::FatalMismatch,
                ) > u64::MAX || self.count(Outcome::Error) + other.count(Outcome::Error)
                    > u64::MAX);
            }
        }
        r
    }

    /// Adds the counts of one file to those of the run.
    pub fn absorb(&mut self, other: &RunCounters)
        requires
            forall|which: Outcome| old(self).count(which) + other.count(which) <= u64::MAX,
        ensures
            forall|which: Outcome|
                final(self).count(which) == old(self).count(which) + other.count(which),
            final(self).total() == old(self).total() + other.total(),
    {
        assert(self.count(Outcome::Match) + other.count(Outcome::Match) <= u64::MAX);
        assert(self.count(Outcome::LightMismatch) + other.count(Outcome::LightMismatch)
            <= u64::MAX);
        assert(self.count(Outcome::FatalMismatch) + other.count(Outcome::FatalMismatch)
            <= u64::MAX);
        assert(self.count(Outcome::Error) + other.count(Outcome::Error) <= u64::MAX);
        self.matches = self.matches + other.matches;
        self.light_mismatches = self.light_mismatches + other.light_mismatches;
        self.fatal_mismatches = self.fatal_mismatches + other.fatal_mismatches;
        self.errors = self.errors + other.errors;
    }
}

/// Every outcome is counted once: the four counts of a sequence of outcomes
/// add up to its length.
pub proof fn occurrences_add_up(outcomes: Seq<Outcome>)
    ensures
        occurrences(outcomes, Outcome::Match) + occurrences(outcomes, Outcome::LightMismatch)
            + occurrences(outcomes, Outcome::FatalMismatch) + occurrences(outcomes, Outcome::Error)
            == outcomes.len(),
    decreases outcomes.len(),
{
    if outcomes.len() > 0 {
        occurrences_add_up(outcomes.drop_last());
    }
}

proof fn occurrences_are_bounded(outcomes: Seq<Outcome>, which: Outcome)
    ensures
        occurrences(outcomes, which) <= outcomes.len(),
    decreases outcomes.len(),
{
    if outcomes.len() > 0 {
        occurrences_are_bounded(outcomes.drop_last(), which);
    }
}

/// Counters that count the sentences of a file add up to the number of
/// those sentences.
pub proof fn counters_add_up(counters: RunCounters, outcomes: Seq<Outcome>)
    requires
        counters.counts(outcomes),
    ensures
        counters.matches + counters.light_mismatches + counters.fatal_mismatches
            + counters.errors == outcomes.len(),
{
    occurrences_add_up(outcomes);
}

/// Counting one more sentence keeps the counters those of the sentences
/// counted so far.
pub proof fn record_keeps_counts(
    before: RunCounters,
    after: RunCounters,
    outcomes: Seq<Outcome>,
    outcome: Outcome,
)
    requires
        before.counts(outcomes),
        forall|which: Outcome|
            after.count(which) == before.count(which) + if which == outcome {
                1nat
            } else {
                0nat
            },
    ensures
        after.counts(outcomes.push(outcome)),
{
    assert(outcomes.push(outcome).drop_last() =~= outcomes);
}

/// The counters of a file whose sentences had these outcomes, in any order.
pub fn tally(outcomes: &Vec<Outcome>) -> (r: RunCounters)
    ensures
        r.counts(outcomes@),
        r.total() == outcomes.len(),
{
    let mut counters = RunCounters::new();
    let mut i: usize = 0;
    while i < outcomes.len()
        invariant
            i <= outcomes.len(),
            counters.counts(outcomes@.take(i as int)),
        decreases outcomes.len() - i,
    {
        let ghost before = counters;
        proof {
            occurrences_are_bounded(outcomes@.take(i as int), outcomes@[i as int]);
        }
        counters.record(outcomes[i]);
        proof {
            record_keeps_counts(before, counters, outcomes@.take(i as int), outcomes@[i as int]);
            assert(outcomes@.take(i as int).push(outcomes@[i as int]) =~= outcomes@.take(
                i as int + 1,
            ));
        }
        i += 1;
    }
    proof {
        assert(outcomes@.take(outcomes.len() as int) =~= outcomes@);
        counters_add_up(counters, outcomes@);
    }
    counters
}

} // verus!
