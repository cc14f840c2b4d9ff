use phoneme_diff::counters::{tally, RunCounters};
use phoneme_diff::verdict::{classify_verdict, compare, Outcome};

fn seq(tokens: &[&str]) -> Vec<String> {
    tokens.iter().map(|t| t.to_string()).collect()
}

#[test]
fn new_counters_are_zero() {
    assert_eq!(
        RunCounters::new(),
        RunCounters { matches: 0, light_mismatches: 0, fatal_mismatches: 0, errors: 0 }
    );
}

#[test]
fn a_match_counts_once() {
    let mut c = RunCounters::new();
    let v = compare(&seq(&["k", "a"]), &seq(&["k", "a"]));
    c.record(classify_verdict(&v));
    assert_eq!(c.matches, 1);
    assert_eq!(c.light_mismatches + c.fatal_mismatches + c.errors, 0);
}

#[test]
fn positional_mismatch_counts_by_its_worst_severity() {
    let mut c = RunCounters::new();
    c.record(classify_verdict(&compare(&seq(&["k", "a"]), &seq(&["K", "a"]))));
    c.record(classify_verdict(&compare(&seq(&["k", "a"]), &seq(&["s", "A"]))));
    c.record(classify_verdict(&compare(&seq(&["k", "a"]), &seq(&["k"]))));
    assert_eq!(
        c,
        RunCounters { matches: 0, light_mismatches: 1, fatal_mismatches: 2, errors: 0 }
    );
}

#[test]
fn counters_of_a_file_add_up_to_its_sentences() {
    let outcomes = vec![
        Outcome::Match,
        Outcome::Error,
        Outcome::FatalMismatch,
        Outcome::Match,
        Outcome::LightMismatch,
        Outcome::Match,
        Outcome::FatalMismatch,
    ];
    let c = tally(&outcomes);
    assert_eq!(
        c,
        RunCounters { matches: 3, light_mismatches: 1, fatal_mismatches: 2, errors: 1 }
    );
    assert_eq!(
        c.matches + c.light_mismatches + c.fatal_mismatches + c.errors,
        outcomes.len() as u64
    );
    let mut step = RunCounters::new();
    for o in &outcomes {
        assert!(step.has_room(*o));
        step.record(*o);
    }
    assert_eq!(step, c);
    assert_eq!(tally(&vec![]), RunCounters::new());
}

#[test]
fn totals_accumulate_over_files() {
    let mut total = RunCounters::new();
    let first = RunCounters { matches: 3, light_mismatches: 1, fatal_mismatches: 2, errors: 1 };
    let second = RunCounters { matches: 10, light_mismatches: 0, fatal_mismatches: 5, errors: 4 };
    assert!(total.can_absorb(&first));
    total.absorb(&first);
    assert!(total.can_absorb(&second));
    total.absorb(&second);
    assert_eq!(
        total,
        RunCounters { matches: 13, light_mismatches: 1, fatal_mismatches: 7, errors: 5 }
    );
}

#[test]
fn full_counters_have_no_room() {
    let full = RunCounters { matches: u64::MAX, light_mismatches: 0, fatal_mismatches: 0, errors: 0 };
    assert!(!full.has_room(Outcome::Match));
    assert!(full.has_room(Outcome::Error));
    assert!(!full.has_room_for_any());
    assert!(RunCounters::new().has_room_for_any());
    let one = RunCounters { matches: 1, light_mismatches: 0, fatal_mismatches: 0, errors: 0 };
    assert!(!full.can_absorb(&one));
    assert!(one.can_absorb(&one));
}
