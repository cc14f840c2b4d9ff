use phoneme_diff::boundary::Bounds;
use phoneme_diff::counters::RunCounters;
use phoneme_diff::policy::Severity;
use phoneme_diff::render::{
    decimal, describe, emphasis_for, emphasis_within, label, padded, paint, prefix,
    row_of_bounds, row_of_positions, summary_line, width_of_column, Cell, Emphasis,
};
use phoneme_diff::verdict::SentenceVerdict;

fn seq(tokens: &[&str]) -> Vec<String> {
    tokens.iter().map(|t| t.to_string()).collect()
}

fn cell(text: &str, emphasis: Emphasis) -> Cell {
    Cell { text: text.to_string(), emphasis }
}

#[test]
fn decimal_digits() {
    assert_eq!(decimal(0), "0");
    assert_eq!(decimal(7), "7");
    assert_eq!(decimal(10), "10");
    assert_eq!(decimal(4096), "4096");
    assert_eq!(decimal(u64::MAX), "18446744073709551615");
    for n in [1u64, 9, 11, 99, 100, 101, 123456789] {
        assert_eq!(decimal(n), n.to_string());
    }
}

#[test]
fn padding_is_on_the_left() {
    assert_eq!(padded(&"k".to_string(), 3), "  k");
    assert_eq!(padded(&"sil".to_string(), 3), "sil");
    assert_eq!(padded(&"sil".to_string(), 1), "sil");
    assert_eq!(padded(&"".to_string(), 2), "  ");
    assert_eq!(padded(&"k".to_string(), 3), format!("{:>width$}", "k", width = 3));
    // width counts characters
    assert_eq!(padded(&"\u{e9}".to_string(), 2), " \u{e9}");
}

#[test]
fn a_column_is_as_wide_as_the_longer_token_in_bytes() {
    assert_eq!(width_of_column(&"k".to_string(), &"ky".to_string()), 2);
    assert_eq!(width_of_column(&"sil".to_string(), &"a".to_string()), 3);
    assert_eq!(width_of_column(&"".to_string(), &"".to_string()), 0);
    assert_eq!(width_of_column(&"\u{3042}".to_string(), &"ab".to_string()), 3);
}

#[test]
fn positional_rows_are_aligned_and_marked() {
    let a = seq(&["k", "a", "sil"]);
    let b = seq(&["ky", "A", "x"]);
    let severities = vec![Severity::Fatal, Severity::Light, Severity::Fatal];
    assert_eq!(
        row_of_positions(&a, &b, &severities),
        vec![
            cell(" k", Emphasis::Fatal),
            cell("a", Emphasis::Light),
            cell("sil", Emphasis::Fatal)
        ]
    );
    assert_eq!(
        row_of_positions(&b, &a, &severities),
        vec![
            cell("ky", Emphasis::Fatal),
            cell("A", Emphasis::Light),
            cell("  x", Emphasis::Fatal)
        ]
    );
    assert_eq!(emphasis_for(Severity::Match), Emphasis::Plain);
}

#[test]
fn emphasis_follows_the_boundaries() {
    let r = Bounds { left_light: 1, left_fatal: 2, right_light: 6, right_fatal: 4 };
    let got: Vec<Emphasis> = (0..7).map(|i| emphasis_within(&r, i)).collect();
    assert_eq!(
        got,
        vec![
            Emphasis::Plain,
            Emphasis::Light,
            Emphasis::Fatal,
            Emphasis::Fatal,
            Emphasis::Light,
            Emphasis::Light,
            Emphasis::Plain
        ]
    );
    let none = Bounds { left_light: 3, left_fatal: 3, right_light: 3, right_fatal: 3 };
    for i in 0..3 {
        assert_eq!(emphasis_within(&none, i), Emphasis::Plain);
    }
}

#[test]
fn boundary_rows_mark_the_divergent_region() {
    let a = seq(&["a", "B", "c", "d", "e"]);
    let r = Bounds { left_light: 2, left_fatal: 2, right_light: 4, right_fatal: 4 };
    assert_eq!(
        row_of_bounds(&a, &r),
        vec![
            cell("a", Emphasis::Plain),
            cell("B", Emphasis::Plain),
            cell("c", Emphasis::Fatal),
            cell("d", Emphasis::Fatal),
            cell("e", Emphasis::Plain)
        ]
    );
    assert_eq!(row_of_bounds(&seq(&[]), &r), vec![]);
}

#[test]
fn rows_are_painted_with_one_blank_between_tokens() {
    assert_eq!(paint(&vec![]), "");
    assert_eq!(paint(&vec![cell("k", Emphasis::Plain)]), "k");
    assert_eq!(
        paint(&vec![
            cell(" k", Emphasis::Fatal),
            cell("a", Emphasis::Plain),
            cell("N", Emphasis::Light)
        ]),
        "\x1b[31m k\x1b[0m a \x1b[33mN\x1b[0m"
    );
}

#[test]
fn labels_name_the_kind_of_mismatch() {
    assert_eq!(label(&SentenceVerdict::AllMatch), "");
    assert_eq!(
        label(&SentenceVerdict::PositionalMismatch(vec![Severity::Light, Severity::Match])),
        "Light mismatch"
    );
    assert_eq!(
        label(&SentenceVerdict::PositionalMismatch(vec![Severity::Light, Severity::Fatal])),
        "Fatal mismatch"
    );
    let (v, _) = describe(&seq(&["a", "i", "u"]), &seq(&["a", "i"]));
    assert_eq!(label(&v), "Fatal mismatch (length mismatch: A=3, B=2)");
}

#[test]
fn identical_sequences_are_not_reported() {
    let (v, report) = describe(&seq(&["k", "a"]), &seq(&["k", "a"]));
    assert_eq!(v, SentenceVerdict::AllMatch);
    assert_eq!(report, None);
}

#[test]
fn a_light_mismatch_is_reported_with_its_rows() {
    let (v, report) = describe(&seq(&["k", "a"]), &seq(&["K", "a"]));
    assert_eq!(
        v,
        SentenceVerdict::PositionalMismatch(vec![Severity::Light, Severity::Match])
    );
    let report = report.unwrap();
    assert_eq!(report.emphasis, Emphasis::Light);
    assert_eq!(report.label, "Light mismatch");
    assert_eq!(paint(&report.row_a), "\x1b[33mk\x1b[0m a");
    assert_eq!(paint(&report.row_b), "\x1b[33mK\x1b[0m a");
}

#[test]
fn a_length_mismatch_is_reported_as_fatal() {
    let (_, report) = describe(&seq(&["a", "B", "c", "d", "e"]), &seq(&["a", "b", "X", "e"]));
    let report = report.unwrap();
    assert_eq!(report.emphasis, Emphasis::Fatal);
    assert_eq!(report.label, "Fatal mismatch (length mismatch: A=5, B=4)");
    assert_eq!(paint(&report.row_a), "a B \x1b[31mc\x1b[0m \x1b[31md\x1b[0m e");
    assert_eq!(paint(&report.row_b), "a b \x1b[31mX\x1b[0m e");
}

#[test]
fn summary_and_prefix_lines() {
    let c = RunCounters { matches: 12, light_mismatches: 0, fatal_mismatches: 3, errors: 1 };
    assert_eq!(
        summary_line("a.txt", &c),
        "a.txt: 12 matches, 0 light mismatches, 3 fatal mismatches, 1 errors"
    );
    assert_eq!(
        summary_line("Total", &RunCounters::new()),
        "Total: 0 matches, 0 light mismatches, 0 fatal mismatches, 0 errors"
    );
    assert_eq!(prefix("a.txt", 2, 10), "[a.txt : 2 / 10]: ");
}
