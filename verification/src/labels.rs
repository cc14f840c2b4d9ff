//! The phoneme tokens of a sentence, taken from the full-context labels
//! that a pipeline gives for it.

use vstd::prelude::*;

verus! {

/// What the parser of `jlabel` reads as the current phoneme of a
/// full-context label: `None` where it rejects the label, `Some(None)`
/// where the label leaves the current phoneme undefined.
pub uninterp spec fn label_current_phoneme(label: Seq<char>) -> Option<Option<Seq<char>>>;

/// `jlabel::Label::from_str` parses a full-context label; the field
/// `phoneme.c` of what it returns is the current phoneme. The result here is
/// that field, or `None` where the parser returned an error. The parser
/// reads nothing but its argument.
#[verifier::external_body]
fn parse_current_phoneme(label: &str) -> (r: Option<Option<String>>)
    ensures
        r.deep_view() == label_current_phoneme(label@),
{
    let parsed: Result<jlabel::Label, jlabel::ParseError> = std::str::FromStr::from_str(label);
    match parsed {
        Ok(parsed) => Some(parsed.phoneme.c),
        Err(_) => None,
    }
}

/// The phonemes that are defined, in order.
pub open spec fn defined(phonemes: Seq<Option<Seq<char>>>) -> Seq<Seq<char>>
    decreases phonemes.len(),
{
    if phonemes.len() == 0 {
        Seq::empty()
    } else {
        let before = defined(phonemes.drop_last());
        match phonemes.last() {
            Some(p) => before.push(p),
            None => before,
        }
    }
}

/// Whether the parser accepts each of the labels.
pub open spec fn all_parse(labels: Seq<Seq<char>>) -> bool {
    forall|i: int| 0 <= i < labels.len() ==> label_current_phoneme(#[trigger] labels[i]) is Some
}

/// The current phoneme of each label, where each label parses.
pub open spec fn current_phonemes(labels: Seq<Seq<char>>) -> Seq<Option<Seq<char>>> {
    Seq::new(labels.len(), |i: int| label_current_phoneme(labels[i])->0)
}

/// The token sequence of a sentence from the current phoneme of each of its
/// labels: the phonemes that are defined, in the order of the labels.
pub fn defined_phonemes(phonemes: &Vec<Option<String>>) -> (r: Vec<String>)
    ensures
        r.deep_view() == defined(phonemes.deep_view()),
{
    let mut out: Vec<String> = Vec::new();
    let mut i: usize = 0;
    while i < phonemes.len()
        invariant
            i <= phonemes.len(),
            out.deep_view() == defined(phonemes.deep_view().take(i as int)),
        decreases phonemes.len() - i,
    {
        proof {
            assert(phonemes.deep_view().take(i as int + 1).drop_last() =~= phonemes.deep_view().take(
                i as int,
            ));
        }
        match &phonemes[i] {
            Some(p) => {
                out.push(p.clone());
            },
            None => {},
        }
        i += 1;
    }
    assert(phonemes.deep_view().take(phonemes.len() as int) =~= phonemes.deep_view());
    out
}

/// The current phoneme of each label, or `None` if the parser rejects one
/// of the labels.
pub fn parse_labels(labels: &Vec<String>) -> (r: Option<Vec<Option<String>>>)
    ensures
        r is Some <==> all_parse(labels.deep_view()),
        r matches Some(p) ==> p.deep_view() == current_phonemes(labels.deep_view()),
{
    let mut out: Vec<Option<String>> = Vec::new();
    let mut i: usize = 0;
    while i < labels.len()
        invariant
            i <= labels.len(),
            out.len() == i,
            forall|j: int|
                0 <= j < i ==> Some(#[trigger] out@[j].deep_view()) == label_current_phoneme(
                    labels@[j]@,
                ),
        decreases labels.len() - i,
    {
        match parse_current_phoneme(labels[i].as_str()) {
            Some(p) => {
                out.push(p);
            },
            None => {
                assert(label_current_phoneme(labels.deep_view()[i as int]) is None);
                return None;
            },
        }
        i += 1;
    }
    proof {
        assert forall|j: int| 0 <= j < labels.len() implies Some(out.deep_view()[j])
            == label_current_phoneme(#[trigger] labels.deep_view()[j]) by {
            assert(Some(out@[j].deep_view()) == label_current_phoneme(labels@[j]@));
        }
    }
    Some(out)
}

/// The token sequence of a sentence from its full-context labels, or `None`
/// if the parser rejects one of the labels.
pub fn phonemes_of_labels(labels: &Vec<String>) -> (r: Option<Vec<String>>)
    ensures
        r is Some <==> all_parse(labels.deep_view()),
        r matches Some(p) ==> p.deep_view() == defined(current_phonemes(labels.deep_view())),
{
    match parse_labels(labels) {
        Some(phonemes) => Some(defined_phonemes(&phonemes)),
        None => None,
    }
}

} // verus!
