//! Segmentation of a text into the sentences that are compared one by one.
//!
//! The text is cut at every sentence mark; white space is taken out of each
//! piece; pieces with nothing left are dropped.

use vstd::prelude::*;
use vstd::std_specs::iter::IteratorSpec;

verus! {

/// The marks at which a text is cut: the ideographic full stop and the
/// opening and closing corner brackets.
pub open spec fn ends_sentence(c: char) -> bool {
    c == '\u{3002}' || c == '\u{300c}' || c == '\u{300d}'
}

/// The characters with the Unicode property `White_Space`.
pub open spec fn is_space(c: char) -> bool {
    ||| '\u{9}' <= c && c <= '\u{d}'
    ||| c == ' '
    ||| c == '\u{85}'
    ||| c == '\u{a0}'
    ||| c == '\u{1680}'
    ||| '\u{2000}' <= c && c <= '\u{200a}'
    ||| c == '\u{2028}'
    ||| c == '\u{2029}'
    ||| c == '\u{202f}'
    ||| c == '\u{205f}'
    ||| c == '\u{3000}'
}

/// The pieces between the sentence marks of `text`, in order. There is one
/// piece more than there are marks; a piece may be empty.
pub open spec fn pieces(text: Seq<char>) -> Seq<Seq<char>>
    decreases text.len(),
{
    if text.len() == 0 {
        seq![Seq::empty()]
    } else {
        let before = pieces(text.drop_last());
        if ends_sentence(text.last()) {
            before.push(Seq::empty())
        } else {
            before.drop_last().push(before.last().push(text.last()))
        }
    }
}

/// `piece` with its white space taken out.
pub open spec fn without_spaces(piece: Seq<char>) -> Seq<char>
    decreases piece.len(),
{
    if piece.len() == 0 {
        piece
    } else {
        let before = without_spaces(piece.drop_last());
        if is_space(piece.last()) {
            before
        } else {
            before.push(piece.last())
        }
    }
}

/// The pieces with their white space taken out, less those that are then
/// empty.
pub open spec fn nonempty_stripped(parts: Seq<Seq<char>>) -> Seq<Seq<char>>
    decreases parts.len(),
{
    if parts.len() == 0 {
        Seq::empty()
    } else {
        let before = nonempty_stripped(parts.drop_last());
        let piece = without_spaces(parts.last());
        if piece.len() > 0 {
            before.push(piece)
        } else {
            before
        }
    }
}

/// The sentences of `text`.
pub open spec fn sentences_of(text: Seq<char>) -> Seq<Seq<char>> {
    nonempty_stripped(pieces(text))
}

/// Whether a text is cut at `c`.
pub fn is_sentence_mark(c: char) -> (r: bool)
    ensures
        r == ends_sentence(c),
{
    c == '\u{3002}' || c == '\u{300c}' || c == '\u{300d}'
}

/// Whether `c` is white space.
pub fn is_white_space(c: char) -> (r: bool)
    ensures
        r == is_space(c),
{
    let n: u32 = c as u32;
    (0x9 <= n && n <= 0xd) || n == 0x20 || n == 0x85 || n == 0xa0 || n == 0x1680 || (0x2000 <= n
        && n <= 0x200a) || n == 0x2028 || n == 0x2029 || n == 0x202f || n == 0x205f || n
        == 0x3000
}

/// No sentence is empty, and none holds white space or a sentence mark.
pub proof fn sentences_are_clean(text: Seq<char>, i: int, j: int)
    requires
        0 <= i < sentences_of(text).len(),
        0 <= j < sentences_of(text)[i].len(),
    ensures
        !is_space(sentences_of(text)[i][j]),
        !ends_sentence(sentences_of(text)[i][j]),
{
    pieces_hold_no_mark(text);
    stripped_are_clean(pieces(text), i, j);
}

proof fn pieces_hold_no_mark(text: Seq<char>)
    ensures
        pieces(text).len() > 0,
        forall|i: int, j: int|
            0 <= i < pieces(text).len() && 0 <= j < pieces(text)[i].len() ==> !ends_sentence(
                #[trigger] pieces(text)[i][j],
            ),
    decreases text.len(),
{
    if text.len() > 0 {
        pieces_hold_no_mark(text.drop_last());
    }
}

proof fn without_spaces_keeps(piece: Seq<char>, j: int)
    requires
        0 <= j < without_spaces(piece).len(),
    ensures
        !is_space(without_spaces(piece)[j]),
        exists|k: int| 0 <= k < piece.len() && piece[k] == without_spaces(piece)[j],
    decreases piece.len(),
{
    if piece.len() > 0 {
        let before = without_spaces(piece.drop_last());
        if j < before.len() {
            without_spaces_keeps(piece.drop_last(), j);
            let k = choose|k: int|
                0 <= k < piece.drop_last().len() && piece.drop_last()[k] == before[j];
            assert(piece[k] == without_spaces(piece)[j]);
        } else {
            assert(piece[piece.len() - 1] == without_spaces(piece)[j]);
        }
    }
}

proof fn stripped_are_clean(parts: Seq<Seq<char>>, i: int, j: int)
    requires
        0 <= i < nonempty_stripped(parts).len(),
        0 <= j < nonempty_stripped(parts)[i].len(),
        forall|p: int, q: int|
            0 <= p < parts.len() && 0 <= q < parts[p].len() ==> !ends_sentence(
                #[trigger] parts[p][q],
            ),
    ensures
        !is_space(nonempty_stripped(parts)[i][j]),
        !ends_sentence(nonempty_stripped(parts)[i][j]),
    decreases parts.len(),
{
    if parts.len() > 0 {
        let before = nonempty_stripped(parts.drop_last());
        if i < before.len() {
            assert forall|p: int, q: int|
                0 <= p < parts.drop_last().len() && 0 <= q < parts.drop_last()[p].len()
                implies !ends_sentence(#[trigger] parts.drop_last()[p][q]) by {
                assert(parts.drop_last()[p][q] == parts[p][q]);
            }
            stripped_are_clean(parts.drop_last(), i, j);
        } else {
            without_spaces_keeps(parts.last(), j);
            let k = choose|k: int|
                0 <= k < parts.last().len() && parts.last()[k] == without_spaces(parts.last())[j];
            assert(parts[parts.len() - 1][k] == parts.last()[k]);
        }
    }
}

/// Cuts `text` into its sentences.
pub fn split_sentences(text: &str) -> (r: Vec<String>)
    ensures
        r.deep_view() == sentences_of(text@),
{
    let mut out: Vec<String> = Vec::new();
    let mut current = String::new();
    for c in it: text.chars()
        invariant
            it.seq() == text@,
            pieces(text@.take(it.index())).len() > 0,
            out.deep_view() == nonempty_stripped(pieces(text@.take(it.index())).drop_last()),
            current@ == without_spaces(pieces(text@.take(it.index())).last()),
    {
        let ghost seen = text@.take(it.index());
        proof {
            assert(text@.take(it.index() + 1) =~= seen.push(c));
            assert(seen.push(c).drop_last() =~= seen);
        }
        if is_sentence_mark(c) {
            proof {
                assert(pieces(seen.push(c)).drop_last() =~= pieces(seen));
            }
            if !current.as_str().is_empty() {
                out.push(current);
            }
            current = String::new();
        } else {
            proof {
                assert(pieces(seen.push(c)).drop_last() =~= pieces(seen).drop_last());
                assert(pieces(seen).last().push(c).drop_last() =~= pieces(seen).last());
            }
            if !is_white_space(c) {
                current.push(c);
            }
        }
    }
    proof {
        assert(text@.take(text@.len() as int) =~= text@);
    }
    if !current.as_str().is_empty() {
        out.push(current);
    }
    out
}

} // verus!
