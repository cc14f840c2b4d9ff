use phoneme_diff::segment::{is_sentence_mark, is_white_space, split_sentences};

fn by_regex(text: &str) -> Vec<String> {
    let marks = lazy_regex::Regex::new("[\u{3002}\u{300c}\u{300d}]").unwrap();
    let spaces = lazy_regex::Regex::new(r"\s+").unwrap();
    marks
        .split(text)
        .map(|s| spaces.replace_all(s, "").to_string())
        .filter(|s| !s.is_empty())
        .collect()
}

#[test]
fn text_is_cut_at_sentence_marks() {
    assert_eq!(
        split_sentences("\u{4eca}\u{65e5}\u{306f}\u{3002}\u{6674}\u{308c}\u{3002}"),
        vec!["\u{4eca}\u{65e5}\u{306f}".to_string(), "\u{6674}\u{308c}".to_string()]
    );
    assert_eq!(
        split_sentences("a\u{300c}b\u{300d}c"),
        vec!["a".to_string(), "b".to_string(), "c".to_string()]
    );
}

#[test]
fn white_space_is_taken_out_and_empty_pieces_dropped() {
    assert_eq!(
        split_sentences(" a b\n\u{3002}\u{3000}\t\u{3002}\u{3002}c\r\n"),
        vec!["ab".to_string(), "c".to_string()]
    );
    assert_eq!(split_sentences(""), Vec::<String>::new());
    assert_eq!(split_sentences(" \n\u{3002}\u{300c}\u{300d}"), Vec::<String>::new());
    assert_eq!(split_sentences("abc"), vec!["abc".to_string()]);
}

#[test]
fn marks_and_spaces_are_the_expected_characters() {
    for c in ['\u{3002}', '\u{300c}', '\u{300d}'] {
        assert!(is_sentence_mark(c));
    }
    for c in ['.', '\u{3001}', '\u{300e}', 'a', ' '] {
        assert!(!is_sentence_mark(c));
    }
    for n in 0..0x3100u32 {
        if let Some(c) = char::from_u32(n) {
            assert_eq!(is_white_space(c), c.is_whitespace(), "U+{:04X}", n);
        }
    }
}

#[test]
fn segmentation_agrees_with_the_regular_expressions() {
    let samples = [
        "",
        "\u{3002}",
        "a",
        " a \u{3002} b ",
        "\u{543e}\u{8f29}\u{306f}\u{732b}\u{3067}\u{3042}\u{308b}\u{3002}\u{540d}\u{524d}\u{306f}\u{307e}\u{3060}\u{7121}\u{3044}\u{3002}",
        "\u{300c}\u{3053}\u{3093}\u{306b}\u{3061}\u{306f}\u{300d}\u{3068}\u{8a00}\u{3063}\u{305f}\u{3002}\n\u{3000}\u{6b21}\u{306e}\u{884c}",
        "x\u{85}y\u{a0}z\u{1680}\u{2000}\u{200a}\u{2028}\u{2029}\u{202f}\u{205f}w\u{3002}\u{200b}\u{3002}\u{feff}",
        "\u{3002}\u{3002}a\u{3002}\u{3002}",
        "tab\there\u{b}\u{c}\u{3002}",
    ];
    for text in samples {
        assert_eq!(split_sentences(text), by_regex(text), "{:?}", text);
    }
}
