use phoneme_diff::labels::{defined_phonemes, parse_labels, phonemes_of_labels};

const REST: &str = "/A:-3+1+7/B:xx-xx_xx/C:02_xx+xx/D:02+xx_xx/E:xx_xx!xx_xx-xx\
/F:7_4#0_xx@1_3|1_12/G:4_4%0_xx_1/H:xx_xx/I:3-12@1+2&1-8|1+41/J:5_29/K:2+8-41";

fn label(phonemes: &str) -> String {
    format!("{}{}", phonemes, REST)
}

#[test]
fn current_phoneme_is_read_from_each_label() {
    let labels = vec![label("xx^xx-sil+n=i"), label("xx^sil-n+i=h"), label("sil^n-i+h=o")];
    assert_eq!(
        parse_labels(&labels),
        Some(vec![Some("sil".to_string()), Some("n".to_string()), Some("i".to_string())])
    );
    assert_eq!(
        phonemes_of_labels(&labels),
        Some(vec!["sil".to_string(), "n".to_string(), "i".to_string()])
    );
}

#[test]
fn undefined_phonemes_are_left_out() {
    let labels = vec![label("a^b-xx+c=d"), label("a^b-k+c=d"), label("xx^xx-xx+xx=xx")];
    assert_eq!(parse_labels(&labels), Some(vec![None, Some("k".to_string()), None]));
    assert_eq!(phonemes_of_labels(&labels), Some(vec!["k".to_string()]));
    assert_eq!(
        defined_phonemes(&vec![None, Some("a".to_string()), None, Some("b".to_string())]),
        vec!["a".to_string(), "b".to_string()]
    );
    assert_eq!(defined_phonemes(&vec![]), Vec::<String>::new());
}

#[test]
fn a_malformed_label_gives_none() {
    let labels = vec![label("xx^xx-sil+n=i"), "sil^n-i+h=o/A:broken".to_string()];
    assert_eq!(parse_labels(&labels), None);
    assert_eq!(phonemes_of_labels(&labels), None);
    assert_eq!(phonemes_of_labels(&vec!["".to_string()]), None);
    assert_eq!(phonemes_of_labels(&vec![]), Some(vec![]));
}
