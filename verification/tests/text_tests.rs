use soundboard::text::{split_text, starts_with_char, text_is};

#[test]
fn split_like_std() {
    for s in ["", "a", "a\nb", "a\n", "\n", "dev one\ndev two\n\nlast", "é\nx"] {
        let expected: Vec<String> = s.split('\n').map(|p| p.to_string()).collect();
        assert_eq!(split_text(s, '\n'), expected, "input {:?}", s);
    }
}

#[test]
fn split_then_join_gives_text_back() {
    let s = "x\ny\n\nz";
    assert_eq!(split_text(s, '\n').join("\n"), s);
}

#[test]
fn text_comparisons() {
    assert!(text_is("--help", "--help"));
    assert!(!text_is("--help", "--hel"));
    assert!(!text_is("-h", "-H"));
    assert!(starts_with_char("-x", '-'));
    assert!(!starts_with_char("", '-'));
    assert!(!starts_with_char("x-", '-'));
}
