use mx::text::{decimal_string, is_space, join_with_space, split_words, trim};

#[test]
fn split_words_drops_every_kind_of_whitespace() {
    assert_eq!(split_words("go run"), vec!["go".to_string(), "run".to_string()]);
    assert_eq!(
        split_words("  python3\t-u \n -X\u{3000}dev  "),
        vec!["python3".to_string(), "-u".to_string(), "-X".to_string(), "dev".to_string()]
    );
    assert!(split_words("").is_empty());
    assert!(split_words(" \t\u{a0}\u{2003} ").is_empty());
    assert_eq!(split_words("bash"), vec!["bash".to_string()]);
}

#[test]
fn is_space_agrees_with_std() {
    for c in ['\t', '\n', '\u{b}', '\u{c}', '\r', ' ', '\u{85}', '\u{a0}', '\u{1680}', '\u{2000}', '\u{200a}', '\u{2028}', '\u{2029}', '\u{202f}', '\u{205f}', '\u{3000}', 'a', '0', '\u{200b}', '\u{feff}', ':'] {
        assert_eq!(is_space(c), c.is_whitespace(), "{:?}", c);
    }
}

#[test]
fn decimal_string_writes_numbers() {
    assert_eq!(decimal_string(0), "0");
    assert_eq!(decimal_string(7), "7");
    assert_eq!(decimal_string(10), "10");
    assert_eq!(decimal_string(1234567890), "1234567890");
    assert_eq!(decimal_string(u128::MAX), u128::MAX.to_string());
}

#[test]
fn join_with_space_joins() {
    assert_eq!(join_with_space(&[]), "");
    assert_eq!(join_with_space(&["a".to_string()]), "a");
    assert_eq!(join_with_space(&["a".to_string(), "b c".to_string(), "".to_string()]), "a b c ");
}

#[test]
fn trim_agrees_with_std() {
    for s in ["", "   ", "a", "  a b  ", "\t\nx\u{3000}", "\u{a0}y z\u{2029}", "no-space"] {
        assert_eq!(trim(s), s.trim(), "{:?}", s);
    }
}
