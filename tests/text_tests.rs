use commit_sense::text::{lines, non_empty_lines, parse_i64, same_text, split_on, trim};

#[test]
fn parses_signed_decimal_integers() {
    assert_eq!(parse_i64("1700000000"), Some(1700000000));
    assert_eq!(parse_i64("-5"), Some(-5));
    assert_eq!(parse_i64("+7"), Some(7));
    assert_eq!(parse_i64("9223372036854775807"), Some(i64::MAX));
    assert_eq!(parse_i64("-9223372036854775808"), Some(i64::MIN));
    assert_eq!(parse_i64("9223372036854775808"), None);
    assert_eq!(parse_i64(""), None);
    assert_eq!(parse_i64("-"), None);
    assert_eq!(parse_i64("12a"), None);
    assert_eq!(parse_i64(" 12"), None);
}

#[test]
fn lines_follow_str_lines() {
    for s in ["", "\n", "a", "a\n", "a\r\nb\n", "a\n\nb", "x\r", "\r\n\r\n"] {
        let expected: Vec<String> = s.lines().map(String::from).collect();
        assert_eq!(lines(s), expected, "lines of {:?}", s);
    }
}

#[test]
fn non_empty_lines_skip_blank_ones() {
    assert_eq!(non_empty_lines("a\n\nb\n"), vec!["a".to_string(), "b".to_string()]);
}

#[test]
fn split_follows_str_split() {
    for (s, sep) in [("a--b--", "--"), ("", "x"), ("aaa", "aa"), ("x<E>y", "<E>")] {
        let expected: Vec<String> = s.split(sep).map(String::from).collect();
        assert_eq!(split_on(s, sep), expected);
    }
}

#[test]
fn trim_follows_str_trim() {
    for s in ["  a b \n", "\u{3000}x\t", "", "   ", "\u{85}y\u{a0}"] {
        assert_eq!(trim(s), s.trim());
    }
}

#[test]
fn same_text_compares_characters() {
    assert!(same_text("abc", "abc"));
    assert!(!same_text("abc", "abd"));
    assert!(!same_text("abc", "ab"));
}
