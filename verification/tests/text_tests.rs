use encode::text::{
    chars_of, i32_text, i64_text, join_texts, parse_i32, push_decimal, replace_text, split_whitespace,
    IntParseError,
};

#[test]
fn decimal_text_of_integers() {
    assert_eq!(i32_text(0), "0");
    assert_eq!(i32_text(-42), "-42");
    assert_eq!(i32_text(i32::MAX), "2147483647");
    assert_eq!(i32_text(i32::MIN), "-2147483648");
    assert_eq!(i64_text(i64::MIN), i64::MIN.to_string());
    assert_eq!(i64_text(1234567890123), "1234567890123");
    let mut s = String::from("n=");
    push_decimal(&mut s, 907);
    assert_eq!(s, "n=907");
}

#[test]
fn parse_accepts_what_std_accepts() {
    for text in ["0", "17", "+17", "-17", "2147483647", "-2147483648", "007", "-0"] {
        assert_eq!(parse_i32(text), Ok(text.parse::<i32>().unwrap()), "{}", text);
    }
}

#[test]
fn parse_errors_match_std() {
    assert_eq!(parse_i32(""), Err(IntParseError::Empty));
    assert_eq!(parse_i32("+"), Err(IntParseError::InvalidDigit));
    assert_eq!(parse_i32("-"), Err(IntParseError::InvalidDigit));
    assert_eq!(parse_i32("12a"), Err(IntParseError::InvalidDigit));
    assert_eq!(parse_i32(" 1"), Err(IntParseError::InvalidDigit));
    assert_eq!(parse_i32("2147483648"), Err(IntParseError::PosOverflow));
    assert_eq!(parse_i32("-2147483649"), Err(IntParseError::NegOverflow));
    assert_eq!(parse_i32("99999999999x"), Err(IntParseError::PosOverflow));
    assert_eq!(parse_i32("12x99999999999"), Err(IntParseError::InvalidDigit));
    for text in ["", "+", "12a", "2147483648", "-2147483649"] {
        let std_message = text.parse::<i32>().unwrap_err().to_string();
        assert_eq!(parse_i32(text).unwrap_err().message(), std_message);
    }
}

#[test]
fn parse_reads_back_every_text() {
    for n in [0, 1, -1, 9, 10, -10, 4096, i32::MAX, i32::MIN, i32::MAX - 1, i32::MIN + 1] {
        assert_eq!(parse_i32(&i32_text(n)), Ok(n));
    }
}

#[test]
fn split_matches_std_split_whitespace() {
    for text in ["", "   ", "a", " a  b ", "std_commands\tstd_menu\nstd_shortcuts", "x\u{3000}y\u{85}z\u{a0}w", "a\u{200b}b"] {
        let expected: Vec<String> = text.split_whitespace().map(|s| s.to_string()).collect();
        assert_eq!(split_whitespace(text), expected, "{:?}", text);
    }
}

#[test]
fn split_words_are_clean() {
    for word in split_whitespace(" one\ttwo \u{2003} three ") {
        assert!(!word.is_empty());
        assert!(!word.chars().any(char::is_whitespace));
    }
}

#[test]
fn replace_matches_std_replace() {
    let cases = [
        ("a black cat", "black", "white"),
        ("\"black\"\"black\"", "\"black\"", "\"#fff\""),
        ("aaaa", "aa", "b"),
        ("no match here", "zz", "y"),
        ("", "x", "y"),
        ("ab", "abc", "z"),
    ];
    for (s, pat, rep) in cases {
        assert_eq!(replace_text(s, pat, rep), s.replace(pat, rep));
    }
}

#[test]
fn replace_leaves_text_without_pattern() {
    assert_eq!(replace_text("<svg fill=\"red\"/>", "\"black\"", "\"#000000\""), "<svg fill=\"red\"/>");
}

#[test]
fn chars_in_order() {
    assert_eq!(chars_of("né✓"), vec!['n', 'é', '✓']);
}

#[test]
fn texts_are_joined() {
    let parts: Vec<String> = vec!["a".to_string(), "bc".to_string(), "".to_string(), "d".to_string()];
    assert_eq!(join_texts(&parts, ", "), parts.join(", "));
    assert_eq!(join_texts(&vec![], "\n"), "");
    assert_eq!(join_texts(&vec!["only".to_string()], "\n"), "only");
}
