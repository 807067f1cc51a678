use mcadmin::text::{parse_unsigned, push_decimal, split_words, str_equals, IntErrorKind};

#[test]
fn parse_unsigned_reads_plain_digits() {
    assert_eq!(parse_unsigned("25565", 65535), Ok(25565));
    assert_eq!(parse_unsigned("0", 65535), Ok(0));
    assert_eq!(parse_unsigned("0012", 65535), Ok(12));
}

#[test]
fn parse_unsigned_accepts_a_plus_sign() {
    assert_eq!(parse_unsigned("+42", 65535), Ok(42));
}

#[test]
fn parse_unsigned_refuses_other_text() {
    assert_eq!(parse_unsigned("", 65535), Err(IntErrorKind::Empty));
    assert_eq!(parse_unsigned("+", 65535), Err(IntErrorKind::InvalidDigit));
    assert_eq!(parse_unsigned("-", 65535), Err(IntErrorKind::InvalidDigit));
    assert_eq!(parse_unsigned("-1", 65535), Err(IntErrorKind::InvalidDigit));
    assert_eq!(parse_unsigned(" 1", 65535), Err(IntErrorKind::InvalidDigit));
    assert_eq!(parse_unsigned("1 ", 65535), Err(IntErrorKind::InvalidDigit));
    assert_eq!(parse_unsigned("12a", 65535), Err(IntErrorKind::InvalidDigit));
    assert_eq!(parse_unsigned("++1", 65535), Err(IntErrorKind::InvalidDigit));
}

#[test]
fn parse_unsigned_respects_the_bound() {
    assert_eq!(parse_unsigned("65535", 65535), Ok(65535));
    assert_eq!(parse_unsigned("65536", 65535), Err(IntErrorKind::PosOverflow));
    assert_eq!(parse_unsigned("18446744073709551615", u64::MAX), Ok(u64::MAX));
    assert_eq!(parse_unsigned("18446744073709551616", u64::MAX), Err(IntErrorKind::PosOverflow));
    assert_eq!(parse_unsigned("99999999999999999999999", u64::MAX), Err(IntErrorKind::PosOverflow));
    assert_eq!(parse_unsigned("99999999999999999999x", u64::MAX), Err(IntErrorKind::PosOverflow));
    assert_eq!(parse_unsigned("9x9999999999999999999999", u64::MAX), Err(IntErrorKind::InvalidDigit));
}

#[test]
fn parse_unsigned_agrees_with_std() {
    for text in ["0", "7", "+7", "-7", "", "+", "65535", "65536", "00065535", "1_0", "٣"] {
        let std = text.parse::<u16>();
        assert_eq!(parse_unsigned(text, 65535).ok(), std.clone().ok().map(|v| v as u64), "{:?}", text);
        if let (Err(ours), Err(e)) = (parse_unsigned(text, 65535), std) {
            assert_eq!(ours.description(), e.to_string(), "{:?}", text);
        }
    }
    for text in ["18446744073709551616", "", "+", "12x", "99999999999999999999x"] {
        let e = text.parse::<u64>().unwrap_err();
        assert_eq!(parse_unsigned(text, u64::MAX).unwrap_err().description(), e.to_string(), "{:?}", text);
    }
}

#[test]
fn push_decimal_writes_shortest_decimal() {
    let mut s = String::from("n=");
    push_decimal(&mut s, 1200);
    assert_eq!(s, "n=1200");
    let mut z = String::new();
    push_decimal(&mut z, 0);
    assert_eq!(z, "0");
    let mut m = String::new();
    push_decimal(&mut m, u64::MAX);
    assert_eq!(m, u64::MAX.to_string());
}

#[test]
fn split_words_takes_runs_between_whitespace() {
    assert_eq!(split_words("  a  bc\td\n"), vec!["a", "bc", "d"]);
    assert_eq!(split_words(""), Vec::<String>::new());
    assert_eq!(split_words(" \t\r\n "), Vec::<String>::new());
    assert_eq!(split_words("'say now'"), vec!["'say", "now'"]);
}

#[test]
fn split_words_knows_unicode_whitespace() {
    let text = "\u{3000}x\u{a0}y\u{2028}z\u{85}w";
    assert_eq!(split_words(text), vec!["x", "y", "z", "w"]);
    assert_eq!(split_words(text), text.split_whitespace().collect::<Vec<_>>());
}

#[test]
fn str_equals_compares_characters() {
    assert!(str_equals("help", "help"));
    assert!(!str_equals("help", "hel"));
    assert!(!str_equals("help", "Help"));
    assert!(str_equals("", ""));
}

#[test]
fn words_are_nonempty_and_without_whitespace() {
    for text in ["a  b", " x\u{3000}\u{3000}y ", "\t\t", "one"] {
        for w in split_words(text) {
            assert!(!w.is_empty());
            assert!(!w.chars().any(char::is_whitespace));
        }
    }
}
