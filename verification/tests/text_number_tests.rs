use evidence_backend::number::{parse_i64, parse_usize, IntErrorKind};
use evidence_backend::text::{
    chars_of, str_concat, contains, i64_to_string, is_blank, is_whitespace, str_eq, to_ascii_lowercase,
    usize_to_string,
};

#[test]
fn usize_parsing() {
    assert_eq!(parse_usize("42"), Ok(42));
    assert_eq!(parse_usize("+42"), Ok(42));
    assert_eq!(parse_usize("007"), Ok(7));
    assert_eq!(parse_usize(""), Err(IntErrorKind::Empty));
    assert_eq!(parse_usize("+"), Err(IntErrorKind::InvalidDigit));
    assert_eq!(parse_usize("-"), Err(IntErrorKind::InvalidDigit));
    assert_eq!(parse_usize("-1"), Err(IntErrorKind::InvalidDigit));
    assert_eq!(parse_usize("1a"), Err(IntErrorKind::InvalidDigit));
    assert_eq!(parse_usize(" 1"), Err(IntErrorKind::InvalidDigit));
    assert_eq!(parse_usize("18446744073709551615"), Ok(usize::MAX));
    assert_eq!(parse_usize("18446744073709551616"), Err(IntErrorKind::PosOverflow));
    assert_eq!(parse_usize("99999999999999999999x"), Err(IntErrorKind::PosOverflow));
}

#[test]
fn usize_parsing_matches_std() {
    for s in ["0", "12", "+3", "-3", "", "+", "x", "18446744073709551616", "1 2"] {
        let ours = parse_usize(s);
        let std: Result<usize, _> = s.parse();
        assert_eq!(ours.is_ok(), std.is_ok(), "{s}");
        if let (Ok(a), Ok(b)) = (ours, std) {
            assert_eq!(a, b);
        }
    }
}

#[test]
fn i64_parsing() {
    assert_eq!(parse_i64("-7"), Ok(-7));
    assert_eq!(parse_i64("+7"), Ok(7));
    assert_eq!(parse_i64("-9223372036854775808"), Ok(i64::MIN));
    assert_eq!(parse_i64("9223372036854775807"), Ok(i64::MAX));
    assert_eq!(parse_i64("9223372036854775808"), Err(IntErrorKind::PosOverflow));
    assert_eq!(parse_i64("-9223372036854775809"), Err(IntErrorKind::NegOverflow));
    assert_eq!(parse_i64("--1"), Err(IntErrorKind::InvalidDigit));
}

#[test]
fn error_messages() {
    assert_eq!(IntErrorKind::Empty.message(), "cannot parse integer from empty string");
    assert_eq!(IntErrorKind::InvalidDigit.message(), "invalid digit found in string");
    assert_eq!(IntErrorKind::PosOverflow.message(), "number too large to fit in target type");
    assert_eq!(IntErrorKind::NegOverflow.message(), "number too small to fit in target type");
    assert_eq!(IntErrorKind::Empty.message(), "".parse::<usize>().unwrap_err().to_string());
}

#[test]
fn decimal_writing() {
    assert_eq!(usize_to_string(0), "0");
    assert_eq!(usize_to_string(1234), "1234");
    assert_eq!(usize_to_string(usize::MAX), usize::MAX.to_string());
    assert_eq!(i64_to_string(-45), "-45");
    assert_eq!(i64_to_string(i64::MIN), i64::MIN.to_string());
    assert_eq!(i64_to_string(0), "0");
}

#[test]
fn decimal_roundtrip_example() {
    for n in [0usize, 9, 10, 4096, usize::MAX] {
        assert_eq!(parse_usize(&usize_to_string(n)), Ok(n));
    }
}

#[test]
fn string_helpers() {
    assert_eq!(chars_of("añb"), vec!['a', 'ñ', 'b']);
    assert_eq!(str_concat("ab", "cd"), "abcd");
    assert!(str_eq("abc", "abc"));
    assert!(!str_eq("abc", "abd"));
    assert!(!str_eq("abc", "ab"));
    assert!(contains("the database is locked", "database is locked"));
    assert!(contains("abc", ""));
    assert!(!contains("ab", "abc"));
    assert!(!contains("abcab", "ac"));
    assert_eq!(to_ascii_lowercase("DataBase Ä"), "database Ä");
    assert!(is_blank(""));
    assert!(is_blank(" \t\n\u{a0}"));
    assert!(!is_blank(" x "));
}

#[test]
fn whitespace_matches_std() {
    for c in ['\t', '\n', '\u{b}', '\u{c}', '\r', ' ', '\u{85}', '\u{a0}', '\u{1680}', '\u{2000}', '\u{200a}',
        '\u{2028}', '\u{2029}', '\u{202f}', '\u{205f}', '\u{3000}', 'a', '\u{200b}', '\u{feff}', '0', '\u{180e}']
    {
        assert_eq!(is_whitespace(c), c.is_whitespace(), "{:?}", c);
    }
}
