use northcloud_oculus::text::{
    chars_of, contains_chars, decimal_string, parse_u64, parse_usize, string_from_chars, trim_str,
};

#[test]
fn parses_unsigned_integers() {
    assert_eq!(parse_u64("42"), Some(42));
    assert_eq!(parse_u64("+7"), Some(7));
    assert_eq!(parse_u64("007"), Some(7));
    assert_eq!(parse_u64(""), None);
    assert_eq!(parse_u64("+"), None);
    assert_eq!(parse_u64("-0"), None);
    assert_eq!(parse_u64(" 5"), None);
    assert_eq!(parse_u64("12a"), None);
    assert_eq!(parse_u64("18446744073709551615"), Some(u64::MAX));
    assert_eq!(parse_u64("18446744073709551616"), None);
    assert_eq!(parse_usize("20"), Some(20));
    for s in ["0", "1", "+3", "99999", "x", "", "-1"] {
        assert_eq!(parse_u64(s), s.parse::<u64>().ok());
    }
}

#[test]
fn decimal_roundtrip() {
    for n in [0u128, 9, 10, 255, 1709000000000] {
        let s = decimal_string(n);
        assert_eq!(s, n.to_string());
        if n <= u64::MAX as u128 {
            assert_eq!(parse_u64(&s), Some(n as u64));
        }
    }
}

#[test]
fn trims_unicode_white_space() {
    assert_eq!(trim_str("  a b \t\n"), "a b");
    assert_eq!(trim_str("\u{3000}x\u{a0}"), "x");
    assert_eq!(trim_str("   "), "");
    for s in [" q ", "\u{2003}z", "x\u{85}", ""] {
        assert_eq!(trim_str(s), s.trim());
    }
}

#[test]
fn substring_search() {
    let s = chars_of("fatal crash detected");
    assert!(contains_chars(&s, &chars_of("crash")));
    assert!(contains_chars(&s, &chars_of("")));
    assert!(!contains_chars(&s, &chars_of("error")));
    assert!(!contains_chars(&chars_of("ab"), &chars_of("abc")));
    assert_eq!(string_from_chars(&s), "fatal crash detected");
}
