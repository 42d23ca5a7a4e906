use auth_service::text::{
    join_str, parse_unsigned_str, str_chars, to_ascii_lowercase, trim_str, u64_to_decimal,
    utf8_len_at_least,
};

#[test]
fn trims_unicode_white_space() {
    assert_eq!(trim_str("  a b \t\n"), "a b");
    assert_eq!(trim_str("\u{3000}x\u{a0}"), "x");
    assert_eq!(trim_str("   "), "");
    assert_eq!(trim_str(trim_str(" q ").as_str()), trim_str(" q "));
}

#[test]
fn lowercases_ascii_only() {
    assert_eq!(to_ascii_lowercase("AbC-Ä"), "abc-Ä");
}

#[test]
fn decimal_round_trip() {
    for n in [0u64, 7, 10, 65535, u64::MAX] {
        let s = u64_to_decimal(n);
        assert_eq!(s, n.to_string());
        assert_eq!(parse_unsigned_str(&s, u64::MAX), Some(n));
    }
}

#[test]
fn parses_like_std() {
    for s in ["", "+", "-1", "12a", " 1", "007", "+42", "65536", "65535"] {
        assert_eq!(parse_unsigned_str(s, u16::MAX as u64), s.parse::<u16>().ok().map(u64::from), "{s}");
    }
}

#[test]
fn byte_length_threshold() {
    assert!(utf8_len_at_least("abc", 3));
    assert!(!utf8_len_at_least("abc", 4));
    assert!(utf8_len_at_least("日本", 6));
    assert!(!utf8_len_at_least("日本", 7));
    assert!(utf8_len_at_least("", 0));
}

#[test]
fn concat_and_chars() {
    assert_eq!(join_str("ab", "çd"), "abçd");
    assert_eq!(str_chars("aé"), vec!['a', 'é']);
}
