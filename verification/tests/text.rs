use orchestrator::text::{parse_u32, push_decimal, push_padded_decimal, str_less, trim};

#[test]
fn trim_strips_both_ends() {
    assert_eq!(trim("  a b \t\n"), "a b");
    assert_eq!(trim("   "), "");
}

#[test]
fn parse_u32_follows_str_parse() {
    assert_eq!(parse_u32("42"), Some(42));
    assert_eq!(parse_u32("+7"), Some(7));
    assert_eq!(parse_u32("4294967295"), Some(u32::MAX));
    assert_eq!(parse_u32("4294967296"), None);
    assert_eq!(parse_u32(""), None);
    assert_eq!(parse_u32("+"), None);
    assert_eq!(parse_u32("-1"), None);
    assert_eq!(parse_u32("1a"), None);
}

#[test]
fn formatted_numbers_parse_back() {
    for n in [0u32, 9, 10, 12345, u32::MAX] {
        let mut s = String::new();
        push_decimal(&mut s, n as u64);
        assert_eq!(s, n.to_string());
        assert_eq!(parse_u32(&s), Some(n));
    }
}

#[test]
fn padded_decimal_matches_format() {
    let mut s = String::new();
    push_padded_decimal(&mut s, 7, 3);
    assert_eq!(s, format!("{:03}", 7));
    let mut t = String::new();
    push_padded_decimal(&mut t, 12345, 2);
    assert_eq!(t, "12345");
}

#[test]
fn string_order_is_lexicographic() {
    assert!(str_less("a", "b"));
    assert!(str_less("a", "ab"));
    assert!(!str_less("b", "a"));
    assert!(!str_less("a", "a"));
}

#[test]
fn trim_strips_unicode_white_space_only() {
    assert_eq!(trim("\u{3000}\u{00A0}x\u{2028}\u{0085}"), "x");
    assert_eq!(trim("\u{200B}x"), "\u{200B}x");
    assert_eq!(trim("\u{1680}\u{2009}y z\u{202F}\u{205F}"), "y z");
}
