use progressbox::collate::str_le;
use progressbox::text::{decimal_text, is_blank_text, parse_u64, same_text, trim};

#[test]
fn parse_reads_plain_and_plus_signed_numbers() {
    assert_eq!(parse_u64("42"), Some(42));
    assert_eq!(parse_u64("+7"), Some(7));
    assert_eq!(parse_u64("0007"), Some(7));
    assert_eq!(parse_u64("18446744073709551615"), Some(u64::MAX));
}

#[test]
fn parse_refuses_what_u64_from_str_refuses() {
    assert_eq!(parse_u64(""), None);
    assert_eq!(parse_u64("+"), None);
    assert_eq!(parse_u64("-1"), None);
    assert_eq!(parse_u64("++1"), None);
    assert_eq!(parse_u64("1.5"), None);
    assert_eq!(parse_u64(" 12"), None);
    assert_eq!(parse_u64("18446744073709551616"), None);
    assert_eq!(parse_u64("99999999999999999999999"), None);
}

#[test]
fn parse_agrees_with_std_on_samples() {
    for s in ["0", "1", "+12", "-3", "", "abc", "4294967296", "18446744073709551616", "١٢"] {
        assert_eq!(parse_u64(s), s.parse::<u64>().ok(), "input {:?}", s);
    }
}

#[test]
fn trim_strips_unicode_whitespace() {
    assert_eq!(trim("  a b \t\n"), "a b");
    assert_eq!(trim("\u{3000}x\u{a0}\u{2029}"), "x");
    assert_eq!(trim(""), "");
    assert_eq!(trim(" \u{85} "), "");
    for s in ["  q ", "\u{2000}\u{200a}w\u{202f}", "\u{200b}z", "x\u{1680}"] {
        assert_eq!(trim(s), s.trim(), "input {:?}", s);
    }
}

#[test]
fn blank_text_is_all_whitespace() {
    assert!(is_blank_text(""));
    assert!(is_blank_text(" \t\r\n"));
    assert!(!is_blank_text(" a "));
}

#[test]
fn decimal_text_writes_to_string() {
    assert_eq!(decimal_text(0), "0");
    assert_eq!(decimal_text(7), "7");
    assert_eq!(decimal_text(1234), "1234");
    assert_eq!(decimal_text(u64::MAX), u64::MAX.to_string());
}

#[test]
fn decimal_text_reads_back() {
    for n in [0u64, 9, 10, 99, 100, 65535, 1 << 40, u64::MAX] {
        assert_eq!(parse_u64(&decimal_text(n)), Some(n));
    }
}

#[test]
fn same_text_compares_contents() {
    assert!(same_text("abc", "abc"));
    assert!(!same_text("abc", "abd"));
    assert!(!same_text("ab", "abc"));
}

#[test]
fn str_le_orders_bytes() {
    assert!(str_le("a", "b"));
    assert!(!str_le("b", "a"));
    assert!(str_le("ab", "b"));
    assert!(str_le("a", "ab"));
    assert!(!str_le("ab", "a"));
    assert!(str_le("Z", "a"));
    assert!(str_le("", ""));
    assert!(str_le("same", "same"));
    assert!(str_le("é", "ê"));
}
