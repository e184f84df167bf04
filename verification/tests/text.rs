use qzone_sync::text::{
    all_ascii_digits, all_hex_digits, blank_text, byte_len, concat_str, decimal_i64,
    hex_lower_text, parse_i32, parse_i64, same_text, trim_text,
};

#[test]
fn trimming_follows_unicode_white_space() {
    assert_eq!(trim_text("\u{3000} a b\u{a0}\t\n"), "a b");
    assert_eq!(trim_text("\u{200b}a"), "\u{200b}a");
    assert_eq!(trim_text("   "), "");
    assert!(blank_text(" \u{2028}\r"));
    assert!(!blank_text(" x "));
    for s in ["", " x", "\u{85}y\u{1680}", "\u{feff}z"] {
        assert_eq!(trim_text(s), s.trim());
    }
}

#[test]
fn integers_parse_as_std_does() {
    for s in ["0", "-0", "+12", "-9223372036854775808", "9223372036854775807", "007", "", "+", "-", "1 ", "9223372036854775808", "-9223372036854775809", "1_000", "٣"] {
        assert_eq!(parse_i64(s), s.parse::<i64>().ok(), "{s:?}");
    }
    for s in ["2147483647", "-2147483648", "2147483648", "12a"] {
        assert_eq!(parse_i32(s), s.parse::<i32>().ok(), "{s:?}");
    }
}

#[test]
fn integers_render_as_std_does() {
    for i in [0i64, 7, -7, 10, 1234567890, i64::MIN, i64::MAX] {
        assert_eq!(decimal_i64(i), i.to_string());
    }
}

#[test]
fn small_text_helpers() {
    assert_eq!(hex_lower_text(&[0x00, 0x0f, 0xa5, 0xff]), "000fa5ff");
    assert_eq!(byte_len("é中"), 5);
    assert_eq!(concat_str("ab", "cd"), "abcd");
    assert!(same_text("配对", "配对"));
    assert!(!same_text("a", "A"));
    assert!(all_hex_digits("09afAF"));
    assert!(!all_hex_digits("0g"));
    assert!(all_ascii_digits("0123"));
    assert!(!all_ascii_digits("12.5"));
}
