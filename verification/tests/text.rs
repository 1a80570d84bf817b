use eve_metrade::text::{
    chars_of, contains_chars, decimal_chars, is_whitespace, optional_i64, parse_i64, parse_u16,
    parse_u64, parse_usize, push_decimal, push_str, same_text, to_string, trim,
};

fn text(v: &[char]) -> String {
    v.iter().collect()
}

#[test]
fn trim_removes_unicode_whitespace_at_both_ends() {
    assert_eq!(trim("  Jita IV \t\n"), "Jita IV");
    assert_eq!(trim("\u{3000}Amarr\u{a0}"), "Amarr");
    assert_eq!(trim("   "), "");
    assert_eq!(trim(""), "");
    assert!(is_whitespace('\u{2028}'));
    assert!(!is_whitespace('x'));
}

#[test]
fn parse_follows_std_parse() {
    assert_eq!(parse_i64("42"), Some(42));
    assert_eq!(parse_i64("+42"), Some(42));
    assert_eq!(parse_i64("-42"), Some(-42));
    assert_eq!(parse_i64("-9223372036854775808"), Some(i64::MIN));
    assert_eq!(parse_i64("9223372036854775808"), None);
    assert_eq!(parse_i64(" 42"), None);
    assert_eq!(parse_i64(""), None);
    assert_eq!(parse_i64("-"), None);
    assert_eq!(parse_i64("4x"), None);
    assert_eq!(parse_u64("18446744073709551615"), Some(u64::MAX));
    assert_eq!(parse_u64("18446744073709551616"), None);
    assert_eq!(parse_u64("-1"), None);
    assert_eq!(parse_u64("+7"), Some(7));
    assert_eq!(parse_u16("65535"), Some(65535));
    assert_eq!(parse_u16("65536"), None);
    assert_eq!(parse_usize("5"), Some(5));
    assert_eq!(parse_usize("5.0"), None);
}

#[test]
fn optional_i64_reads_blank_as_none() {
    assert_eq!(optional_i64("".to_string()), None);
    assert_eq!(optional_i64("   ".to_string()), None);
    assert_eq!(optional_i64("17".to_string()), Some(17));
    assert_eq!(optional_i64(" 17".to_string()), None);
    assert_eq!(optional_i64("abc".to_string()), None);
}

#[test]
fn decimal_rendering_matches_display() {
    for n in [0i64, 7, -7, 1234567890, i64::MIN, i64::MAX] {
        assert_eq!(text(&decimal_chars(n)), n.to_string());
    }
    let mut v = Vec::new();
    push_str(&mut v, "order ");
    push_decimal(&mut v, -15);
    assert_eq!(text(&v), "order -15");
}

#[test]
fn substring_search() {
    let hay = chars_of("tritanium bar");
    assert!(contains_chars(&hay, &chars_of("tan")));
    assert!(contains_chars(&hay, &chars_of("")));
    assert!(!contains_chars(&hay, &chars_of("tanx")));
    assert!(!contains_chars(&chars_of("ab"), &chars_of("abc")));
}

#[test]
fn same_text_and_error_messages() {
    assert!(same_text("FALSE", "FALSE"));
    assert!(!same_text("FALSE", "false"));
    assert_eq!(to_string("plain message"), "plain message");
    assert_eq!(to_string(404), "404");
}
