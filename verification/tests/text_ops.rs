use frontend::text::{
    chars_of, i64_to_string, join_strings, parse_i32, parse_u32, parse_u64, split_chars,
    str_contains, str_eq, str_is_blank, str_starts_with, string_of, trim_str,
    u64_to_string, utf8_len_mod4,
};

fn numerals() -> Vec<&'static str> {
    vec![
    "0", "7", "42", "+5", "-5", "", "+", "-", "12a", " 1", "1 ", "007", "4294967295",
    "4294967296", "2147483647", "2147483648", "-2147483648", "-2147483649",
    "18446744073709551615", "18446744073709551616", "99999999999999999999999", "٣",
    ]
}

#[test]
fn parse_u64_agrees_with_std() {
    for s in numerals() {
        assert_eq!(parse_u64(s), s.parse::<u64>().ok(), "input {:?}", s);
    }
}

#[test]
fn parse_u32_agrees_with_std() {
    for s in numerals() {
        assert_eq!(parse_u32(s), s.parse::<u32>().ok(), "input {:?}", s);
    }
}

#[test]
fn parse_i32_agrees_with_std() {
    for s in numerals() {
        assert_eq!(parse_i32(s), s.parse::<i32>().ok(), "input {:?}", s);
    }
}

#[test]
fn parse_examples() {
    assert_eq!(parse_u64("42"), Some(42));
    assert_eq!(parse_u64("+42"), Some(42));
    assert_eq!(parse_u64(""), None);
    assert_eq!(parse_i32("-17"), Some(-17));
    assert_eq!(parse_i32("-2147483648"), Some(i32::MIN));
    assert_eq!(parse_u32("4294967296"), None);
}

#[test]
fn decimal_numerals_agree_with_to_string() {
    for n in [0u64, 1, 9, 10, 99, 100, 12345, u64::MAX] {
        assert_eq!(u64_to_string(n), n.to_string());
    }
    for n in [0i64, -1, 5, -10, 123, i64::MIN, i64::MAX] {
        assert_eq!(i64_to_string(n), n.to_string());
    }
}

#[test]
fn parse_reads_what_to_string_writes() {
    for n in [0u64, 3, 10, 4096, 1_000_000_007, u64::MAX] {
        assert_eq!(parse_u64(&u64_to_string(n)), Some(n));
    }
}

#[test]
fn trim_agrees_with_std() {
    for s in ["", "  ", " a ", "\t\nab c\r\n", "\u{3000}x\u{a0}", "x", "\u{200b}x"] {
        assert_eq!(trim_str(s), s.trim(), "input {:?}", s);
        assert_eq!(str_is_blank(s), s.trim().is_empty(), "input {:?}", s);
    }
}

#[test]
fn split_and_join() {
    let v = chars_of("a,,b,");
    let parts: Vec<String> = split_chars(&v, ',').iter().map(|p| string_of(p)).collect();
    assert_eq!(parts, vec!["a", "", "b", ""]);
    let strs: Vec<String> = vec!["x".to_string(), "y".to_string(), "z".to_string()];
    assert_eq!(join_strings(&strs, ", "), "x, y, z");
    assert_eq!(join_strings(&Vec::new(), ","), "");
}

#[test]
fn searching_text() {
    assert!(str_contains("hello world", "o w"));
    assert!(str_contains("abc", ""));
    assert!(!str_contains("abc", "abcd"));
    assert!(str_starts_with("image/png", "image/"));
    assert!(!str_starts_with("img", "image/"));
    assert!(str_eq("ab", "ab"));
    assert!(!str_eq("ab", "abc"));
}


#[test]
fn utf8_length_modulo_four() {
    for s in ["", "a", "ab", "abc", "abcd", "é", "€", "😀", "aé€😀"] {
        let v = chars_of(s);
        assert_eq!(utf8_len_mod4(&v), s.len() % 4, "input {:?}", s);
    }
}
