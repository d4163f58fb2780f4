use panewatch::text::{parse_i64, parse_u32, positive_decimal, split_lines, trim_chars};

fn chars(s: &str) -> Vec<char> {
    s.chars().collect()
}

fn text(v: &[char]) -> String {
    v.iter().collect()
}

#[test]
fn trimming_unicode_whitespace() {
    assert_eq!(text(&trim_chars(&chars("\u{3000} a b\t\u{a0}"))), "a b");
    assert_eq!(text(&trim_chars(&chars("   "))), "");
}

#[test]
fn integer_parsing() {
    assert_eq!(parse_u32(&chars("42")), Some(42));
    assert_eq!(parse_u32(&chars("+7")), Some(7));
    assert_eq!(parse_u32(&chars("4294967296")), None);
    assert_eq!(parse_u32(&chars("4294967295")), Some(u32::MAX));
    assert_eq!(parse_u32(&chars("")), None);
    assert_eq!(parse_u32(&chars("-1")), None);
    assert_eq!(parse_i64(&chars("-9223372036854775808")), Some(i64::MIN));
    assert_eq!(parse_i64(&chars("9223372036854775808")), None);
    assert_eq!(parse_i64(&chars("1771455600")), Some(1771455600));
}

#[test]
fn positive_decimals() {
    assert!(positive_decimal(&chars("0.55")));
    assert!(positive_decimal(&chars("1,234.5")));
    assert!(positive_decimal(&chars(".5")));
    assert!(!positive_decimal(&chars("0.00")));
    assert!(!positive_decimal(&chars("")));
    assert!(!positive_decimal(&chars("1.2.3")));
}

#[test]
fn lines_like_str_lines() {
    let got: Vec<String> = split_lines("a\r\nb\n\nc").iter().map(|l| text(l)).collect();
    assert_eq!(got, vec!["a", "b", "", "c"]);
    assert!(split_lines("").is_empty());
    let got: Vec<String> = split_lines("x\n").iter().map(|l| text(l)).collect();
    assert_eq!(got, vec!["x"]);
}
