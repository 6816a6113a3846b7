use passwords::text::{chars_equal, parse_dimension, parse_usize, push_decimal};

fn chars(s: &str) -> Vec<char> {
    s.chars().collect()
}

#[test]
fn parse_usize_plain_and_plus() {
    assert_eq!(parse_usize(&chars("42")), Some(42));
    assert_eq!(parse_usize(&chars("+7")), Some(7));
    assert_eq!(parse_usize(&chars("007")), Some(7));
}

#[test]
fn parse_usize_rejects_what_str_parse_rejects() {
    for bad in ["", "+", "-1", "1-", "12a", " 1", "++1", "١"] {
        assert_eq!(parse_usize(&chars(bad)), None, "{bad:?}");
        assert_eq!(bad.parse::<usize>().ok(), None);
    }
}

#[test]
fn parse_usize_limits() {
    let max = usize::MAX.to_string();
    assert_eq!(parse_usize(&chars(&max)), Some(usize::MAX));
    let over = format!("{}0", usize::MAX);
    assert_eq!(parse_usize(&chars(&over)), None);
}

#[test]
fn push_decimal_writes_digits() {
    let mut out = vec![b'x'];
    push_decimal(&mut out, 0);
    push_decimal(&mut out, 1205);
    assert_eq!(out, b"x01205".to_vec());
}

#[test]
fn parse_dimension_trims_unicode_white_space() {
    assert_eq!(parse_dimension(&chars("80\n")), Some(80));
    assert_eq!(parse_dimension(&chars(" \t24 \r\n")), Some(24));
    assert_eq!(parse_dimension(&chars("\u{a0}120\u{3000}")), Some(120));
    assert_eq!(parse_dimension(&chars("")), None);
    assert_eq!(parse_dimension(&chars("8 0")), None);
    assert_eq!(parse_dimension(&chars("wide")), None);
}

#[test]
fn chars_equal_compares_contents() {
    assert!(chars_equal(&chars("abc"), &chars("abc")));
    assert!(!chars_equal(&chars("abc"), &chars("abd")));
    assert!(!chars_equal(&chars("ab"), &chars("abc")));
}
