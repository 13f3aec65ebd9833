use myfeed::decimal::{decimal_string, parse_i64, parse_u64, push_signed_decimal};

fn chars(s: &str) -> Vec<char> {
    s.chars().collect()
}

#[test]
fn parse_u64_as_from_str() {
    assert_eq!(parse_u64(&chars("1800")), Some(1800));
    assert_eq!(parse_u64(&chars("+7")), Some(7));
    assert_eq!(parse_u64(&chars("18446744073709551615")), Some(u64::MAX));
    assert_eq!(parse_u64(&chars("18446744073709551616")), None);
    assert_eq!(parse_u64(&chars("")), None);
    assert_eq!(parse_u64(&chars("+")), None);
    assert_eq!(parse_u64(&chars("-1")), None);
    assert_eq!(parse_u64(&chars("12a")), None);
    assert_eq!(parse_u64(&chars(" 1")), None);
}

#[test]
fn parse_i64_as_from_str() {
    assert_eq!(parse_i64(&chars("-42")), Some(-42));
    assert_eq!(parse_i64(&chars("42")), Some(42));
    assert_eq!(parse_i64(&chars("-9223372036854775808")), Some(i64::MIN));
    assert_eq!(parse_i64(&chars("9223372036854775807")), Some(i64::MAX));
    assert_eq!(parse_i64(&chars("9223372036854775808")), None);
    assert_eq!(parse_i64(&chars("-")), None);
    assert_eq!(parse_i64(&chars("--1")), None);
}

#[test]
fn decimal_text_as_display() {
    assert_eq!(decimal_string(0), "0");
    assert_eq!(decimal_string(1234567890), "1234567890");
    let mut s = String::from("n=");
    push_signed_decimal(&mut s, i64::MIN);
    assert_eq!(s, "n=-9223372036854775808");
}

#[test]
fn decimal_round_trip() {
    for n in [0u64, 9, 10, 99, 100, 65535, u64::MAX] {
        assert_eq!(parse_u64(&chars(&decimal_string(n))), Some(n));
        assert_eq!(decimal_string(n), n.to_string());
    }
    for m in [i64::MIN, -1, 0, 7, i64::MAX] {
        let mut s = String::new();
        push_signed_decimal(&mut s, m);
        assert_eq!(parse_i64(&chars(&s)), Some(m));
    }
}
