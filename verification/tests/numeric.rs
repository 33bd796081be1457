use workbench::numeric::{parse_i64, parse_usize, push_decimal};

fn chars(s: &str) -> Vec<char> {
    s.chars().collect()
}

#[test]
fn parse_unsigned() {
    assert_eq!(parse_usize(&chars("42")), Some(42));
    assert_eq!(parse_usize(&chars("+7")), Some(7));
    assert_eq!(parse_usize(&chars("007")), Some(7));
    assert_eq!(parse_usize(&chars("")), None);
    assert_eq!(parse_usize(&chars("+")), None);
    assert_eq!(parse_usize(&chars("-1")), None);
    assert_eq!(parse_usize(&chars("1a")), None);
    assert_eq!(parse_usize(&chars(" 1")), None);
    assert_eq!(parse_usize(&chars("18446744073709551615")), Some(usize::MAX));
    assert_eq!(parse_usize(&chars("18446744073709551616")), None);
}

#[test]
fn parse_signed() {
    assert_eq!(parse_i64(&chars("-3")), Some(-3));
    assert_eq!(parse_i64(&chars("+3")), Some(3));
    assert_eq!(parse_i64(&chars("-9223372036854775808")), Some(i64::MIN));
    assert_eq!(parse_i64(&chars("9223372036854775807")), Some(i64::MAX));
    assert_eq!(parse_i64(&chars("9223372036854775808")), None);
    assert_eq!(parse_i64(&chars("-")), None);
    assert_eq!(parse_i64(&chars("--1")), None);
}

#[test]
fn parse_agrees_with_std() {
    for t in ["0", "12", "+5", "-5", "", "+", "-", "x", "99999999999999999999", "-0"] {
        assert_eq!(parse_usize(&chars(t)), t.parse::<usize>().ok(), "{}", t);
        assert_eq!(parse_i64(&chars(t)), t.parse::<i64>().ok(), "{}", t);
    }
}

#[test]
fn decimal_round_trip() {
    for n in [0u64, 7, 10, 1234567890, u64::MAX] {
        let mut v = Vec::new();
        push_decimal(&mut v, n);
        let s: String = v.iter().collect();
        assert_eq!(s, n.to_string());
        assert_eq!(parse_usize(&v), Some(n as usize));
    }
}
