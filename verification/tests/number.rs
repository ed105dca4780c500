use tuned_rs::number::{i64_to_string, parse_i64, parse_u64, u64_to_string};
use tuned_rs::text::{split_fields_str, split_str, trim_str};

#[test]
fn decimal_round_trips() {
    for n in [0u64, 7, 4096, u64::MAX] {
        assert_eq!(parse_u64(&u64_to_string(n)), Some(n));
    }
    for v in [0i64, -1, 42, i64::MIN, i64::MAX] {
        assert_eq!(parse_i64(&i64_to_string(v)), Some(v));
    }
    assert_eq!(i64_to_string(-120), "-120");
}

#[test]
fn parsing_follows_rust_rules() {
    assert_eq!(parse_u64("+5"), Some(5));
    assert_eq!(parse_u64("-5"), None);
    assert_eq!(parse_u64(""), None);
    assert_eq!(parse_u64("18446744073709551616"), None);
    assert_eq!(parse_i64("-9223372036854775808"), Some(i64::MIN));
    assert_eq!(parse_i64("9223372036854775808"), None);
    assert_eq!(parse_i64(" 1"), None);
    assert_eq!(parse_i64("+"), None);
}

#[test]
fn splitting_and_trimming() {
    assert_eq!(split_str("a,,b", &[',']), vec!["a", "", "b"]);
    assert_eq!(split_fields_str(" a | |b ", &['|']), vec!["a", "b"]);
    assert_eq!(trim_str("\u{3000} x \t"), "x");
}
