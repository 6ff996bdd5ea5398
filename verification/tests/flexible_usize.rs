use lazytail::mcp::flexible_usize::{from_i64, from_str, from_u64};

#[test]
fn numbers_and_texts_convert() {
    assert_eq!(from_u64(10), Ok(10));
    assert_eq!(from_i64(50), Ok(50));
    assert_eq!(from_str("10"), Ok(10));
    assert_eq!(from_str("+7"), Ok(7));
    assert_eq!(from_str("0"), Ok(0));
}

#[test]
fn negative_numbers_are_refused() {
    let e = from_i64(-1).unwrap_err();
    assert!(e.contains("non-negative"), "got: {}", e);
    assert_eq!(e, "expected a non-negative integer, got -1");
    assert_eq!(from_i64(i64::MIN).unwrap_err(), "expected a non-negative integer, got -9223372036854775808");
}

#[test]
fn bad_texts_are_refused_with_the_value() {
    let e = from_str("abc").unwrap_err();
    assert!(e.contains("invalid value \"abc\""), "got: {}", e);
    assert!(from_str("-1").is_err());
    assert!(from_str("").is_err());
    assert!(from_str(" 5").is_err());
    assert!(from_str("99999999999999999999999").is_err());
}
