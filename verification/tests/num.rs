use cityfacts::num::{dec_eq, parse_decimal, pow10_u64, Decimal};

#[test]
fn parses_integers() {
    let d = parse_decimal("3769000").unwrap();
    assert_eq!(d, Decimal { neg: false, mantissa: 3769000, scale: 0 });
}

#[test]
fn parses_fractions() {
    let d = parse_decimal("52.52").unwrap();
    assert_eq!(d, Decimal { neg: false, mantissa: 5252, scale: 2 });
    let d = parse_decimal("-0.5").unwrap();
    assert_eq!(d, Decimal { neg: true, mantissa: 5, scale: 1 });
}

#[test]
fn rejects_bad_literals() {
    assert!(parse_decimal("").is_none());
    assert!(parse_decimal("-").is_none());
    assert!(parse_decimal(".5").is_none());
    assert!(parse_decimal("12.").is_none());
    assert!(parse_decimal("1e3").is_none());
    assert!(parse_decimal("1.2.3").is_none());
    assert!(parse_decimal("+4").is_none());
    // more than 18 digits in all
    assert!(parse_decimal("1234567890123456789").is_none());
}

#[test]
fn accepts_eighteen_digits() {
    let d = parse_decimal("123456789012345678").unwrap();
    assert_eq!(d.mantissa, 123456789012345678);
    assert_eq!(d.scale, 0);
}

#[test]
fn value_equality_ignores_trailing_zeros() {
    let a = parse_decimal("1.50").unwrap();
    let b = parse_decimal("1.5").unwrap();
    assert!(dec_eq(&a, &b));
    let c = parse_decimal("1.51").unwrap();
    assert!(!dec_eq(&a, &c));
    let zero = parse_decimal("0").unwrap();
    let neg_zero = parse_decimal("-0.0").unwrap();
    assert!(dec_eq(&zero, &neg_zero));
}

#[test]
fn powers_of_ten() {
    assert_eq!(pow10_u64(0), 1);
    assert_eq!(pow10_u64(3), 1000);
    assert_eq!(pow10_u64(18), 1_000_000_000_000_000_000);
}
