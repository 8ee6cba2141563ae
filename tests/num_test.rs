use aurum_chain::num::{BigDecimal, BigInt};
use std::cmp::Ordering;

#[test]
fn test_add() {
    let expected = BigInt::from_str("3").unwrap();
    let result = BigInt::from_str("2").unwrap().plus(&BigInt::from_str("1").unwrap());
    assert_eq!(expected, result);

    let expected = BigDecimal::from_str("0.00001").unwrap();
    let result =
        BigDecimal::from_str("0.000005").unwrap().plus(&BigDecimal::from_str("0.000005").unwrap());
    assert_eq!(expected, result);
}

#[test]
fn test_subtract() {
    let expected = BigInt::from_str("1").unwrap();
    let result = BigInt::from_str("2").unwrap().minus(&BigInt::from_str("1").unwrap());
    assert_eq!(expected, result);

    let expected = BigDecimal::from_str("0.00001").unwrap();
    let result =
        BigDecimal::from_str("0.00099").unwrap().minus(&BigDecimal::from_str("0.00098").unwrap());
    assert_eq!(expected, result);
}

#[test]
fn decimal_text_round_trip() {
    for text in ["0.001", "99.899", "-12.5", "100", "0", "123456789012345678901234567890.000000000001"] {
        let value = BigDecimal::from_str(text).unwrap();
        let printed = value.to_plain_string();
        assert_eq!(printed, text);
        assert_eq!(BigDecimal::from_str(&printed).unwrap(), value);
    }
}

#[test]
fn integer_text_round_trip() {
    for text in ["0", "1", "-7", "340282366920938463463374607431768211457"] {
        let value = BigInt::from_str(text).unwrap();
        assert_eq!(value.to_string(), text);
        assert_eq!(BigInt::from_str(&value.to_string()).unwrap(), value);
    }
}

#[test]
fn parse_errors() {
    assert!(BigDecimal::from_str("abc").is_err());
    assert!(BigInt::from_str("1.5").is_err());
    assert!(BigInt::from_str("").is_err());
}

#[test]
fn decimal_compares_by_value() {
    let a = BigDecimal::from_str("1.0").unwrap();
    let b = BigDecimal::from_str("1.000").unwrap();
    assert_eq!(a, b);
    assert_eq!(a.compare(&b), Ordering::Equal);
    let c = BigDecimal::from_str("0.9999").unwrap();
    assert!(c.less_than(&a));
    assert!(!a.less_than(&c));
    assert_eq!(a.compare(&c), Ordering::Greater);
}

#[test]
fn integer_parts_of_decimals() {
    assert_eq!(BigDecimal::from_str("10").unwrap().to_bigint(), Some(BigInt::from_str("10").unwrap()));
    assert_eq!(BigDecimal::from_str("10.000").unwrap().to_bigint(), Some(BigInt::from_str("10").unwrap()));
    assert_eq!(BigDecimal::from_str("1e3").unwrap().to_bigint(), Some(BigInt::from_str("1000").unwrap()));
    assert_eq!(BigDecimal::from_str("10.5").unwrap().to_bigint(), None);
}

#[test]
fn integer_arithmetic() {
    let big = BigInt::from_str("18446744073709551616").unwrap();
    assert_eq!(big.plus(&BigInt::from_u64(1).unwrap()), BigInt::from_str("18446744073709551617").unwrap());
    assert_eq!(BigInt::from_u64(17).unwrap().modulo(&BigInt::from_u64(5).unwrap()), BigInt::from_u64(2).unwrap());
    assert_eq!(BigInt::zero().minus(&BigInt::from_u64(3).unwrap()), BigInt::from_str("-3").unwrap());
    assert_eq!(BigInt::from_bigint(BigInt::from_u64(4).unwrap()), BigInt::from_u64(4).unwrap());
}

#[test]
fn decimal_quotient_and_zero() {
    let q = BigDecimal::from_str("0.1").unwrap().divided_by(&BigDecimal::from_str("0.001").unwrap());
    assert_eq!(q, BigDecimal::from_str("100").unwrap());
    assert!(BigDecimal::zero().is_zero());
    assert!(!BigDecimal::from_str("0.001").unwrap().is_zero());
    assert_eq!(BigDecimal::from_usize(7).unwrap(), BigDecimal::from_str("7").unwrap());
    assert_eq!(BigDecimal::from_parts(2, 11), BigDecimal::from_str("0.00000000002").unwrap());
}

#[test]
fn extreme_scales_are_refused() {
    assert!(BigDecimal::from_str("1e-9223372036854775807").is_err());
    assert!(BigDecimal::from_str("1e9223372036854775807").is_err());
    assert!(BigDecimal::from_str("1e-1000000").is_ok());
    let huge = BigDecimal { digits: BigInt::from_u64(1).unwrap(), scale: 1_000_001 };
    assert!(!huge.in_range());
    assert!(BigDecimal::from_str("0.5").unwrap().in_range());
}
