use parquet_ruby_adapter::decimal::{
    decimal128_from_text, decimal128_overflows, format_decimal128, format_decimal256,
    decimal256_stalls_on, has_exponent_marker, parse_decimal128, parse_decimal256,
};
use parquet_ruby_adapter::error::CoreError;
use num::BigInt;

#[test]
fn parses_scaled_values() {
    assert_eq!(parse_decimal128(" 123.45 ", 10, 2), Ok(12345));
    assert_eq!(parse_decimal128("-1.5", 10, 3), Ok(-1500));
    assert_eq!(parse_decimal128("7", 10, 2), Ok(700));
    assert_eq!(parse_decimal128(".5", 10, 1), Ok(5));
    assert_eq!(parse_decimal128("+2.25", 10, 2), Ok(225));
}

#[test]
fn extra_fraction_digits_are_cut() {
    assert_eq!(parse_decimal128("1.999", 10, 2), Ok(199));
    assert_eq!(parse_decimal128("-0.129", 10, 1), Ok(-1));
}

#[test]
fn decimal_errors() {
    assert_eq!(
        parse_decimal128("1.2.3", 10, 2),
        Err(CoreError::Conversion("Invalid decimal format".to_string()))
    );
    assert_eq!(
        parse_decimal128("1.5", 10, -1),
        Err(CoreError::Conversion("Negative scale not supported".to_string()))
    );
    assert_eq!(
        parse_decimal128("abc", 10, 2),
        Err(CoreError::Conversion("Failed to parse integer part: invalid digit found in string".to_string()))
    );
    assert_eq!(
        parse_decimal128("1.x", 10, 2),
        Err(CoreError::Conversion("Failed to parse fractional part: invalid digit found in string".to_string()))
    );
}

#[test]
fn overflow_is_detected() {
    assert!(decimal128_overflows("1", 39));
    assert!(decimal128_overflows("100000000000000000000000000000000000000", 2));
    assert!(!decimal128_overflows("12.5", 2));
    assert_eq!(decimal128_from_text("12.5", 2), Ok(1250));
}

#[test]
fn exponent_marker() {
    assert!(has_exponent_marker("1e5"));
    assert!(has_exponent_marker("2.5E-3"));
    assert!(!has_exponent_marker("12.5"));
}

#[test]
fn formats_decimal128() {
    assert_eq!(format_decimal128(12345, 2), "123.45");
    assert_eq!(format_decimal128(-5, 3), "-0.005");
    assert_eq!(format_decimal128(42, 0), "42");
    assert_eq!(format_decimal128(-42, 0), "-42");
    assert_eq!(format_decimal128(7, -2), "700");
    assert_eq!(format_decimal128(i128::MIN, 0), i128::MIN.to_string());
}

#[test]
fn formats_decimal256() {
    let v = num::BigInt::parse_bytes(b"-123456789012345678901234567890123456789012", 10).unwrap();
    assert_eq!(format_decimal256(&v, 4), "-12345678901234567890123456789012345678.9012");
    assert_eq!(format_decimal256(&num::BigInt::from(5), 3), "0.005");
    assert_eq!(format_decimal256(&num::BigInt::from(-3), -2), "-300");
    assert_eq!(format_decimal256(&num::BigInt::from(9), 0), "9");
}

#[test]
fn formatted_text_parses_back() {
    for (v, s) in [(12345i128, 2i8), (-5, 3), (0, 5), (987654321, 0), (-1, 38)] {
        let text = format_decimal128(v, s);
        assert_eq!(parse_decimal128(&text, 38, s), Ok(v));
    }
}

#[test]
fn parses_decimal256_text() {
    assert_eq!(parse_decimal256(" 123.45 ", 4), Ok(BigInt::from(1_234_500)));
    assert_eq!(parse_decimal256("-0.5", 3), Ok(BigInt::from(-500)));
    assert_eq!(parse_decimal256("1.23456", 2), Ok(BigInt::from(123)));
    assert_eq!(parse_decimal256("-1.239", 2), Ok(BigInt::from(-123)));
    assert_eq!(parse_decimal256("1_000", 0), Ok(BigInt::from(1000)));
    assert_eq!(parse_decimal256("1.-5", 2), Ok(BigInt::from(95)));
    assert_eq!(parse_decimal256(".5", 1), Ok(BigInt::from(5)));
    let big = "12345678901234567890123456789012345678901234567890";
    assert_eq!(
        parse_decimal256(big, 2),
        Ok(big.parse::<BigInt>().unwrap() * BigInt::from(100))
    );
}

#[test]
fn decimal256_errors() {
    let conv = |m: &str| Err(CoreError::Conversion(m.to_string()));
    assert_eq!(parse_decimal256("1.2.3", 2), conv("Invalid decimal format"));
    assert_eq!(parse_decimal256("5", -1), conv("Negative scale not supported"));
    assert_eq!(parse_decimal256("abc", 0), conv("Failed to parse integer part: invalid digit found in string"));
    assert_eq!(parse_decimal256("1.x", 0), conv("Failed to parse fractional part: invalid digit found in string"));
    assert_eq!(parse_decimal256("1.-", 0), conv("Failed to parse fractional part: cannot parse integer from empty string"));
    let long = format!("0.{}", "1".repeat(130));
    assert!(decimal256_stalls_on(&long, 2));
    assert!(!decimal256_stalls_on("0.5", 2));
    assert!(!decimal256_stalls_on(&format!("0.{}", "1".repeat(300)), 2));
}
