use parquet_ruby_adapter::error::CoreError;
use parquet_ruby_adapter::infer::{infer_stops, infer_value, RubyInput, ZoneInput};
use parquet_ruby_adapter::value::ParquetValue;
use triomphe::Arc;

fn s(t: &str) -> ParquetValue {
    ParquetValue::String(Arc::from(t))
}

#[test]
fn scalars_take_their_parquet_types() {
    assert_eq!(infer_value(&RubyInput::Integer(-7)), Ok(ParquetValue::Int64(-7)));
    assert_eq!(infer_value(&RubyInput::Float(2.5f64.to_bits())), Ok(ParquetValue::Float64(2.5f64.to_bits())));
    assert_eq!(infer_value(&RubyInput::Str("abc".to_string())), Ok(s("abc")));
    assert_eq!(infer_value(&RubyInput::Bool(false)), Ok(ParquetValue::Boolean(false)));
    assert_eq!(infer_value(&RubyInput::Other("sym".to_string())), Ok(s("sym")));
}

#[test]
fn arrays_and_hashes_are_inferred_item_by_item() {
    let input = RubyInput::Array(vec![
        RubyInput::Integer(1),
        RubyInput::Hash(vec![(RubyInput::Str("k".to_string()), RubyInput::Bool(true))]),
    ]);
    assert_eq!(
        infer_value(&input),
        Ok(ParquetValue::List(vec![
            ParquetValue::Int64(1),
            ParquetValue::MapValue(vec![(s("k"), ParquetValue::Boolean(true))]),
        ]))
    );
    assert_eq!(infer_value(&RubyInput::Array(vec![])), Ok(ParquetValue::List(vec![])));
}

#[test]
fn the_first_error_is_returned() {
    let input = RubyInput::Array(vec![
        RubyInput::Integer(1),
        RubyInput::Unreadable("first".to_string()),
        RubyInput::Unreadable("second".to_string()),
    ]);
    assert_eq!(infer_value(&input), Err(CoreError::Conversion("first".to_string())));
    let entry = RubyInput::Hash(vec![(
        RubyInput::Unreadable("key".to_string()),
        RubyInput::Unreadable("value".to_string()),
    )]);
    assert_eq!(infer_value(&entry), Err(CoreError::Conversion("key".to_string())));
}

#[test]
fn times_become_milliseconds_with_their_zone() {
    let utc = RubyInput::Time { secs: 1_700_000_000, nsec: 123_456_789, zone: ZoneInput::Utc };
    assert_eq!(
        infer_value(&utc),
        Ok(ParquetValue::TimestampMillis(1_700_000_000_123, Some(Arc::from("UTC"))))
    );
    let local = RubyInput::Time { secs: -2, nsec: 500_000_000, zone: ZoneInput::Offset(19_800) };
    assert_eq!(
        infer_value(&local),
        Ok(ParquetValue::TimestampMillis(-1_500, Some(Arc::from("+05:30"))))
    );
    let unzoned = RubyInput::Time { secs: 0, nsec: 0, zone: ZoneInput::Offset(0) };
    assert_eq!(infer_value(&unzoned), Ok(ParquetValue::TimestampMillis(0, None)));
    let unreadable = RubyInput::Time { secs: 0, nsec: 0, zone: ZoneInput::Unreadable("Failed to check UTC: x".to_string()) };
    assert_eq!(infer_value(&unreadable), Err(CoreError::Conversion("Failed to check UTC: x".to_string())));
}

#[test]
fn big_decimals_are_scaled_by_ten_digits() {
    assert_eq!(
        infer_value(&RubyInput::BigDecimal(" 12.5 ".to_string())),
        Ok(ParquetValue::Decimal128(125_000_000_000, 10))
    );
    match infer_value(&RubyInput::BigDecimal("1.2.3".to_string())) {
        Err(CoreError::Conversion(m)) => assert_eq!(m, "Invalid decimal format"),
        other => panic!("unexpected {:?}", other),
    }
}

#[test]
fn overflows_and_exponents_stop_inference() {
    assert!(infer_stops(&RubyInput::Time { secs: i64::MAX, nsec: 0, zone: ZoneInput::Utc }));
    assert!(infer_stops(&RubyInput::Time { secs: 0, nsec: 0, zone: ZoneInput::Offset(i32::MIN) }));
    assert!(infer_stops(&RubyInput::BigDecimal("1e5".to_string())));
    assert!(infer_stops(&RubyInput::BigDecimal("1".repeat(30))));
    assert!(!infer_stops(&RubyInput::Integer(1)));
    // An error before the overflow ends inference first.
    let input = RubyInput::Array(vec![
        RubyInput::Unreadable("bad".to_string()),
        RubyInput::Time { secs: i64::MAX, nsec: 0, zone: ZoneInput::Utc },
    ]);
    assert!(!infer_stops(&input));
    assert_eq!(infer_value(&input), Err(CoreError::Conversion("bad".to_string())));
    // Both halves of an entry are inferred before its error is returned.
    let entry = RubyInput::Hash(vec![(
        RubyInput::Unreadable("bad".to_string()),
        RubyInput::BigDecimal("1e5".to_string()),
    )]);
    assert!(infer_stops(&entry));
}
