use parquet_ruby_adapter::convert::{
    date32_from_seconds, date64_from_seconds, fixed_len_bytes, struct_field_value,
    time_micros_of_day, time_millis_of_day, time_nanos_of_day, timestamp_in_range,
    timestamp_value, utc_offset_zone, uuid_bytes, TimestampUnit,
};
use parquet_ruby_adapter::convert::{float_text_for_column, integer_for_column, numeric_text_for_column};
use parquet_ruby_adapter::error::CoreError;
use parquet_ruby_adapter::rvalue::RValue;
use parquet_ruby_adapter::value::ParquetValue;

#[test]
fn timestamps_from_seconds_and_nanos() {
    match timestamp_value(TimestampUnit::Millis, 10, 123_456_789, true) {
        ParquetValue::TimestampMillis(n, Some(z)) => {
            assert_eq!(n, 10_123);
            assert_eq!(&*z, "UTC");
        }
        other => panic!("unexpected {:?}", other),
    }
    assert_eq!(timestamp_value(TimestampUnit::Micros, -2, 5_000, false), ParquetValue::TimestampMicros(-1_999_995, None));
    assert_eq!(timestamp_value(TimestampUnit::Nanos, 1, 7, false), ParquetValue::TimestampNanos(1_000_000_007, None));
    assert_eq!(timestamp_value(TimestampUnit::Second, 99, 999, false), ParquetValue::TimestampSecond(99, None));
    assert!(timestamp_in_range(TimestampUnit::Millis, 10, 0));
    assert!(!timestamp_in_range(TimestampUnit::Nanos, i64::MAX / 10, 0));
}

#[test]
fn dates_from_seconds() {
    assert_eq!(date32_from_seconds(86_400 * 3 + 5), ParquetValue::Date32(3));
    assert_eq!(date32_from_seconds(-86_399), ParquetValue::Date32(0));
    assert_eq!(date64_from_seconds(2), ParquetValue::Date64(2000));
}

#[test]
fn times_of_day() {
    assert_eq!(time_millis_of_day(1, 2, 3, 4_000_000), ParquetValue::TimeMillis(3_723_004));
    assert_eq!(time_micros_of_day(0, 0, 1, 2_500), ParquetValue::TimeMicros(1_000_002));
    assert_eq!(time_nanos_of_day(0, 1, 0, 9), ParquetValue::TimeNanos(60_000_000_009));
}

#[test]
fn zones_of_times() {
    assert_eq!(utc_offset_zone(true, 0), Some("UTC".to_string()));
    assert_eq!(utc_offset_zone(false, 0), None);
    assert_eq!(utc_offset_zone(false, 9 * 3600), Some("+09:00".to_string()));
    assert_eq!(utc_offset_zone(false, -(5 * 3600 + 30 * 60)), Some("-05:30".to_string()));
    assert_eq!(utc_offset_zone(false, 45 * 60), Some("+00:45".to_string()));
    assert_eq!(utc_offset_zone(false, 12 * 3600), Some("+12:00".to_string()));
    assert_eq!(utc_offset_zone(false, -1800), Some("-00:30".to_string()));
    assert_eq!(utc_offset_zone(false, -(11 * 3600)), Some("-11:00".to_string()));
}

#[test]
fn fixed_length_check() {
    assert_eq!(fixed_len_bytes(vec![1, 2], 2), Ok(ParquetValue::Bytes(vec![1, 2])));
    assert_eq!(
        fixed_len_bytes(vec![1, 2, 3], 2),
        Err(CoreError::Conversion("Expected 2 bytes, got 3".to_string()))
    );
    assert_eq!(
        fixed_len_bytes(vec![], -1),
        Err(CoreError::Conversion("Expected -1 bytes, got 0".to_string()))
    );
}

#[test]
fn struct_fields_by_symbol_then_string() {
    let pairs = vec![
        (RValue::Str("a".to_string()), RValue::Integer(1)),
        (RValue::Symbol("a".to_string()), RValue::Integer(2)),
        (RValue::Str("b".to_string()), RValue::Integer(3)),
    ];
    assert_eq!(struct_field_value(&pairs, "a"), RValue::Integer(2));
    assert_eq!(struct_field_value(&pairs, "b"), RValue::Integer(3));
    assert_eq!(struct_field_value(&pairs, "c"), RValue::Nil);
}

#[test]
fn uuid_text_to_bytes() {
    assert_eq!(
        uuid_bytes("01234567-89ab-cdef-fedc-ba9876543210"),
        Ok(ParquetValue::Bytes(vec![
            0x01, 0x23, 0x45, 0x67, 0x89, 0xab, 0xcd, 0xef, 0xfe, 0xdc, 0xba, 0x98, 0x76, 0x54, 0x32, 0x10
        ]))
    );
    match uuid_bytes("not-a-uuid") {
        Err(CoreError::Conversion(m)) => assert!(m.starts_with("Failed to parse UUID: ")),
        other => panic!("unexpected {:?}", other),
    }
}

#[test]
fn integers_for_narrow_columns() {
    let conv = |m: &str| Err(CoreError::Conversion(m.to_string()));
    assert_eq!(integer_for_column(100, i8::MIN as i128, i8::MAX as i128, true), Ok(100));
    assert_eq!(
        integer_for_column(300, i8::MIN as i128, i8::MAX as i128, true),
        conv("Failed to convert 300 to target type: number too large to fit in target type")
    );
    assert_eq!(
        integer_for_column(-300, i8::MIN as i128, i8::MAX as i128, true),
        conv("Failed to convert -300 to target type: number too small to fit in target type")
    );
    assert_eq!(
        integer_for_column(-1, 0, u8::MAX as i128, false),
        conv("Failed to convert -1 to target type: invalid digit found in string")
    );
    assert_eq!(float_text_for_column("2", 0, u16::MAX as i128, false), Ok(2));
    assert_eq!(
        float_text_for_column("2.5", 0, u16::MAX as i128, false),
        conv("Failed to convert 2.5 to target type: invalid digit found in string")
    );
    assert_eq!(numeric_text_for_column(" 42 ", i32::MIN as i128, i32::MAX as i128, true), Ok(42));
    assert_eq!(
        numeric_text_for_column("4x", i32::MIN as i128, i32::MAX as i128, true),
        conv("Failed to parse '4x' as numeric: invalid digit found in string")
    );
    assert_eq!(
        numeric_text_for_column("", i32::MIN as i128, i32::MAX as i128, true),
        conv("Failed to parse '' as numeric: cannot parse integer from empty string")
    );
}
