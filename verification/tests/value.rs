use parquet_ruby_adapter::value::{is_convertible, parquet_to_ruby, uuid_string, ParquetValue, RubyOut, TimeSub};
use triomphe::Arc;

#[test]
fn integers_and_scalars() {
    assert_eq!(parquet_to_ruby(&ParquetValue::Null), RubyOut::Nil);
    assert_eq!(parquet_to_ruby(&ParquetValue::Int8(-3)), RubyOut::Integer(-3));
    assert_eq!(parquet_to_ruby(&ParquetValue::UInt64(u64::MAX)), RubyOut::Integer(u64::MAX as i128));
    assert_eq!(parquet_to_ruby(&ParquetValue::Boolean(true)), RubyOut::Bool(true));
    assert_eq!(parquet_to_ruby(&ParquetValue::Float32(1.5f32.to_bits())), RubyOut::FloatOfF32(1.5f32.to_bits()));
}

#[test]
fn timestamps_split_toward_zero() {
    assert_eq!(
        parquet_to_ruby(&ParquetValue::TimestampMillis(-1500, None)),
        RubyOut::TimeAt { secs: -1, sub: TimeSub::Micros(-500_000), in_utc: true, to_utc: false }
    );
    let tz: Option<Arc<str>> = Some(Arc::from("+09:00"));
    assert_eq!(
        parquet_to_ruby(&ParquetValue::TimestampNanos(1_000_000_123, tz)),
        RubyOut::TimeAt { secs: 1, sub: TimeSub::Nanos(123), in_utc: true, to_utc: true }
    );
    assert_eq!(
        parquet_to_ruby(&ParquetValue::Date64(2500)),
        RubyOut::TimeAt { secs: 2, sub: TimeSub::Micros(500_000_000), in_utc: false, to_utc: false }
    );
}

#[test]
fn dates_and_times_of_day() {
    assert_eq!(parquet_to_ruby(&ParquetValue::Date32(2)), RubyOut::DateOfSeconds(172800));
    assert_eq!(
        parquet_to_ruby(&ParquetValue::TimeMillis(3_723_004)),
        RubyOut::TimeToday { hours: 1, minutes: 2, seconds: 3, usec: 4000 }
    );
    assert_eq!(
        parquet_to_ruby(&ParquetValue::TimeMicros(3_723_000_005)),
        RubyOut::TimeToday { hours: 1, minutes: 2, seconds: 3, usec: 5 }
    );
}

#[test]
fn decimals_become_text() {
    assert_eq!(
        parquet_to_ruby(&ParquetValue::Decimal128(-12345, 2)),
        RubyOut::BigDecimal("-123.45".to_string())
    );
    assert_eq!(
        parquet_to_ruby(&ParquetValue::Decimal256(num::BigInt::from(15), 1)),
        RubyOut::BigDecimal("1.5".to_string())
    );
}

#[test]
fn uuid_text() {
    let u = 0x0123456789abcdef_fedcba9876543210u128;
    assert_eq!(uuid_string(u), "01234567-89ab-cdef-fedc-ba9876543210");
    assert_eq!(parquet_to_ruby(&ParquetValue::Uuid(0)), RubyOut::Text("00000000-0000-0000-0000-000000000000".to_string()));
}

#[test]
fn nested_values_keep_order() {
    let name: Arc<str> = Arc::from("id");
    let v = ParquetValue::Record(vec![(
        name.clone(),
        ParquetValue::List(vec![ParquetValue::Int32(1), ParquetValue::Null]),
    )]);
    assert_eq!(
        parquet_to_ruby(&v),
        RubyOut::Record(vec![(name, RubyOut::Array(vec![RubyOut::Integer(1), RubyOut::Nil]))])
    );
    let m = ParquetValue::MapValue(vec![(ParquetValue::Int64(1), ParquetValue::Bytes(vec![0, 255]))]);
    assert_eq!(
        parquet_to_ruby(&m),
        RubyOut::Hash(vec![(RubyOut::Integer(1), RubyOut::Binary(vec![0, 255]))])
    );
}

#[test]
fn convertible_values() {
    assert!(is_convertible(&ParquetValue::Decimal128(5, -2)));
    assert!(!is_convertible(&ParquetValue::Decimal128(i128::MAX, -1)));
    assert!(!is_convertible(&ParquetValue::Decimal128(i128::MIN, 2)));
    assert!(is_convertible(&ParquetValue::Decimal128(i128::MIN, 0)));
    assert!(!is_convertible(&ParquetValue::List(vec![ParquetValue::Decimal128(1, 39)])));
    assert!(!is_convertible(&ParquetValue::Decimal256(num::BigInt::from(1), i8::MIN)));
}
