use parquet_ruby_adapter::error::ExceptionKind;
use parquet_ruby_adapter::options::{
    compression_from_lowercase, parse_compression, parse_positive_bounded_usize,
    parse_string_cache, parse_string_or_symbol, string_storage_kwarg, BatchSizingOptions,
    column_batch_size, result_type_option,
    Compression, ParquetRepackArgs, ParserResultType,
};
use parquet_ruby_adapter::rvalue::RValue;
use parquet_ruby_adapter::string_storage::{StringStorageConfig, StringStorageMode};

#[test]
fn compression_names() {
    assert_eq!(parse_compression(None).unwrap(), Compression::Snappy);
    assert_eq!(parse_compression(Some("GZIP".to_string())).unwrap(), Compression::Gzip);
    assert_eq!(parse_compression(Some("uncompressed".to_string())).unwrap(), Compression::Uncompressed);
    assert_eq!(parse_compression(Some("None".to_string())).unwrap(), Compression::Uncompressed);
    assert_eq!(compression_from_lowercase("zstd").unwrap(), Compression::Zstd);
    let err = parse_compression(Some("LZO".to_string())).unwrap_err();
    assert_eq!(err.kind, ExceptionKind::ArgumentError);
    assert_eq!(
        err.message,
        "Invalid compression option: 'lzo'. Valid options are: none, snappy, gzip, lz4, zstd, brotli"
    );
}

#[test]
fn bounded_sizes() {
    assert_eq!(parse_positive_bounded_usize("batch_size", None, 10).unwrap(), None);
    assert_eq!(parse_positive_bounded_usize("batch_size", Some(10), 10).unwrap(), Some(10));
    let zero = parse_positive_bounded_usize("batch_size", Some(0), 10).unwrap_err();
    assert_eq!(zero.kind, ExceptionKind::ArgumentError);
    assert_eq!(zero.message, "batch_size must be positive");
    let big = parse_positive_bounded_usize("sample_size", Some(11), 10).unwrap_err();
    assert_eq!(big.message, "sample_size must be at most 10");
}

#[test]
fn string_cache_option() {
    assert_eq!(parse_string_cache(None).unwrap(), None);
    assert_eq!(parse_string_cache(Some(&RValue::Nil)).unwrap(), None);
    assert_eq!(parse_string_cache(Some(&RValue::Bool(false))).unwrap(), None);
    assert_eq!(parse_string_cache(Some(&RValue::Bool(true))).unwrap(), Some(100));
    assert_eq!(parse_string_cache(Some(&RValue::Integer(64))).unwrap(), Some(64));
    let zero = parse_string_cache(Some(&RValue::Integer(0))).unwrap_err();
    assert_eq!(zero.kind, ExceptionKind::ArgumentError);
    assert_eq!(zero.message, "string_cache capacity must be positive");
    let big = parse_string_cache(Some(&RValue::Integer(65537))).unwrap_err();
    assert_eq!(big.message, "string_cache capacity must be at most 65536");
    let neg = parse_string_cache(Some(&RValue::Integer(-1))).unwrap_err();
    assert_eq!(neg.kind, ExceptionKind::RangeError);
    let s = parse_string_cache(Some(&RValue::Str("yes".to_string()))).unwrap_err();
    assert_eq!(s.kind, ExceptionKind::TypeError);
    assert_eq!(s.message, "string_cache must be true, false, or a positive Integer");
}

#[test]
fn string_or_symbol() {
    assert_eq!(parse_string_or_symbol(&RValue::Nil).unwrap(), None);
    assert_eq!(parse_string_or_symbol(&RValue::Symbol("a".to_string())).unwrap(), Some("a".to_string()));
    assert_eq!(parse_string_or_symbol(&RValue::Str("b".to_string())).unwrap(), Some("b".to_string()));
    let e = parse_string_or_symbol(&RValue::Integer(1)).unwrap_err();
    assert_eq!(e.kind, ExceptionKind::TypeError);
    assert_eq!(e.message, "Value must be a String or Symbol");
}

#[test]
fn storage_keyword_round_trip() {
    assert_eq!(string_storage_kwarg(StringStorageConfig::default()), None);
    assert_eq!(
        string_storage_kwarg(StringStorageConfig::from_mode(StringStorageMode::Intern)),
        Some(RValue::Symbol("intern".to_string()))
    );
    assert_eq!(
        string_storage_kwarg(StringStorageConfig::from_mode(StringStorageMode::Shared)),
        Some(RValue::Symbol("shared".to_string()))
    );
    let custom = StringStorageConfig {
        mode: StringStorageMode::Shared,
        shared_max_entries: 10,
        shared_max_value_bytes: 20,
    };
    assert_eq!(
        string_storage_kwarg(custom),
        Some(RValue::Hash(vec![
            (RValue::Symbol("mode".to_string()), RValue::Symbol("shared".to_string())),
            (RValue::Symbol("max_entries".to_string()), RValue::Integer(10)),
            (RValue::Symbol("max_value_bytes".to_string()), RValue::Integer(20)),
        ]))
    );
}

#[test]
fn result_types() {
    assert_eq!(ParserResultType::iter(), vec![ParserResultType::Hash, ParserResultType::Array]);
    assert_eq!(ParserResultType::try_from("array").unwrap(), ParserResultType::Array);
    assert_eq!(ParserResultType::from_str("hash").unwrap(), ParserResultType::Hash);
    assert_eq!(ParserResultType::Hash.to_string(), "hash");
    assert_eq!(
        ParserResultType::try_from("rows").unwrap_err(),
        "Invalid parser result type: rows"
    );
    for t in ParserResultType::iter() {
        assert_eq!(ParserResultType::from_str(&t.to_string()).unwrap(), t);
    }
}

#[test]
fn argument_records() {
    let sizing = BatchSizingOptions::default();
    assert!(sizing.batch_size.is_none() && sizing.flush_threshold.is_none() && sizing.sample_size.is_none());
    let args = ParquetRepackArgs {
        read_from: vec!["a.parquet".to_string()],
        output_dir: "out".to_string(),
        output_file_prefix: "part".to_string(),
        rows_per_file: Some(10),
        max_read_rows_per_chunk: 1024,
        compression: None,
    };
    assert_eq!(args.read_from.len(), 1);
}

#[test]
fn reader_options() {
    assert_eq!(result_type_option(None).unwrap(), ParserResultType::Hash);
    assert_eq!(
        result_type_option(Some(&RValue::Symbol("array".to_string()))).unwrap(),
        ParserResultType::Array
    );
    let e = result_type_option(Some(&RValue::Str("rows".to_string()))).unwrap_err();
    assert_eq!(e.kind, ExceptionKind::ArgumentError);
    assert_eq!(e.message, "Invalid result_type value");
    let e = result_type_option(Some(&RValue::Nil)).unwrap_err();
    assert_eq!(e.message, "result_type cannot be nil");
    let e = result_type_option(Some(&RValue::Integer(1))).unwrap_err();
    assert_eq!(e.kind, ExceptionKind::TypeError);
    assert_eq!(column_batch_size(None).unwrap(), None);
    assert_eq!(column_batch_size(Some(5)).unwrap(), Some(5));
    assert_eq!(column_batch_size(Some(0)).unwrap_err().message, "batch_size must be greater than 0");
}
