use parquet_ruby_adapter::metadata::{
    parquet_time_unit_name, ColumnChunkMeta, ColumnStatsMeta, FieldKind, FieldMeta, FileMeta,
    KeyValueMeta, LogicalTypeMeta, PageEncodingStat, RowGroupMeta, RubyParquetMetaData, TimeUnit,
};
use parquet_ruby_adapter::rvalue::RValue;

fn s(t: &str) -> RValue {
    RValue::Str(t.to_string())
}

fn get<'a>(v: &'a RValue, key: &str) -> &'a RValue {
    match v {
        RValue::Hash(pairs) => &pairs.iter().find(|(k, _)| *k == s(key)).expect("key").1,
        _ => panic!("not a hash"),
    }
}

fn column() -> ColumnChunkMeta {
    ColumnChunkMeta {
        column_path: "a".to_string(),
        file_path: None,
        file_offset: 4,
        num_values: 3,
        compression: "SNAPPY".to_string(),
        total_compressed_size: 30,
        total_uncompressed_size: 40,
        data_page_offset: 4,
        dictionary_page_offset: Some(8),
        bloom_filter_offset: None,
        bloom_filter_length: None,
        offset_index_offset: None,
        offset_index_length: None,
        column_index_offset: None,
        column_index_length: Some(12),
        encodings: vec!["PLAIN".to_string(), "RLE".to_string()],
        statistics: Some(ColumnStatsMeta { min_is_exact: true, max_is_exact: false }),
        page_encoding_stats: Some(vec![PageEncodingStat {
            page_type: "DATA_PAGE".to_string(),
            encoding: "PLAIN".to_string(),
            count: 1,
        }]),
    }
}

fn meta() -> FileMeta {
    FileMeta {
        num_rows: 3,
        created_by: Some("parquet-rs".to_string()),
        key_value_metadata: Some(vec![KeyValueMeta { key: "k".to_string(), value: None }]),
        schema_name: "arrow_schema".to_string(),
        fields: vec![FieldMeta {
            name: "a".to_string(),
            kind: FieldKind::Primitive {
                physical_type: "INT64".to_string(),
                type_length: -1,
                scale: -1,
                precision: -1,
            },
            repetition: "OPTIONAL".to_string(),
            converted_type: "NONE".to_string(),
            logical_type: Some(LogicalTypeMeta::Timestamp { is_adjusted_to_utc: true, unit: TimeUnit::Micros }),
        }],
        row_groups: vec![RowGroupMeta {
            num_rows: 3,
            total_byte_size: 40,
            file_offset: None,
            ordinal: Some(0),
            compressed_size: 30,
            columns: vec![column()],
        }],
    }
}

#[test]
fn time_unit_names() {
    assert_eq!(parquet_time_unit_name(&TimeUnit::Millis), "millis");
    assert_eq!(parquet_time_unit_name(&TimeUnit::Micros), "micros");
    assert_eq!(parquet_time_unit_name(&TimeUnit::Nanos), "nanos");
}

#[test]
fn file_level_entries() {
    let v = RubyParquetMetaData(meta()).try_into_value();
    assert_eq!(get(&v, "num_rows"), &RValue::Integer(3));
    assert_eq!(get(&v, "created_by"), &s("parquet-rs"));
    assert_eq!(
        get(&v, "key_value_metadata"),
        &RValue::Array(vec![RValue::Hash(vec![(s("key"), s("k")), (s("value"), RValue::Nil)])])
    );
    let schema = get(&v, "schema");
    assert_eq!(get(schema, "name"), &s("arrow_schema"));
}

#[test]
fn field_entries_in_order() {
    let v = RubyParquetMetaData(meta()).try_into_value();
    let fields = match get(get(&v, "schema"), "fields") {
        RValue::Array(f) => f,
        _ => panic!(),
    };
    let expected = RValue::Hash(vec![
        (s("name"), s("a")),
        (s("type"), s("primitive")),
        (s("physical_type"), s("INT64")),
        (s("type_length"), RValue::Integer(-1)),
        (s("scale"), RValue::Integer(-1)),
        (s("precision"), RValue::Integer(-1)),
        (s("repetition"), s("OPTIONAL")),
        (s("converted_type"), s("NONE")),
        (
            s("logical_type"),
            RValue::Hash(vec![
                (s("type"), s("Timestamp")),
                (s("is_adjusted_to_utc"), RValue::Bool(true)),
                (s("unit"), s("micros")),
            ]),
        ),
    ]);
    assert_eq!(fields[0], expected);
}

#[test]
fn row_group_and_column_entries() {
    let v = RubyParquetMetaData(meta()).try_into_value();
    let groups = match get(&v, "row_groups") {
        RValue::Array(g) => g,
        _ => panic!(),
    };
    let g = &groups[0];
    assert_eq!(get(g, "num_columns"), &RValue::Integer(1));
    assert_eq!(get(g, "file_offset"), &RValue::Nil);
    assert_eq!(get(g, "ordinal"), &RValue::Integer(0));
    let cols = match get(g, "columns") {
        RValue::Array(c) => c,
        _ => panic!(),
    };
    let c = &cols[0];
    assert_eq!(get(c, "dictionary_page_offset"), &RValue::Integer(8));
    assert_eq!(get(c, "column_index_length"), &RValue::Integer(12));
    assert_eq!(get(c, "encodings"), &RValue::Array(vec![s("PLAIN"), s("RLE")]));
    assert_eq!(
        get(c, "statistics"),
        &RValue::Hash(vec![(s("min_is_exact"), RValue::Bool(true)), (s("max_is_exact"), RValue::Bool(false))])
    );
    match c {
        RValue::Hash(pairs) => {
            assert!(!pairs.iter().any(|(k, _)| *k == s("bloom_filter_offset")));
            assert_eq!(pairs.len(), 8 + 2 + 3);
        }
        _ => panic!(),
    }
}

#[test]
fn absent_key_value_metadata_is_nil() {
    let mut m = meta();
    m.key_value_metadata = None;
    m.created_by = None;
    let v = RubyParquetMetaData(m).try_into_value();
    assert_eq!(get(&v, "key_value_metadata"), &RValue::Nil);
    assert_eq!(get(&v, "created_by"), &RValue::Nil);
}
