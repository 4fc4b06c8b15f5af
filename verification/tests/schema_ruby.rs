use parquet_ruby_adapter::error::{CoreError, RubyAdapterError};
use parquet_ruby_adapter::rvalue::RValue;
use parquet_ruby_adapter::schema::{PrimitiveType, SchemaNode};
use parquet_ruby_adapter::schema_ruby::{
    convert_legacy_schema, is_dsl_schema, parquet_schema_to_ruby, process_schema_value,
    schema_node_to_ruby,
};

fn sym(s: &str) -> RValue {
    RValue::Symbol(s.to_string())
}

fn st(s: &str) -> RValue {
    RValue::Str(s.to_string())
}

fn hash(pairs: Vec<(RValue, RValue)>) -> RValue {
    RValue::Hash(pairs)
}

#[test]
fn primitive_node_as_hash() {
    let node = SchemaNode::Primitive {
        name: "amount".to_string(),
        primitive_type: PrimitiveType::Decimal128(10, 2),
        nullable: true,
        format: Some("x".to_string()),
    };
    let expected = hash(vec![
        (sym("type"), sym("decimal128")),
        (sym("name"), st("amount")),
        (sym("nullable"), RValue::Bool(true)),
        (sym("format"), st("x")),
        (sym("precision"), RValue::Integer(10)),
        (sym("scale"), RValue::Integer(2)),
    ]);
    assert_eq!(schema_node_to_ruby(&node), expected);
}

#[test]
fn struct_and_list_nodes_as_hashes() {
    let root = SchemaNode::Struct {
        name: "root".to_string(),
        nullable: false,
        fields: vec![SchemaNode::List {
            name: "xs".to_string(),
            nullable: true,
            item: Box::new(SchemaNode::Primitive {
                name: "xs_item".to_string(),
                primitive_type: PrimitiveType::FixedLenByteArray(4),
                nullable: true,
                format: None,
            }),
        }],
    };
    let item = hash(vec![
        (sym("type"), sym("fixed_len_byte_array")),
        (sym("name"), st("xs_item")),
        (sym("nullable"), RValue::Bool(true)),
        (sym("length"), RValue::Integer(4)),
    ]);
    let list = hash(vec![
        (sym("type"), sym("list")),
        (sym("name"), st("xs")),
        (sym("nullable"), RValue::Bool(true)),
        (sym("item"), item),
    ]);
    let expected = hash(vec![
        (sym("type"), sym("struct")),
        (sym("name"), st("root")),
        (sym("nullable"), RValue::Bool(false)),
        (sym("fields"), RValue::Array(vec![list])),
    ]);
    assert_eq!(parquet_schema_to_ruby(&root), expected);
}

#[test]
fn dsl_schema_detection() {
    assert!(is_dsl_schema(&hash(vec![(sym("type"), sym("struct"))])));
    assert!(is_dsl_schema(&hash(vec![(sym("type"), st("struct"))])));
    assert!(!is_dsl_schema(&hash(vec![(sym("type"), sym("list"))])));
    assert!(!is_dsl_schema(&hash(vec![(st("type"), sym("struct"))])));
    assert!(!is_dsl_schema(&RValue::Array(vec![])));
}

#[test]
fn legacy_schema_is_converted() {
    let legacy = vec![
        hash(vec![(st("id"), st("int64"))]),
        hash(vec![(sym("at"), st("timestamp_millis"))]),
    ];
    let out = convert_legacy_schema(&legacy).unwrap();
    assert_eq!(
        out,
        vec![
            hash(vec![(sym("name"), st("id")), (sym("type"), sym("int64"))]),
            hash(vec![
                (sym("name"), st("at")),
                (sym("type"), sym("timestamp_millis")),
                (sym("has_timezone"), RValue::Bool(true)),
            ]),
        ]
    );
}

#[test]
fn legacy_schema_errors() {
    let nil_key = vec![hash(vec![(RValue::Nil, st("int64"))])];
    assert_eq!(
        convert_legacy_schema(&nil_key).unwrap_err(),
        RubyAdapterError::InvalidInput("Failed to process field: Nil keys not allowed in schema".to_string())
    );
    let bad_value = vec![hash(vec![(st("id"), sym("int64"))])];
    assert_eq!(
        convert_legacy_schema(&bad_value).unwrap_err(),
        RubyAdapterError::InvalidInput(
            "Failed to process field: no implicit conversion of Symbol into String".to_string()
        )
    );
    let not_hash = vec![RValue::Integer(1)];
    assert_eq!(
        convert_legacy_schema(&not_hash).unwrap_err(),
        RubyAdapterError::Parquet(CoreError::Schema(
            "Invalid schema item: TypeError: no implicit conversion of Integer into Hash".to_string()
        ))
    );
}

#[test]
fn schema_inferred_from_first_row() {
    let data = vec![RValue::Array(vec![RValue::Integer(1), st("a")])];
    let out = process_schema_value(&RValue::Nil, Some(&data)).unwrap();
    let f = |i: usize| {
        hash(vec![(sym("name"), st(&format!("f{i}"))), (sym("type"), sym("string"))])
    };
    assert_eq!(out, hash(vec![(sym("fields"), RValue::Array(vec![f(0), f(1)]))]));
}

#[test]
fn schema_value_errors() {
    assert_eq!(
        process_schema_value(&RValue::Nil, None).unwrap_err(),
        RubyAdapterError::InvalidInput("Schema is required when data is not provided for inference".to_string())
    );
    assert_eq!(
        process_schema_value(&RValue::Nil, Some(&vec![])).unwrap_err(),
        RubyAdapterError::InvalidInput("Cannot infer schema from empty data".to_string())
    );
    assert_eq!(
        process_schema_value(&RValue::Nil, Some(&vec![RValue::Integer(3)])).unwrap_err(),
        RubyAdapterError::InvalidInput("First data item must be an array".to_string())
    );
    assert_eq!(
        process_schema_value(&RValue::Array(vec![RValue::Integer(3)]), None).unwrap_err(),
        RubyAdapterError::InvalidInput("schema array must contain hashes".to_string())
    );
    assert_eq!(
        process_schema_value(&hash(vec![(sym("other"), RValue::Nil)]), None).unwrap_err(),
        RubyAdapterError::InvalidInput(
            "schema hash must have 'fields' key or be in DSL format with 'type' key".to_string()
        )
    );
    assert_eq!(
        process_schema_value(&hash(vec![(sym("fields"), RValue::Nil)]), None).unwrap_err(),
        RubyAdapterError::Parquet(CoreError::Schema(
            "Failed to convert fields to array: TypeError: no implicit conversion of NilClass into Array"
                .to_string()
        ))
    );
    assert_eq!(
        process_schema_value(&RValue::Integer(1), None).unwrap_err(),
        RubyAdapterError::InvalidInput("schema must be nil, an array, or a hash".to_string())
    );
}

#[test]
fn new_format_and_dsl_pass_through() {
    let fields = || vec![hash(vec![(sym("name"), st("a")), (sym("type"), sym("int32"))])];
    let out = process_schema_value(&RValue::Array(fields()), None).unwrap();
    assert_eq!(out, hash(vec![(sym("fields"), RValue::Array(fields()))]));
    let dsl = || hash(vec![(sym("type"), sym("struct")), (sym("fields"), RValue::Array(vec![]))]);
    assert_eq!(process_schema_value(&dsl(), None).unwrap(), dsl());
}
