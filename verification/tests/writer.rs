use parquet_ruby_adapter::error::ExceptionKind;
use parquet_ruby_adapter::rvalue::RValue;
use parquet_ruby_adapter::schema::{PrimitiveType, SchemaNode};
use parquet_ruby_adapter::writer::{
    check_column_batch, check_column_values, check_row, column_names, conversion_exception,
};

#[test]
fn encoding_errors_are_recognised() {
    let e = conversion_exception("Conversion error: EncodingError: invalid byte sequence");
    assert_eq!(e.kind, ExceptionKind::EncodingError);
    assert_eq!(e.message, "invalid byte sequence");
    let e = conversion_exception("stream did not contain valid UTF-8: invalid utf-8 sequence");
    assert_eq!(e.kind, ExceptionKind::EncodingError);
    assert_eq!(e.message, "stream did not contain valid UTF-8: invalid utf-8 sequence");
    let e = conversion_exception("Conversion error: bad value");
    assert_eq!(e.kind, ExceptionKind::RuntimeError);
    assert_eq!(e.message, "Conversion error: bad value");
}

#[test]
fn row_and_batch_shapes() {
    assert!(check_row(&RValue::Array(vec![])).is_ok());
    let e = check_row(&RValue::Nil).unwrap_err();
    assert_eq!(e.kind, ExceptionKind::TypeError);
    assert_eq!(e.message, "each row must be an array");
    assert!(check_column_batch(&RValue::Array(vec![RValue::Array(vec![])]), 1).is_ok());
    let e = check_column_batch(&RValue::Array(vec![]), 2).unwrap_err();
    assert_eq!(e.kind, ExceptionKind::RuntimeError);
    assert_eq!(e.message, "Batch has 0 columns but schema has 2");
    let e = check_column_batch(&RValue::Integer(1), 2).unwrap_err();
    assert_eq!(e.message, "each batch must be an array of column values");
    let e = check_column_values(3, &RValue::Nil).unwrap_err();
    assert_eq!(e.message, "Column 3 values must be an array");
}

#[test]
fn names_of_struct_columns() {
    let root = SchemaNode::Struct {
        name: "root".to_string(),
        nullable: false,
        fields: vec![
            SchemaNode::Primitive { name: "a".to_string(), primitive_type: PrimitiveType::Int32, nullable: true, format: None },
            SchemaNode::Primitive { name: "b".to_string(), primitive_type: PrimitiveType::String, nullable: true, format: None },
        ],
    };
    assert_eq!(column_names(&root).unwrap(), vec!["a".to_string(), "b".to_string()]);
    let leaf = SchemaNode::Primitive { name: "a".to_string(), primitive_type: PrimitiveType::Int32, nullable: true, format: None };
    assert_eq!(column_names(&leaf).unwrap_err().message, "Schema root must be a struct");
}
