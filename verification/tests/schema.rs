use parquet_ruby_adapter::error::{CoreError, RubyAdapterError};
use parquet_ruby_adapter::schema::{
    extract_field_schemas, into_required, ruby_schema_to_parquet, Fetched, FieldDef,
    PrimitiveType, RootDef, RubySchemaBuilder, SchemaDef, SchemaHash, SchemaNode,
};

fn hash_of_type(t: &str) -> SchemaHash {
    SchemaHash {
        type_text: Fetched::Found(Ok(t.to_string())),
        nullable: None,
        format: None,
        fields: Fetched::Failed("key not found: :fields".to_string()),
        item: Fetched::Failed("key not found: :item".to_string()),
        key: Fetched::Failed("key not found: :key".to_string()),
        value: Fetched::Failed("key not found: :value".to_string()),
        precision: None,
        scale: None,
        has_timezone: None,
        timezone_present: false,
    }
}

fn field(name: &str, t: &str) -> FieldDef {
    FieldDef::Hash { name: Fetched::Found(name.to_string()), def: hash_of_type(t) }
}

#[test]
fn primitive_names_and_aliases() {
    let b = RubySchemaBuilder::new();
    assert!(matches!(b.parse_primitive_type("bool", None, None, None), Ok(PrimitiveType::Boolean)));
    assert!(matches!(b.parse_primitive_type("double", None, None, None), Ok(PrimitiveType::Float64)));
    assert!(matches!(b.parse_primitive_type("date", None, None, None), Ok(PrimitiveType::Date32)));
    assert!(matches!(
        b.parse_primitive_type("timestamp", None, None, Some("UTC".to_string())),
        Ok(PrimitiveType::TimestampMillis(Some(ref z))) if z == "UTC"
    ));
    assert!(matches!(b.parse_primitive_type("decimal", None, None, None), Ok(PrimitiveType::Decimal128(38, 0))));
    assert!(matches!(b.parse_primitive_type("decimal", Some(40), Some(3), None), Ok(PrimitiveType::Decimal256(40, 3))));
    assert!(matches!(b.parse_primitive_type("decimal256", None, None, None), Ok(PrimitiveType::Decimal256(76, 0))));
}

#[test]
fn parenthesized_parameters() {
    let b = RubySchemaBuilder::new();
    assert!(matches!(b.parse_primitive_type("decimal(10, 2)", None, None, None), Ok(PrimitiveType::Decimal128(10, 2))));
    assert!(matches!(b.parse_primitive_type("decimal(50,5)", None, None, None), Ok(PrimitiveType::Decimal256(50, 5))));
    assert!(matches!(b.parse_primitive_type("decimal256(9,1)", None, None, None), Ok(PrimitiveType::Decimal256(9, 1))));
    assert!(matches!(
        b.parse_primitive_type("fixed_len_byte_array(16)", None, None, None),
        Ok(PrimitiveType::FixedLenByteArray(16))
    ));
    match b.parse_primitive_type("decimal(x,2)", None, None, None) {
        Err(RubyAdapterError::Parquet(CoreError::Schema(m))) => assert_eq!(m, "Invalid decimal precision: x"),
        other => panic!("unexpected {:?}", other),
    }
}

#[test]
fn unknown_primitive_is_invalid_input() {
    let b = RubySchemaBuilder::new();
    match b.parse_primitive_type("nope", None, None, None) {
        Err(RubyAdapterError::InvalidInput(m)) => assert_eq!(m, "Unknown primitive type: nope"),
        other => panic!("unexpected {:?}", other),
    }
}

#[test]
fn complex_list_and_map_strings() {
    let b = RubySchemaBuilder::new();
    match b.parse_complex_type_string("tags".to_string(), "list<string>", true).unwrap() {
        SchemaNode::List { name, nullable, item } => {
            assert_eq!(name, "tags");
            assert!(nullable);
            match *item {
                SchemaNode::Primitive { name, primitive_type: PrimitiveType::String, nullable: true, format: None } => {
                    assert_eq!(name, "tags_item")
                }
                other => panic!("unexpected item {:?}", other),
            }
        }
        other => panic!("unexpected {:?}", other),
    }
    match b.parse_complex_type_string("m".to_string(), "map<string, int64>", false).unwrap() {
        SchemaNode::MapNode { nullable, key, value, .. } => {
            assert!(!nullable);
            assert!(matches!(*key, SchemaNode::Primitive { primitive_type: PrimitiveType::String, nullable: false, .. }));
            assert!(matches!(*value, SchemaNode::Primitive { primitive_type: PrimitiveType::Int64, nullable: true, .. }));
        }
        other => panic!("unexpected {:?}", other),
    }
    match b.parse_complex_type_string("m".to_string(), "map<a,b,c>", true) {
        Err(RubyAdapterError::InvalidInput(m)) => assert_eq!(m, "Invalid map type: map<a,b,c>"),
        other => panic!("unexpected {:?}", other),
    }
    match b.parse_complex_type_string("x".to_string(), "set<int32>", true) {
        Err(RubyAdapterError::InvalidInput(m)) => assert_eq!(m, "Unknown complex type: set<int32>"),
        other => panic!("unexpected {:?}", other),
    }
}

#[test]
fn struct_definition_with_fields() {
    let b = RubySchemaBuilder::new();
    let mut h = hash_of_type("struct");
    h.nullable = Some(false);
    h.fields = Fetched::Found(vec![field("id", "int64"), field("name", "string")]);
    match b.parse_hash_schema_node("person".to_string(), &h).unwrap() {
        SchemaNode::Struct { name, nullable, fields } => {
            assert_eq!(name, "person");
            assert!(!nullable);
            assert_eq!(fields.len(), 2);
            assert!(matches!(&fields[0], SchemaNode::Primitive { primitive_type: PrimitiveType::Int64, .. }));
        }
        other => panic!("unexpected {:?}", other),
    }
}

#[test]
fn missing_type_and_missing_name_errors() {
    let b = RubySchemaBuilder::new();
    let mut h = hash_of_type("string");
    h.type_text = Fetched::Failed("key not found: :type".to_string());
    match b.parse_hash_schema_node("x".to_string(), &h) {
        Err(RubyAdapterError::Parquet(CoreError::Schema(m))) => {
            assert_eq!(m, "Schema missing 'type' field: key not found: :type")
        }
        other => panic!("unexpected {:?}", other),
    }
    match b.parse_field_definition(&Fetched::Found("age".to_string()), &h) {
        Err(RubyAdapterError::InvalidInput(m)) => assert_eq!(m, "Field 'age' missing 'type' definition"),
        other => panic!("unexpected {:?}", other),
    }
    match b.parse_field_definition(&Fetched::Failed("key not found: :name".to_string()), &hash_of_type("int32")) {
        Err(RubyAdapterError::Parquet(CoreError::Schema(m))) => {
            assert_eq!(m, "Field missing 'name': key not found: :name")
        }
        other => panic!("unexpected {:?}", other),
    }
}

#[test]
fn uuid_format_is_sixteen_bytes() {
    let b = RubySchemaBuilder::new();
    let mut h = hash_of_type("string");
    h.format = Some("uuid".to_string());
    match b.parse_hash_schema_node("id".to_string(), &h).unwrap() {
        SchemaNode::Primitive { primitive_type: PrimitiveType::FixedLenByteArray(16), format: Some(f), .. } => {
            assert_eq!(f, "uuid")
        }
        other => panic!("unexpected {:?}", other),
    }
}

#[test]
fn text_definition_reads_type_names() {
    let b = RubySchemaBuilder::new();
    let node = b.parse_schema_node("n".to_string(), &SchemaDef::Text("int16".to_string())).unwrap();
    assert!(matches!(node, SchemaNode::Primitive { primitive_type: PrimitiveType::Int16, nullable: true, .. }));
    match b.parse_schema_node("n".to_string(), &SchemaDef::NotText("Object".to_string())) {
        Err(RubyAdapterError::InvalidInput(m)) => {
            assert_eq!(m, "Expected Hash or Symbol for schema definition, got Object")
        }
        other => panic!("unexpected {:?}", other),
    }
}

#[test]
fn root_with_fields_and_duplicates() {
    let root = RootDef::Hash {
        has_type: false,
        def: {
            let mut h = hash_of_type("struct");
            h.fields = Fetched::Found(vec![field("a", "int32"), field("b", "string")]);
            h
        },
    };
    match ruby_schema_to_parquet(&root).unwrap() {
        SchemaNode::Struct { name, nullable, fields } => {
            assert_eq!(name, "root");
            assert!(!nullable);
            assert_eq!(fields.len(), 2);
        }
        other => panic!("unexpected {:?}", other),
    }
    let dup = RootDef::Hash {
        has_type: false,
        def: {
            let mut h = hash_of_type("struct");
            h.fields = Fetched::Found(vec![field("a", "int32"), field("a", "string")]);
            h
        },
    };
    match ruby_schema_to_parquet(&dup) {
        Err(RubyAdapterError::InvalidInput(m)) => {
            assert_eq!(m, "Duplicate field names in root level schema: [\"a\", \"a\"]")
        }
        other => panic!("unexpected {:?}", other),
    }
}

#[test]
fn map_keys_are_required() {
    let node = SchemaNode::Primitive {
        name: "k".to_string(),
        primitive_type: PrimitiveType::String,
        nullable: true,
        format: None,
    };
    assert!(matches!(into_required(node), SchemaNode::Primitive { nullable: false, .. }));
}

#[test]
fn extract_fields_of_struct_root_only() {
    let root = SchemaNode::Struct {
        name: "root".to_string(),
        nullable: false,
        fields: vec![SchemaNode::Primitive {
            name: "a".to_string(),
            primitive_type: PrimitiveType::Int32,
            nullable: true,
            format: None,
        }],
    };
    assert_eq!(extract_field_schemas(&root).len(), 1);
    let leaf = SchemaNode::Primitive {
        name: "a".to_string(),
        primitive_type: PrimitiveType::Int32,
        nullable: true,
        format: None,
    };
    assert_eq!(extract_field_schemas(&leaf).len(), 0);
}
