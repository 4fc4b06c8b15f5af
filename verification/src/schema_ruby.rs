//! Schemas as Ruby values: the hash a schema node is shown as, and the
//! preparation of the schema argument of the writers.

use crate::error::{CoreError, CoreErrorView, ErrorView, RubyAdapterError};
use crate::rvalue::{
    clone_value, find_symbol_key, hash_aset, hash_get, lemma_entry_index, lemma_rpairs_len, lemma_rvs_len,
    push_entry, push_item, rpairs, rv, rvs, string_value, sym, symbol, RValue, RView,
};
use crate::schema::{
    decimal_params, lemma_nodes_view_push, node_view, nodes_view, parenthesized, primitive_type_spec, NodeView, PrimitiveType,
    PrimitiveTypeView, SchemaNode,
};
use crate::text::{has_infix, nat_text, push_nat, push_str};
use vstd::prelude::*;

verus! {

broadcast use vstd::string::group_string_axioms;

/// The symbol a primitive type is shown as.
pub open spec fn type_symbol_name(p: PrimitiveTypeView) -> Seq<char> {
    match p {
        PrimitiveTypeView::Boolean => "boolean"@,
        PrimitiveTypeView::Int8 => "int8"@,
        PrimitiveTypeView::Int16 => "int16"@,
        PrimitiveTypeView::Int32 => "int32"@,
        PrimitiveTypeView::Int64 => "int64"@,
        PrimitiveTypeView::UInt8 => "uint8"@,
        PrimitiveTypeView::UInt16 => "uint16"@,
        PrimitiveTypeView::UInt32 => "uint32"@,
        PrimitiveTypeView::UInt64 => "uint64"@,
        PrimitiveTypeView::Float32 => "float32"@,
        PrimitiveTypeView::Float64 => "float64"@,
        PrimitiveTypeView::String => "string"@,
        PrimitiveTypeView::Binary => "binary"@,
        PrimitiveTypeView::Date32 => "date32"@,
        PrimitiveTypeView::Date64 => "date64"@,
        PrimitiveTypeView::TimestampSecond(_) => "timestamp_second"@,
        PrimitiveTypeView::TimestampMillis(_) => "timestamp_millis"@,
        PrimitiveTypeView::TimestampMicros(_) => "timestamp_micros"@,
        PrimitiveTypeView::TimestampNanos(_) => "timestamp_nanos"@,
        PrimitiveTypeView::TimeMillis => "time_millis"@,
        PrimitiveTypeView::TimeMicros => "time_micros"@,
        PrimitiveTypeView::TimeNanos => "time_nanos"@,
        PrimitiveTypeView::Decimal128(_, _) => "decimal128"@,
        PrimitiveTypeView::Decimal256(_, _) => "decimal256"@,
        PrimitiveTypeView::FixedLenByteArray(_) => "fixed_len_byte_array"@,
    }
}

/// The precision, scale and zone a primitive type carries, as the
/// arguments of a schema field that names it.
pub open spec fn symbol_precision(p: PrimitiveTypeView) -> Option<u8> {
    match p {
        PrimitiveTypeView::Decimal128(pr, _) => Some(pr),
        PrimitiveTypeView::Decimal256(pr, _) => Some(pr),
        _ => None,
    }
}

pub open spec fn symbol_scale(p: PrimitiveTypeView) -> Option<i8> {
    match p {
        PrimitiveTypeView::Decimal128(_, sc) => Some(sc),
        PrimitiveTypeView::Decimal256(_, sc) => Some(sc),
        _ => None,
    }
}

pub open spec fn symbol_zone(p: PrimitiveTypeView) -> Option<Seq<char>> {
    match p {
        PrimitiveTypeView::TimestampSecond(tz) => tz,
        PrimitiveTypeView::TimestampMillis(tz) => tz,
        PrimitiveTypeView::TimestampMicros(tz) => tz,
        PrimitiveTypeView::TimestampNanos(tz) => tz,
        _ => None,
    }
}

/// Text that does not end in `)` has no parenthesized parameters.
proof fn lemma_not_parenthesized(t: Seq<char>)
    requires
        t.len() > 0,
        t.last() != ')',
    ensures
        forall|prefix: Seq<char>| #[trigger] parenthesized(t, prefix) is None,
        forall|prefix: Seq<char>| #[trigger] decimal_params(t, prefix) is None,
{
}

/// Showing a primitive type and parsing the symbol back gives the same
/// type: the symbol of a type names that very type (the same unit of time,
/// the same width, the same signedness), with the precision, scale and
/// zone given alongside. A fixed-length byte array is shown without its
/// length, which its name cannot carry.
pub proof fn law_type_symbol_parses_back(p: PrimitiveTypeView)
    requires
        !(p is FixedLenByteArray),
    ensures
        primitive_type_spec(type_symbol_name(p), symbol_precision(p), symbol_scale(p), symbol_zone(p))
            == Ok::<PrimitiveTypeView, ErrorView>(p),
{
    match p {
        PrimitiveTypeView::Boolean => {
            reveal_strlit("boolean");
            lemma_not_parenthesized("boolean"@);
        },
        PrimitiveTypeView::Int8 => {
            reveal_strlit("int8");
            lemma_not_parenthesized("int8"@);
            reveal_strlit("boolean");
            assert("int8"@.len() != "boolean"@.len());
            reveal_strlit("bool");
            assert("int8"@[0] != "bool"@[0]);
        },
        PrimitiveTypeView::Int16 => {
            reveal_strlit("int16");
            lemma_not_parenthesized("int16"@);
            reveal_strlit("boolean");
            assert("int16"@.len() != "boolean"@.len());
            reveal_strlit("bool");
            assert("int16"@.len() != "bool"@.len());
            reveal_strlit("int8");
            assert("int16"@.len() != "int8"@.len());
        },
        PrimitiveTypeView::Int32 => {
            reveal_strlit("int32");
            lemma_not_parenthesized("int32"@);
            reveal_strlit("boolean");
            assert("int32"@.len() != "boolean"@.len());
            reveal_strlit("bool");
            assert("int32"@.len() != "bool"@.len());
            reveal_strlit("int8");
            assert("int32"@.len() != "int8"@.len());
            reveal_strlit("int16");
            assert("int32"@[3] != "int16"@[3]);
        },
        PrimitiveTypeView::Int64 => {
            reveal_strlit("int64");
            lemma_not_parenthesized("int64"@);
            reveal_strlit("boolean");
            assert("int64"@.len() != "boolean"@.len());
            reveal_strlit("bool");
            assert("int64"@.len() != "bool"@.len());
            reveal_strlit("int8");
            assert("int64"@.len() != "int8"@.len());
            reveal_strlit("int16");
            assert("int64"@[3] != "int16"@[3]);
            reveal_strlit("int32");
            assert("int64"@[3] != "int32"@[3]);
        },
        PrimitiveTypeView::UInt8 => {
            reveal_strlit("uint8");
            lemma_not_parenthesized("uint8"@);
            reveal_strlit("boolean");
            assert("uint8"@.len() != "boolean"@.len());
            reveal_strlit("bool");
            assert("uint8"@.len() != "bool"@.len());
            reveal_strlit("int8");
            assert("uint8"@.len() != "int8"@.len());
            reveal_strlit("int16");
            assert("uint8"@[0] != "int16"@[0]);
            reveal_strlit("int32");
            assert("uint8"@[0] != "int32"@[0]);
            reveal_strlit("int64");
            assert("uint8"@[0] != "int64"@[0]);
        },
        PrimitiveTypeView::UInt16 => {
            reveal_strlit("uint16");
            lemma_not_parenthesized("uint16"@);
            reveal_strlit("boolean");
            assert("uint16"@.len() != "boolean"@.len());
            reveal_strlit("bool");
            assert("uint16"@.len() != "bool"@.len());
            reveal_strlit("int8");
            assert("uint16"@.len() != "int8"@.len());
            reveal_strlit("int16");
            assert("uint16"@.len() != "int16"@.len());
            reveal_strlit("int32");
            assert("uint16"@.len() != "int32"@.len());
            reveal_strlit("int64");
            assert("uint16"@.len() != "int64"@.len());
            reveal_strlit("uint8");
            assert("uint16"@.len() != "uint8"@.len());
        },
        PrimitiveTypeView::UInt32 => {
            reveal_strlit("uint32");
            lemma_not_parenthesized("uint32"@);
            reveal_strlit("boolean");
            assert("uint32"@.len() != "boolean"@.len());
            reveal_strlit("bool");
            assert("uint32"@.len() != "bool"@.len());
            reveal_strlit("int8");
            assert("uint32"@.len() != "int8"@.len());
            reveal_strlit("int16");
            assert("uint32"@.len() != "int16"@.len());
            reveal_strlit("int32");
            assert("uint32"@.len() != "int32"@.len());
            reveal_strlit("int64");
            assert("uint32"@.len() != "int64"@.len());
            reveal_strlit("uint8");
            assert("uint32"@.len() != "uint8"@.len());
            reveal_strlit("uint16");
            assert("uint32"@[4] != "uint16"@[4]);
        },
        PrimitiveTypeView::UInt64 => {
            reveal_strlit("uint64");
            lemma_not_parenthesized("uint64"@);
            reveal_strlit("boolean");
            assert("uint64"@.len() != "boolean"@.len());
            reveal_strlit("bool");
            assert("uint64"@.len() != "bool"@.len());
            reveal_strlit("int8");
            assert("uint64"@.len() != "int8"@.len());
            reveal_strlit("int16");
            assert("uint64"@.len() != "int16"@.len());
            reveal_strlit("int32");
            assert("uint64"@.len() != "int32"@.len());
            reveal_strlit("int64");
            assert("uint64"@.len() != "int64"@.len());
            reveal_strlit("uint8");
            assert("uint64"@.len() != "uint8"@.len());
            reveal_strlit("uint16");
            assert("uint64"@[4] != "uint16"@[4]);
            reveal_strlit("uint32");
            assert("uint64"@[4] != "uint32"@[4]);
        },
        PrimitiveTypeView::Float32 => {
            reveal_strlit("float32");
            lemma_not_parenthesized("float32"@);
            reveal_strlit("boolean");
            assert("float32"@[0] != "boolean"@[0]);
            reveal_strlit("bool");
            assert("float32"@.len() != "bool"@.len());
            reveal_strlit("int8");
            assert("float32"@.len() != "int8"@.len());
            reveal_strlit("int16");
            assert("float32"@.len() != "int16"@.len());
            reveal_strlit("int32");
            assert("float32"@.len() != "int32"@.len());
            reveal_strlit("int64");
            assert("float32"@.len() != "int64"@.len());
            reveal_strlit("uint8");
            assert("float32"@.len() != "uint8"@.len());
            reveal_strlit("uint16");
            assert("float32"@.len() != "uint16"@.len());
            reveal_strlit("uint32");
            assert("float32"@.len() != "uint32"@.len());
            reveal_strlit("uint64");
            assert("float32"@.len() != "uint64"@.len());
            reveal_strlit("float");
            assert("float32"@.len() != "float"@.len());
        },
        PrimitiveTypeView::Float64 => {
            reveal_strlit("float64");
            lemma_not_parenthesized("float64"@);
            reveal_strlit("boolean");
            assert("float64"@[0] != "boolean"@[0]);
            reveal_strlit("bool");
            assert("float64"@.len() != "bool"@.len());
            reveal_strlit("int8");
            assert("float64"@.len() != "int8"@.len());
            reveal_strlit("int16");
            assert("float64"@.len() != "int16"@.len());
            reveal_strlit("int32");
            assert("float64"@.len() != "int32"@.len());
            reveal_strlit("int64");
            assert("float64"@.len() != "int64"@.len());
            reveal_strlit("uint8");
            assert("float64"@.len() != "uint8"@.len());
            reveal_strlit("uint16");
            assert("float64"@.len() != "uint16"@.len());
            reveal_strlit("uint32");
            assert("float64"@.len() != "uint32"@.len());
            reveal_strlit("uint64");
            assert("float64"@.len() != "uint64"@.len());
            reveal_strlit("float");
            assert("float64"@.len() != "float"@.len());
            reveal_strlit("float32");
            assert("float64"@[5] != "float32"@[5]);
            reveal_strlit("double");
            assert("float64"@.len() != "double"@.len());
        },
        PrimitiveTypeView::String => {
            reveal_strlit("string");
            lemma_not_parenthesized("string"@);
            reveal_strlit("boolean");
            assert("string"@.len() != "boolean"@.len());
            reveal_strlit("bool");
            assert("string"@.len() != "bool"@.len());
            reveal_strlit("int8");
            assert("string"@.len() != "int8"@.len());
            reveal_strlit("int16");
            assert("string"@.len() != "int16"@.len());
            reveal_strlit("int32");
            assert("string"@.len() != "int32"@.len());
            reveal_strlit("int64");
            assert("string"@.len() != "int64"@.len());
            reveal_strlit("uint8");
            assert("string"@.len() != "uint8"@.len());
            reveal_strlit("uint16");
            assert("string"@[0] != "uint16"@[0]);
            reveal_strlit("uint32");
            assert("string"@[0] != "uint32"@[0]);
            reveal_strlit("uint64");
            assert("string"@[0] != "uint64"@[0]);
            reveal_strlit("float");
            assert("string"@.len() != "float"@.len());
            reveal_strlit("float32");
            assert("string"@.len() != "float32"@.len());
            reveal_strlit("double");
            assert("string"@[0] != "double"@[0]);
            reveal_strlit("float64");
            assert("string"@.len() != "float64"@.len());
        },
        PrimitiveTypeView::Binary => {
            reveal_strlit("binary");
            lemma_not_parenthesized("binary"@);
            reveal_strlit("boolean");
            assert("binary"@.len() != "boolean"@.len());
            reveal_strlit("bool");
            assert("binary"@.len() != "bool"@.len());
            reveal_strlit("int8");
            assert("binary"@.len() != "int8"@.len());
            reveal_strlit("int16");
            assert("binary"@.len() != "int16"@.len());
            reveal_strlit("int32");
            assert("binary"@.len() != "int32"@.len());
            reveal_strlit("int64");
            assert("binary"@.len() != "int64"@.len());
            reveal_strlit("uint8");
            assert("binary"@.len() != "uint8"@.len());
            reveal_strlit("uint16");
            assert("binary"@[0] != "uint16"@[0]);
            reveal_strlit("uint32");
            assert("binary"@[0] != "uint32"@[0]);
            reveal_strlit("uint64");
            assert("binary"@[0] != "uint64"@[0]);
            reveal_strlit("float");
            assert("binary"@.len() != "float"@.len());
            reveal_strlit("float32");
            assert("binary"@.len() != "float32"@.len());
            reveal_strlit("double");
            assert("binary"@[0] != "double"@[0]);
            reveal_strlit("float64");
            assert("binary"@.len() != "float64"@.len());
            reveal_strlit("string");
            assert("binary"@[0] != "string"@[0]);
        },
        PrimitiveTypeView::Date32 => {
            reveal_strlit("date32");
            lemma_not_parenthesized("date32"@);
            reveal_strlit("boolean");
            assert("date32"@.len() != "boolean"@.len());
            reveal_strlit("bool");
            assert("date32"@.len() != "bool"@.len());
            reveal_strlit("int8");
            assert("date32"@.len() != "int8"@.len());
            reveal_strlit("int16");
            assert("date32"@.len() != "int16"@.len());
            reveal_strlit("int32");
            assert("date32"@.len() != "int32"@.len());
            reveal_strlit("int64");
            assert("date32"@.len() != "int64"@.len());
            reveal_strlit("uint8");
            assert("date32"@.len() != "uint8"@.len());
            reveal_strlit("uint16");
            assert("date32"@[0] != "uint16"@[0]);
            reveal_strlit("uint32");
            assert("date32"@[0] != "uint32"@[0]);
            reveal_strlit("uint64");
            assert("date32"@[0] != "uint64"@[0]);
            reveal_strlit("float");
            assert("date32"@.len() != "float"@.len());
            reveal_strlit("float32");
            assert("date32"@.len() != "float32"@.len());
            reveal_strlit("double");
            assert("date32"@[1] != "double"@[1]);
            reveal_strlit("float64");
            assert("date32"@.len() != "float64"@.len());
            reveal_strlit("string");
            assert("date32"@[0] != "string"@[0]);
            reveal_strlit("binary");
            assert("date32"@[0] != "binary"@[0]);
        },
        PrimitiveTypeView::Date64 => {
            reveal_strlit("date64");
            lemma_not_parenthesized("date64"@);
            reveal_strlit("boolean");
            assert("date64"@.len() != "boolean"@.len());
            reveal_strlit("bool");
            assert("date64"@.len() != "bool"@.len());
            reveal_strlit("int8");
            assert("date64"@.len() != "int8"@.len());
            reveal_strlit("int16");
            assert("date64"@.len() != "int16"@.len());
            reveal_strlit("int32");
            assert("date64"@.len() != "int32"@.len());
            reveal_strlit("int64");
            assert("date64"@.len() != "int64"@.len());
            reveal_strlit("uint8");
            assert("date64"@.len() != "uint8"@.len());
            reveal_strlit("uint16");
            assert("date64"@[0] != "uint16"@[0]);
            reveal_strlit("uint32");
            assert("date64"@[0] != "uint32"@[0]);
            reveal_strlit("uint64");
            assert("date64"@[0] != "uint64"@[0]);
            reveal_strlit("float");
            assert("date64"@.len() != "float"@.len());
            reveal_strlit("float32");
            assert("date64"@.len() != "float32"@.len());
            reveal_strlit("double");
            assert("date64"@[1] != "double"@[1]);
            reveal_strlit("float64");
            assert("date64"@.len() != "float64"@.len());
            reveal_strlit("string");
            assert("date64"@[0] != "string"@[0]);
            reveal_strlit("binary");
            assert("date64"@[0] != "binary"@[0]);
            reveal_strlit("date32");
            assert("date64"@[4] != "date32"@[4]);
            reveal_strlit("date");
            assert("date64"@.len() != "date"@.len());
        },
        PrimitiveTypeView::TimestampSecond(_) => {
            reveal_strlit("timestamp_second");
            lemma_not_parenthesized("timestamp_second"@);
            reveal_strlit("boolean");
            assert("timestamp_second"@.len() != "boolean"@.len());
            reveal_strlit("bool");
            assert("timestamp_second"@.len() != "bool"@.len());
            reveal_strlit("int8");
            assert("timestamp_second"@.len() != "int8"@.len());
            reveal_strlit("int16");
            assert("timestamp_second"@.len() != "int16"@.len());
            reveal_strlit("int32");
            assert("timestamp_second"@.len() != "int32"@.len());
            reveal_strlit("int64");
            assert("timestamp_second"@.len() != "int64"@.len());
            reveal_strlit("uint8");
            assert("timestamp_second"@.len() != "uint8"@.len());
            reveal_strlit("uint16");
            assert("timestamp_second"@.len() != "uint16"@.len());
            reveal_strlit("uint32");
            assert("timestamp_second"@.len() != "uint32"@.len());
            reveal_strlit("uint64");
            assert("timestamp_second"@.len() != "uint64"@.len());
            reveal_strlit("float");
            assert("timestamp_second"@.len() != "float"@.len());
            reveal_strlit("float32");
            assert("timestamp_second"@.len() != "float32"@.len());
            reveal_strlit("double");
            assert("timestamp_second"@.len() != "double"@.len());
            reveal_strlit("float64");
            assert("timestamp_second"@.len() != "float64"@.len());
            reveal_strlit("string");
            assert("timestamp_second"@.len() != "string"@.len());
            reveal_strlit("binary");
            assert("timestamp_second"@.len() != "binary"@.len());
            reveal_strlit("date32");
            assert("timestamp_second"@.len() != "date32"@.len());
            reveal_strlit("date");
            assert("timestamp_second"@.len() != "date"@.len());
            reveal_strlit("date64");
            assert("timestamp_second"@.len() != "date64"@.len());
            reveal_strlit("timestamp");
            assert("timestamp_second"@.len() != "timestamp"@.len());
            reveal_strlit("timestamp_millis");
            assert("timestamp_second"@[10] != "timestamp_millis"@[10]);
        },
        PrimitiveTypeView::TimestampMillis(_) => {
            reveal_strlit("timestamp_millis");
            lemma_not_parenthesized("timestamp_millis"@);
            reveal_strlit("boolean");
            assert("timestamp_millis"@.len() != "boolean"@.len());
            reveal_strlit("bool");
            assert("timestamp_millis"@.len() != "bool"@.len());
            reveal_strlit("int8");
            assert("timestamp_millis"@.len() != "int8"@.len());
            reveal_strlit("int16");
            assert("timestamp_millis"@.len() != "int16"@.len());
            reveal_strlit("int32");
            assert("timestamp_millis"@.len() != "int32"@.len());
            reveal_strlit("int64");
            assert("timestamp_millis"@.len() != "int64"@.len());
            reveal_strlit("uint8");
            assert("timestamp_millis"@.len() != "uint8"@.len());
            reveal_strlit("uint16");
            assert("timestamp_millis"@.len() != "uint16"@.len());
            reveal_strlit("uint32");
            assert("timestamp_millis"@.len() != "uint32"@.len());
            reveal_strlit("uint64");
            assert("timestamp_millis"@.len() != "uint64"@.len());
            reveal_strlit("float");
            assert("timestamp_millis"@.len() != "float"@.len());
            reveal_strlit("float32");
            assert("timestamp_millis"@.len() != "float32"@.len());
            reveal_strlit("double");
            assert("timestamp_millis"@.len() != "double"@.len());
            reveal_strlit("float64");
            assert("timestamp_millis"@.len() != "float64"@.len());
            reveal_strlit("string");
            assert("timestamp_millis"@.len() != "string"@.len());
            reveal_strlit("binary");
            assert("timestamp_millis"@.len() != "binary"@.len());
            reveal_strlit("date32");
            assert("timestamp_millis"@.len() != "date32"@.len());
            reveal_strlit("date");
            assert("timestamp_millis"@.len() != "date"@.len());
            reveal_strlit("date64");
            assert("timestamp_millis"@.len() != "date64"@.len());
            reveal_strlit("timestamp");
            assert("timestamp_millis"@.len() != "timestamp"@.len());
        },
        PrimitiveTypeView::TimestampMicros(_) => {
            reveal_strlit("timestamp_micros");
            lemma_not_parenthesized("timestamp_micros"@);
            reveal_strlit("boolean");
            assert("timestamp_micros"@.len() != "boolean"@.len());
            reveal_strlit("bool");
            assert("timestamp_micros"@.len() != "bool"@.len());
            reveal_strlit("int8");
            assert("timestamp_micros"@.len() != "int8"@.len());
            reveal_strlit("int16");
            assert("timestamp_micros"@.len() != "int16"@.len());
            reveal_strlit("int32");
            assert("timestamp_micros"@.len() != "int32"@.len());
            reveal_strlit("int64");
            assert("timestamp_micros"@.len() != "int64"@.len());
            reveal_strlit("uint8");
            assert("timestamp_micros"@.len() != "uint8"@.len());
            reveal_strlit("uint16");
            assert("timestamp_micros"@.len() != "uint16"@.len());
            reveal_strlit("uint32");
            assert("timestamp_micros"@.len() != "uint32"@.len());
            reveal_strlit("uint64");
            assert("timestamp_micros"@.len() != "uint64"@.len());
            reveal_strlit("float");
            assert("timestamp_micros"@.len() != "float"@.len());
            reveal_strlit("float32");
            assert("timestamp_micros"@.len() != "float32"@.len());
            reveal_strlit("double");
            assert("timestamp_micros"@.len() != "double"@.len());
            reveal_strlit("float64");
            assert("timestamp_micros"@.len() != "float64"@.len());
            reveal_strlit("string");
            assert("timestamp_micros"@.len() != "string"@.len());
            reveal_strlit("binary");
            assert("timestamp_micros"@.len() != "binary"@.len());
            reveal_strlit("date32");
            assert("timestamp_micros"@.len() != "date32"@.len());
            reveal_strlit("date");
            assert("timestamp_micros"@.len() != "date"@.len());
            reveal_strlit("date64");
            assert("timestamp_micros"@.len() != "date64"@.len());
            reveal_strlit("timestamp");
            assert("timestamp_micros"@.len() != "timestamp"@.len());
            reveal_strlit("timestamp_millis");
            assert("timestamp_micros"@[12] != "timestamp_millis"@[12]);
            reveal_strlit("timestamp_second");
            assert("timestamp_micros"@[10] != "timestamp_second"@[10]);
        },
        PrimitiveTypeView::TimestampNanos(_) => {
            reveal_strlit("timestamp_nanos");
            lemma_not_parenthesized("timestamp_nanos"@);
            reveal_strlit("boolean");
            assert("timestamp_nanos"@.len() != "boolean"@.len());
            reveal_strlit("bool");
            assert("timestamp_nanos"@.len() != "bool"@.len());
            reveal_strlit("int8");
            assert("timestamp_nanos"@.len() != "int8"@.len());
            reveal_strlit("int16");
            assert("timestamp_nanos"@.len() != "int16"@.len());
            reveal_strlit("int32");
            assert("timestamp_nanos"@.len() != "int32"@.len());
            reveal_strlit("int64");
            assert("timestamp_nanos"@.len() != "int64"@.len());
            reveal_strlit("uint8");
            assert("timestamp_nanos"@.len() != "uint8"@.len());
            reveal_strlit("uint16");
            assert("timestamp_nanos"@.len() != "uint16"@.len());
            reveal_strlit("uint32");
            assert("timestamp_nanos"@.len() != "uint32"@.len());
            reveal_strlit("uint64");
            assert("timestamp_nanos"@.len() != "uint64"@.len());
            reveal_strlit("float");
            assert("timestamp_nanos"@.len() != "float"@.len());
            reveal_strlit("float32");
            assert("timestamp_nanos"@.len() != "float32"@.len());
            reveal_strlit("double");
            assert("timestamp_nanos"@.len() != "double"@.len());
            reveal_strlit("float64");
            assert("timestamp_nanos"@.len() != "float64"@.len());
            reveal_strlit("string");
            assert("timestamp_nanos"@.len() != "string"@.len());
            reveal_strlit("binary");
            assert("timestamp_nanos"@.len() != "binary"@.len());
            reveal_strlit("date32");
            assert("timestamp_nanos"@.len() != "date32"@.len());
            reveal_strlit("date");
            assert("timestamp_nanos"@.len() != "date"@.len());
            reveal_strlit("date64");
            assert("timestamp_nanos"@.len() != "date64"@.len());
            reveal_strlit("timestamp");
            assert("timestamp_nanos"@.len() != "timestamp"@.len());
            reveal_strlit("timestamp_millis");
            assert("timestamp_nanos"@.len() != "timestamp_millis"@.len());
            reveal_strlit("timestamp_second");
            assert("timestamp_nanos"@.len() != "timestamp_second"@.len());
            reveal_strlit("timestamp_micros");
            assert("timestamp_nanos"@.len() != "timestamp_micros"@.len());
        },
        PrimitiveTypeView::TimeMillis => {
            reveal_strlit("time_millis");
            lemma_not_parenthesized("time_millis"@);
            reveal_strlit("boolean");
            assert("time_millis"@.len() != "boolean"@.len());
            reveal_strlit("bool");
            assert("time_millis"@.len() != "bool"@.len());
            reveal_strlit("int8");
            assert("time_millis"@.len() != "int8"@.len());
            reveal_strlit("int16");
            assert("time_millis"@.len() != "int16"@.len());
            reveal_strlit("int32");
            assert("time_millis"@.len() != "int32"@.len());
            reveal_strlit("int64");
            assert("time_millis"@.len() != "int64"@.len());
            reveal_strlit("uint8");
            assert("time_millis"@.len() != "uint8"@.len());
            reveal_strlit("uint16");
            assert("time_millis"@.len() != "uint16"@.len());
            reveal_strlit("uint32");
            assert("time_millis"@.len() != "uint32"@.len());
            reveal_strlit("uint64");
            assert("time_millis"@.len() != "uint64"@.len());
            reveal_strlit("float");
            assert("time_millis"@.len() != "float"@.len());
            reveal_strlit("float32");
            assert("time_millis"@.len() != "float32"@.len());
            reveal_strlit("double");
            assert("time_millis"@.len() != "double"@.len());
            reveal_strlit("float64");
            assert("time_millis"@.len() != "float64"@.len());
            reveal_strlit("string");
            assert("time_millis"@.len() != "string"@.len());
            reveal_strlit("binary");
            assert("time_millis"@.len() != "binary"@.len());
            reveal_strlit("date32");
            assert("time_millis"@.len() != "date32"@.len());
            reveal_strlit("date");
            assert("time_millis"@.len() != "date"@.len());
            reveal_strlit("date64");
            assert("time_millis"@.len() != "date64"@.len());
            reveal_strlit("timestamp");
            assert("time_millis"@.len() != "timestamp"@.len());
            reveal_strlit("timestamp_millis");
            assert("time_millis"@.len() != "timestamp_millis"@.len());
            reveal_strlit("timestamp_second");
            assert("time_millis"@.len() != "timestamp_second"@.len());
            reveal_strlit("timestamp_micros");
            assert("time_millis"@.len() != "timestamp_micros"@.len());
            reveal_strlit("timestamp_nanos");
            assert("time_millis"@.len() != "timestamp_nanos"@.len());
        },
        PrimitiveTypeView::TimeMicros => {
            reveal_strlit("time_micros");
            lemma_not_parenthesized("time_micros"@);
            reveal_strlit("boolean");
            assert("time_micros"@.len() != "boolean"@.len());
            reveal_strlit("bool");
            assert("time_micros"@.len() != "bool"@.len());
            reveal_strlit("int8");
            assert("time_micros"@.len() != "int8"@.len());
            reveal_strlit("int16");
            assert("time_micros"@.len() != "int16"@.len());
            reveal_strlit("int32");
            assert("time_micros"@.len() != "int32"@.len());
            reveal_strlit("int64");
            assert("time_micros"@.len() != "int64"@.len());
            reveal_strlit("uint8");
            assert("time_micros"@.len() != "uint8"@.len());
            reveal_strlit("uint16");
            assert("time_micros"@.len() != "uint16"@.len());
            reveal_strlit("uint32");
            assert("time_micros"@.len() != "uint32"@.len());
            reveal_strlit("uint64");
            assert("time_micros"@.len() != "uint64"@.len());
            reveal_strlit("float");
            assert("time_micros"@.len() != "float"@.len());
            reveal_strlit("float32");
            assert("time_micros"@.len() != "float32"@.len());
            reveal_strlit("double");
            assert("time_micros"@.len() != "double"@.len());
            reveal_strlit("float64");
            assert("time_micros"@.len() != "float64"@.len());
            reveal_strlit("string");
            assert("time_micros"@.len() != "string"@.len());
            reveal_strlit("binary");
            assert("time_micros"@.len() != "binary"@.len());
            reveal_strlit("date32");
            assert("time_micros"@.len() != "date32"@.len());
            reveal_strlit("date");
            assert("time_micros"@.len() != "date"@.len());
            reveal_strlit("date64");
            assert("time_micros"@.len() != "date64"@.len());
            reveal_strlit("timestamp");
            assert("time_micros"@.len() != "timestamp"@.len());
            reveal_strlit("timestamp_millis");
            assert("time_micros"@.len() != "timestamp_millis"@.len());
            reveal_strlit("timestamp_second");
            assert("time_micros"@.len() != "timestamp_second"@.len());
            reveal_strlit("timestamp_micros");
            assert("time_micros"@.len() != "timestamp_micros"@.len());
            reveal_strlit("timestamp_nanos");
            assert("time_micros"@.len() != "timestamp_nanos"@.len());
            reveal_strlit("time_millis");
            assert("time_micros"@[7] != "time_millis"@[7]);
        },
        PrimitiveTypeView::TimeNanos => {
            reveal_strlit("time_nanos");
            lemma_not_parenthesized("time_nanos"@);
            reveal_strlit("boolean");
            assert("time_nanos"@.len() != "boolean"@.len());
            reveal_strlit("bool");
            assert("time_nanos"@.len() != "bool"@.len());
            reveal_strlit("int8");
            assert("time_nanos"@.len() != "int8"@.len());
            reveal_strlit("int16");
            assert("time_nanos"@.len() != "int16"@.len());
            reveal_strlit("int32");
            assert("time_nanos"@.len() != "int32"@.len());
            reveal_strlit("int64");
            assert("time_nanos"@.len() != "int64"@.len());
            reveal_strlit("uint8");
            assert("time_nanos"@.len() != "uint8"@.len());
            reveal_strlit("uint16");
            assert("time_nanos"@.len() != "uint16"@.len());
            reveal_strlit("uint32");
            assert("time_nanos"@.len() != "uint32"@.len());
            reveal_strlit("uint64");
            assert("time_nanos"@.len() != "uint64"@.len());
            reveal_strlit("float");
            assert("time_nanos"@.len() != "float"@.len());
            reveal_strlit("float32");
            assert("time_nanos"@.len() != "float32"@.len());
            reveal_strlit("double");
            assert("time_nanos"@.len() != "double"@.len());
            reveal_strlit("float64");
            assert("time_nanos"@.len() != "float64"@.len());
            reveal_strlit("string");
            assert("time_nanos"@.len() != "string"@.len());
            reveal_strlit("binary");
            assert("time_nanos"@.len() != "binary"@.len());
            reveal_strlit("date32");
            assert("time_nanos"@.len() != "date32"@.len());
            reveal_strlit("date");
            assert("time_nanos"@.len() != "date"@.len());
            reveal_strlit("date64");
            assert("time_nanos"@.len() != "date64"@.len());
            reveal_strlit("timestamp");
            assert("time_nanos"@.len() != "timestamp"@.len());
            reveal_strlit("timestamp_millis");
            assert("time_nanos"@.len() != "timestamp_millis"@.len());
            reveal_strlit("timestamp_second");
            assert("time_nanos"@.len() != "timestamp_second"@.len());
            reveal_strlit("timestamp_micros");
            assert("time_nanos"@.len() != "timestamp_micros"@.len());
            reveal_strlit("timestamp_nanos");
            assert("time_nanos"@.len() != "timestamp_nanos"@.len());
            reveal_strlit("time_millis");
            assert("time_nanos"@.len() != "time_millis"@.len());
            reveal_strlit("time_micros");
            assert("time_nanos"@.len() != "time_micros"@.len());
        },
        PrimitiveTypeView::Decimal128(_, _) => {
            reveal_strlit("decimal128");
            lemma_not_parenthesized("decimal128"@);
            reveal_strlit("boolean");
            assert("decimal128"@.len() != "boolean"@.len());
            reveal_strlit("bool");
            assert("decimal128"@.len() != "bool"@.len());
            reveal_strlit("int8");
            assert("decimal128"@.len() != "int8"@.len());
            reveal_strlit("int16");
            assert("decimal128"@.len() != "int16"@.len());
            reveal_strlit("int32");
            assert("decimal128"@.len() != "int32"@.len());
            reveal_strlit("int64");
            assert("decimal128"@.len() != "int64"@.len());
            reveal_strlit("uint8");
            assert("decimal128"@.len() != "uint8"@.len());
            reveal_strlit("uint16");
            assert("decimal128"@.len() != "uint16"@.len());
            reveal_strlit("uint32");
            assert("decimal128"@.len() != "uint32"@.len());
            reveal_strlit("uint64");
            assert("decimal128"@.len() != "uint64"@.len());
            reveal_strlit("float");
            assert("decimal128"@.len() != "float"@.len());
            reveal_strlit("float32");
            assert("decimal128"@.len() != "float32"@.len());
            reveal_strlit("double");
            assert("decimal128"@.len() != "double"@.len());
            reveal_strlit("float64");
            assert("decimal128"@.len() != "float64"@.len());
            reveal_strlit("string");
            assert("decimal128"@.len() != "string"@.len());
            reveal_strlit("binary");
            assert("decimal128"@.len() != "binary"@.len());
            reveal_strlit("date32");
            assert("decimal128"@.len() != "date32"@.len());
            reveal_strlit("date");
            assert("decimal128"@.len() != "date"@.len());
            reveal_strlit("date64");
            assert("decimal128"@.len() != "date64"@.len());
            reveal_strlit("timestamp");
            assert("decimal128"@.len() != "timestamp"@.len());
            reveal_strlit("timestamp_millis");
            assert("decimal128"@.len() != "timestamp_millis"@.len());
            reveal_strlit("timestamp_second");
            assert("decimal128"@.len() != "timestamp_second"@.len());
            reveal_strlit("timestamp_micros");
            assert("decimal128"@.len() != "timestamp_micros"@.len());
            reveal_strlit("timestamp_nanos");
            assert("decimal128"@.len() != "timestamp_nanos"@.len());
            reveal_strlit("time_millis");
            assert("decimal128"@.len() != "time_millis"@.len());
            reveal_strlit("time_micros");
            assert("decimal128"@.len() != "time_micros"@.len());
            reveal_strlit("time_nanos");
            assert("decimal128"@[0] != "time_nanos"@[0]);
            reveal_strlit("decimal");
            assert("decimal128"@.len() != "decimal"@.len());
        },
        PrimitiveTypeView::Decimal256(_, _) => {
            reveal_strlit("decimal256");
            lemma_not_parenthesized("decimal256"@);
            reveal_strlit("boolean");
            assert("decimal256"@.len() != "boolean"@.len());
            reveal_strlit("bool");
            assert("decimal256"@.len() != "bool"@.len());
            reveal_strlit("int8");
            assert("decimal256"@.len() != "int8"@.len());
            reveal_strlit("int16");
            assert("decimal256"@.len() != "int16"@.len());
            reveal_strlit("int32");
            assert("decimal256"@.len() != "int32"@.len());
            reveal_strlit("int64");
            assert("decimal256"@.len() != "int64"@.len());
            reveal_strlit("uint8");
            assert("decimal256"@.len() != "uint8"@.len());
            reveal_strlit("uint16");
            assert("decimal256"@.len() != "uint16"@.len());
            reveal_strlit("uint32");
            assert("decimal256"@.len() != "uint32"@.len());
            reveal_strlit("uint64");
            assert("decimal256"@.len() != "uint64"@.len());
            reveal_strlit("float");
            assert("decimal256"@.len() != "float"@.len());
            reveal_strlit("float32");
            assert("decimal256"@.len() != "float32"@.len());
            reveal_strlit("double");
            assert("decimal256"@.len() != "double"@.len());
            reveal_strlit("float64");
            assert("decimal256"@.len() != "float64"@.len());
            reveal_strlit("string");
            assert("decimal256"@.len() != "string"@.len());
            reveal_strlit("binary");
            assert("decimal256"@.len() != "binary"@.len());
            reveal_strlit("date32");
            assert("decimal256"@.len() != "date32"@.len());
            reveal_strlit("date");
            assert("decimal256"@.len() != "date"@.len());
            reveal_strlit("date64");
            assert("decimal256"@.len() != "date64"@.len());
            reveal_strlit("timestamp");
            assert("decimal256"@.len() != "timestamp"@.len());
            reveal_strlit("timestamp_millis");
            assert("decimal256"@.len() != "timestamp_millis"@.len());
            reveal_strlit("timestamp_second");
            assert("decimal256"@.len() != "timestamp_second"@.len());
            reveal_strlit("timestamp_micros");
            assert("decimal256"@.len() != "timestamp_micros"@.len());
            reveal_strlit("timestamp_nanos");
            assert("decimal256"@.len() != "timestamp_nanos"@.len());
            reveal_strlit("time_millis");
            assert("decimal256"@.len() != "time_millis"@.len());
            reveal_strlit("time_micros");
            assert("decimal256"@.len() != "time_micros"@.len());
            reveal_strlit("time_nanos");
            assert("decimal256"@[0] != "time_nanos"@[0]);
            reveal_strlit("decimal");
            assert("decimal256"@.len() != "decimal"@.len());
            reveal_strlit("decimal128");
            assert("decimal256"@[7] != "decimal128"@[7]);
        },
        PrimitiveTypeView::FixedLenByteArray(_) => {},
    }
}

/// The other names of a primitive type mean the same type as its own
/// name: `bool` is `boolean`, `float` is `float32`, `double` is `float64`,
/// `date` is `date32`, and `timestamp` is `timestamp_millis`, whatever
/// precision, scale and zone go with them.
pub proof fn law_type_aliases(precision: Option<u8>, scale: Option<i8>, tz: Option<Seq<char>>)
    ensures
        primitive_type_spec("bool"@, precision, scale, tz) == Ok::<PrimitiveTypeView, ErrorView>(PrimitiveTypeView::Boolean),
        primitive_type_spec("float"@, precision, scale, tz) == Ok::<PrimitiveTypeView, ErrorView>(PrimitiveTypeView::Float32),
        primitive_type_spec("double"@, precision, scale, tz) == Ok::<PrimitiveTypeView, ErrorView>(PrimitiveTypeView::Float64),
        primitive_type_spec("date"@, precision, scale, tz) == Ok::<PrimitiveTypeView, ErrorView>(PrimitiveTypeView::Date32),
        primitive_type_spec("timestamp"@, precision, scale, tz) == Ok::<PrimitiveTypeView, ErrorView>(PrimitiveTypeView::TimestampMillis(tz)),
{
    reveal_strlit("bool");
    lemma_not_parenthesized("bool"@);
    reveal_strlit("boolean");
    assert("bool"@.len() != "boolean"@.len());
    reveal_strlit("boolean");
    lemma_not_parenthesized("boolean"@);
    reveal_strlit("float");
    lemma_not_parenthesized("float"@);
    reveal_strlit("boolean");
    assert("float"@.len() != "boolean"@.len());
    reveal_strlit("bool");
    assert("float"@.len() != "bool"@.len());
    reveal_strlit("int8");
    assert("float"@.len() != "int8"@.len());
    reveal_strlit("int16");
    assert("float"@[0] != "int16"@[0]);
    reveal_strlit("int32");
    assert("float"@[0] != "int32"@[0]);
    reveal_strlit("int64");
    assert("float"@[0] != "int64"@[0]);
    reveal_strlit("uint8");
    assert("float"@[0] != "uint8"@[0]);
    reveal_strlit("uint16");
    assert("float"@.len() != "uint16"@.len());
    reveal_strlit("uint32");
    assert("float"@.len() != "uint32"@.len());
    reveal_strlit("uint64");
    assert("float"@.len() != "uint64"@.len());
    reveal_strlit("float32");
    lemma_not_parenthesized("float32"@);
    reveal_strlit("boolean");
    assert("float32"@[0] != "boolean"@[0]);
    reveal_strlit("bool");
    assert("float32"@.len() != "bool"@.len());
    reveal_strlit("int8");
    assert("float32"@.len() != "int8"@.len());
    reveal_strlit("int16");
    assert("float32"@.len() != "int16"@.len());
    reveal_strlit("int32");
    assert("float32"@.len() != "int32"@.len());
    reveal_strlit("int64");
    assert("float32"@.len() != "int64"@.len());
    reveal_strlit("uint8");
    assert("float32"@.len() != "uint8"@.len());
    reveal_strlit("uint16");
    assert("float32"@.len() != "uint16"@.len());
    reveal_strlit("uint32");
    assert("float32"@.len() != "uint32"@.len());
    reveal_strlit("uint64");
    assert("float32"@.len() != "uint64"@.len());
    reveal_strlit("float");
    assert("float32"@.len() != "float"@.len());
    reveal_strlit("double");
    lemma_not_parenthesized("double"@);
    reveal_strlit("boolean");
    assert("double"@.len() != "boolean"@.len());
    reveal_strlit("bool");
    assert("double"@.len() != "bool"@.len());
    reveal_strlit("int8");
    assert("double"@.len() != "int8"@.len());
    reveal_strlit("int16");
    assert("double"@.len() != "int16"@.len());
    reveal_strlit("int32");
    assert("double"@.len() != "int32"@.len());
    reveal_strlit("int64");
    assert("double"@.len() != "int64"@.len());
    reveal_strlit("uint8");
    assert("double"@.len() != "uint8"@.len());
    reveal_strlit("uint16");
    assert("double"@[0] != "uint16"@[0]);
    reveal_strlit("uint32");
    assert("double"@[0] != "uint32"@[0]);
    reveal_strlit("uint64");
    assert("double"@[0] != "uint64"@[0]);
    reveal_strlit("float");
    assert("double"@.len() != "float"@.len());
    reveal_strlit("float32");
    assert("double"@.len() != "float32"@.len());
    reveal_strlit("float64");
    lemma_not_parenthesized("float64"@);
    reveal_strlit("boolean");
    assert("float64"@[0] != "boolean"@[0]);
    reveal_strlit("bool");
    assert("float64"@.len() != "bool"@.len());
    reveal_strlit("int8");
    assert("float64"@.len() != "int8"@.len());
    reveal_strlit("int16");
    assert("float64"@.len() != "int16"@.len());
    reveal_strlit("int32");
    assert("float64"@.len() != "int32"@.len());
    reveal_strlit("int64");
    assert("float64"@.len() != "int64"@.len());
    reveal_strlit("uint8");
    assert("float64"@.len() != "uint8"@.len());
    reveal_strlit("uint16");
    assert("float64"@.len() != "uint16"@.len());
    reveal_strlit("uint32");
    assert("float64"@.len() != "uint32"@.len());
    reveal_strlit("uint64");
    assert("float64"@.len() != "uint64"@.len());
    reveal_strlit("float");
    assert("float64"@.len() != "float"@.len());
    reveal_strlit("float32");
    assert("float64"@[5] != "float32"@[5]);
    reveal_strlit("double");
    assert("float64"@.len() != "double"@.len());
    reveal_strlit("date");
    lemma_not_parenthesized("date"@);
    reveal_strlit("boolean");
    assert("date"@.len() != "boolean"@.len());
    reveal_strlit("bool");
    assert("date"@[0] != "bool"@[0]);
    reveal_strlit("int8");
    assert("date"@[0] != "int8"@[0]);
    reveal_strlit("int16");
    assert("date"@.len() != "int16"@.len());
    reveal_strlit("int32");
    assert("date"@.len() != "int32"@.len());
    reveal_strlit("int64");
    assert("date"@.len() != "int64"@.len());
    reveal_strlit("uint8");
    assert("date"@.len() != "uint8"@.len());
    reveal_strlit("uint16");
    assert("date"@.len() != "uint16"@.len());
    reveal_strlit("uint32");
    assert("date"@.len() != "uint32"@.len());
    reveal_strlit("uint64");
    assert("date"@.len() != "uint64"@.len());
    reveal_strlit("float");
    assert("date"@.len() != "float"@.len());
    reveal_strlit("float32");
    assert("date"@.len() != "float32"@.len());
    reveal_strlit("double");
    assert("date"@.len() != "double"@.len());
    reveal_strlit("float64");
    assert("date"@.len() != "float64"@.len());
    reveal_strlit("string");
    assert("date"@.len() != "string"@.len());
    reveal_strlit("binary");
    assert("date"@.len() != "binary"@.len());
    reveal_strlit("date32");
    assert("date"@.len() != "date32"@.len());
    reveal_strlit("date32");
    lemma_not_parenthesized("date32"@);
    reveal_strlit("boolean");
    assert("date32"@.len() != "boolean"@.len());
    reveal_strlit("bool");
    assert("date32"@.len() != "bool"@.len());
    reveal_strlit("int8");
    assert("date32"@.len() != "int8"@.len());
    reveal_strlit("int16");
    assert("date32"@.len() != "int16"@.len());
    reveal_strlit("int32");
    assert("date32"@.len() != "int32"@.len());
    reveal_strlit("int64");
    assert("date32"@.len() != "int64"@.len());
    reveal_strlit("uint8");
    assert("date32"@.len() != "uint8"@.len());
    reveal_strlit("uint16");
    assert("date32"@[0] != "uint16"@[0]);
    reveal_strlit("uint32");
    assert("date32"@[0] != "uint32"@[0]);
    reveal_strlit("uint64");
    assert("date32"@[0] != "uint64"@[0]);
    reveal_strlit("float");
    assert("date32"@.len() != "float"@.len());
    reveal_strlit("float32");
    assert("date32"@.len() != "float32"@.len());
    reveal_strlit("double");
    assert("date32"@[1] != "double"@[1]);
    reveal_strlit("float64");
    assert("date32"@.len() != "float64"@.len());
    reveal_strlit("string");
    assert("date32"@[0] != "string"@[0]);
    reveal_strlit("binary");
    assert("date32"@[0] != "binary"@[0]);
    reveal_strlit("timestamp");
    lemma_not_parenthesized("timestamp"@);
    reveal_strlit("boolean");
    assert("timestamp"@.len() != "boolean"@.len());
    reveal_strlit("bool");
    assert("timestamp"@.len() != "bool"@.len());
    reveal_strlit("int8");
    assert("timestamp"@.len() != "int8"@.len());
    reveal_strlit("int16");
    assert("timestamp"@.len() != "int16"@.len());
    reveal_strlit("int32");
    assert("timestamp"@.len() != "int32"@.len());
    reveal_strlit("int64");
    assert("timestamp"@.len() != "int64"@.len());
    reveal_strlit("uint8");
    assert("timestamp"@.len() != "uint8"@.len());
    reveal_strlit("uint16");
    assert("timestamp"@.len() != "uint16"@.len());
    reveal_strlit("uint32");
    assert("timestamp"@.len() != "uint32"@.len());
    reveal_strlit("uint64");
    assert("timestamp"@.len() != "uint64"@.len());
    reveal_strlit("float");
    assert("timestamp"@.len() != "float"@.len());
    reveal_strlit("float32");
    assert("timestamp"@.len() != "float32"@.len());
    reveal_strlit("double");
    assert("timestamp"@.len() != "double"@.len());
    reveal_strlit("float64");
    assert("timestamp"@.len() != "float64"@.len());
    reveal_strlit("string");
    assert("timestamp"@.len() != "string"@.len());
    reveal_strlit("binary");
    assert("timestamp"@.len() != "binary"@.len());
    reveal_strlit("date32");
    assert("timestamp"@.len() != "date32"@.len());
    reveal_strlit("date");
    assert("timestamp"@.len() != "date"@.len());
    reveal_strlit("date64");
    assert("timestamp"@.len() != "date64"@.len());
    reveal_strlit("timestamp_millis");
    lemma_not_parenthesized("timestamp_millis"@);
    reveal_strlit("boolean");
    assert("timestamp_millis"@.len() != "boolean"@.len());
    reveal_strlit("bool");
    assert("timestamp_millis"@.len() != "bool"@.len());
    reveal_strlit("int8");
    assert("timestamp_millis"@.len() != "int8"@.len());
    reveal_strlit("int16");
    assert("timestamp_millis"@.len() != "int16"@.len());
    reveal_strlit("int32");
    assert("timestamp_millis"@.len() != "int32"@.len());
    reveal_strlit("int64");
    assert("timestamp_millis"@.len() != "int64"@.len());
    reveal_strlit("uint8");
    assert("timestamp_millis"@.len() != "uint8"@.len());
    reveal_strlit("uint16");
    assert("timestamp_millis"@.len() != "uint16"@.len());
    reveal_strlit("uint32");
    assert("timestamp_millis"@.len() != "uint32"@.len());
    reveal_strlit("uint64");
    assert("timestamp_millis"@.len() != "uint64"@.len());
    reveal_strlit("float");
    assert("timestamp_millis"@.len() != "float"@.len());
    reveal_strlit("float32");
    assert("timestamp_millis"@.len() != "float32"@.len());
    reveal_strlit("double");
    assert("timestamp_millis"@.len() != "double"@.len());
    reveal_strlit("float64");
    assert("timestamp_millis"@.len() != "float64"@.len());
    reveal_strlit("string");
    assert("timestamp_millis"@.len() != "string"@.len());
    reveal_strlit("binary");
    assert("timestamp_millis"@.len() != "binary"@.len());
    reveal_strlit("date32");
    assert("timestamp_millis"@.len() != "date32"@.len());
    reveal_strlit("date");
    assert("timestamp_millis"@.len() != "date"@.len());
    reveal_strlit("date64");
    assert("timestamp_millis"@.len() != "date64"@.len());
    reveal_strlit("timestamp");
    assert("timestamp_millis"@.len() != "timestamp"@.len());
}

/// The entries `:type`, `:name` and `:nullable` that every node hash starts with.
pub open spec fn head_entries(kind_name: Seq<char>, name: Seq<char>, nullable: bool) -> Seq<(RView, RView)> {
    seq![
        (sym("type"@), sym(kind_name)),
        (sym("name"@), RView::Str(name)),
        (sym("nullable"@), RView::Bool(nullable)),
    ]
}

/// The entries a primitive type adds after the format: precision and scale of
/// a decimal, length of a fixed-length byte array.
pub open spec fn type_detail_entries(p: PrimitiveTypeView) -> Seq<(RView, RView)> {
    match p {
        PrimitiveTypeView::Decimal128(pr, sc) | PrimitiveTypeView::Decimal256(pr, sc) => seq![
            (sym("precision"@), RView::Integer(pr as int)),
            (sym("scale"@), RView::Integer(sc as int)),
        ],
        PrimitiveTypeView::FixedLenByteArray(l) => seq![(sym("length"@), RView::Integer(l as int))],
        _ => Seq::empty(),
    }
}

/// The `:format` entry, when a format is set.
pub open spec fn format_entries(format: Option<Seq<char>>) -> Seq<(RView, RView)> {
    match format {
        Some(f) => seq![(sym("format"@), RView::Str(f))],
        None => Seq::empty(),
    }
}

/// The hash a schema node is shown as in Ruby.
pub open spec fn node_ruby(n: NodeView) -> RView
    decreases n,
{
    match n {
        NodeView::Struct { name, nullable, fields } => RView::Hash(
            head_entries("struct"@, name, nullable).push((sym("fields"@), RView::Array(nodes_ruby(fields)))),
        ),
        NodeView::List { name, nullable, item } => RView::Hash(
            head_entries("list"@, name, nullable).push((sym("item"@), node_ruby(*item))),
        ),
        NodeView::MapNode { name, nullable, key, value } => RView::Hash(
            head_entries("map"@, name, nullable).push((sym("key"@), node_ruby(*key))).push(
                (sym("value"@), node_ruby(*value)),
            ),
        ),
        NodeView::Primitive { name, primitive_type, nullable, format } => RView::Hash(
            head_entries(type_symbol_name(primitive_type), name, nullable) + format_entries(format)
                + type_detail_entries(primitive_type),
        ),
    }
}

/// The hashes of a sequence of schema nodes.
pub open spec fn nodes_ruby(s: Seq<NodeView>) -> Seq<RView>
    decreases s,
{
    if s.len() == 0 {
        Seq::empty()
    } else {
        nodes_ruby(s.drop_last()).push(node_ruby(s.last()))
    }
}

proof fn lemma_nodes_ruby_push(s: Seq<NodeView>, n: NodeView)
    ensures
        nodes_ruby(s.push(n)) == nodes_ruby(s).push(node_ruby(n)),
{
    assert(s.push(n).drop_last() =~= s);
}

/// The symbol name of a primitive type.
pub fn type_symbol(p: &PrimitiveType) -> (r: &'static str)
    ensures
        r@ == type_symbol_name(p@),
{
    match p {
        PrimitiveType::Boolean => "boolean",
        PrimitiveType::Int8 => "int8",
        PrimitiveType::Int16 => "int16",
        PrimitiveType::Int32 => "int32",
        PrimitiveType::Int64 => "int64",
        PrimitiveType::UInt8 => "uint8",
        PrimitiveType::UInt16 => "uint16",
        PrimitiveType::UInt32 => "uint32",
        PrimitiveType::UInt64 => "uint64",
        PrimitiveType::Float32 => "float32",
        PrimitiveType::Float64 => "float64",
        PrimitiveType::String => "string",
        PrimitiveType::Binary => "binary",
        PrimitiveType::Date32 => "date32",
        PrimitiveType::Date64 => "date64",
        PrimitiveType::TimestampSecond(_) => "timestamp_second",
        PrimitiveType::TimestampMillis(_) => "timestamp_millis",
        PrimitiveType::TimestampMicros(_) => "timestamp_micros",
        PrimitiveType::TimestampNanos(_) => "timestamp_nanos",
        PrimitiveType::TimeMillis => "time_millis",
        PrimitiveType::TimeMicros => "time_micros",
        PrimitiveType::TimeNanos => "time_nanos",
        PrimitiveType::Decimal128(_, _) => "decimal128",
        PrimitiveType::Decimal256(_, _) => "decimal256",
        PrimitiveType::FixedLenByteArray(_) => "fixed_len_byte_array",
    }
}

fn head(kind_name: &str, name: &String, nullable: bool) -> (r: Vec<(RValue, RValue)>)
    ensures
        rpairs(r@) == head_entries(kind_name@, name@, nullable),
{
    let mut out: Vec<(RValue, RValue)> = Vec::new();
    push_entry(&mut out, symbol("type"), symbol(kind_name));
    push_entry(&mut out, symbol("name"), string_value(name.as_str()));
    push_entry(&mut out, symbol("nullable"), RValue::Bool(nullable));
    proof {
        assert(rpairs(Seq::<(RValue, RValue)>::empty()) =~= Seq::<(RView, RView)>::empty());
        assert(rpairs(out@) =~= head_entries(kind_name@, name@, nullable));
    }
    out
}

/// The hash of a schema node, as Ruby sees it: `:type`, `:name`,
/// `:nullable`, then the children (`:fields`, `:item`, `:key` and `:value`)
/// or, for a primitive, `:format` when set and the type's parameters.
pub fn schema_node_to_ruby(n: &SchemaNode) -> (r: RValue)
    ensures
        r@ == node_ruby(node_view(*n)),
    decreases n, 1nat,
{
    match n {
        SchemaNode::Struct { name, nullable, fields } => {
            let mut out = head("struct", name, *nullable);
            let items = nodes_to_ruby(fields);
            push_entry(&mut out, symbol("fields"), RValue::Array(items));
            RValue::Hash(out)
        },
        SchemaNode::List { name, nullable, item } => {
            let mut out = head("list", name, *nullable);
            let iv = schema_node_to_ruby(item);
            push_entry(&mut out, symbol("item"), iv);
            RValue::Hash(out)
        },
        SchemaNode::MapNode { name, nullable, key, value } => {
            let mut out = head("map", name, *nullable);
            let kv = schema_node_to_ruby(key);
            push_entry(&mut out, symbol("key"), kv);
            let vv = schema_node_to_ruby(value);
            push_entry(&mut out, symbol("value"), vv);
            RValue::Hash(out)
        },
        SchemaNode::Primitive { name, primitive_type, nullable, format } => {
            let mut out = head(type_symbol(primitive_type), name, *nullable);
            let ghost h = rpairs(out@);
            match format {
                Some(f) => {
                    push_entry(&mut out, symbol("format"), string_value(f.as_str()));
                },
                None => {},
            }
            let ghost hf = rpairs(out@);
            proof {
                assert(hf =~= h + format_entries(crate::text::opt_text(*format)));
            }
            match primitive_type {
                PrimitiveType::Decimal128(p, s) | PrimitiveType::Decimal256(p, s) => {
                    push_entry(&mut out, symbol("precision"), RValue::Integer(*p as i128));
                    push_entry(&mut out, symbol("scale"), RValue::Integer(*s as i128));
                },
                PrimitiveType::FixedLenByteArray(l) => {
                    push_entry(&mut out, symbol("length"), RValue::Integer(*l as i128));
                },
                _ => {},
            }
            proof {
                assert(rpairs(out@) =~= hf + type_detail_entries(primitive_type@));
            }
            RValue::Hash(out)
        },
    }
}

/// The hashes of a sequence of nodes.
fn nodes_to_ruby(v: &Vec<SchemaNode>) -> (r: Vec<RValue>)
    ensures
        rvs(r@) == nodes_ruby(nodes_view(v@)),
    decreases v, 0nat,
{
    let mut out: Vec<RValue> = Vec::new();
    let n = v.len();
    let mut i: usize = 0;
    proof {
        assert(v@.take(0) =~= Seq::<SchemaNode>::empty());
        assert(rvs(out@) =~= Seq::<RView>::empty());
    }
    while i < n
        invariant
            n == v@.len(),
            i <= n,
            rvs(out@) == nodes_ruby(nodes_view(v@.take(i as int))),
        decreases n - i,
    {
        let c = schema_node_to_ruby(&v[i]);
        proof {
            assert(v@.take(i + 1) =~= v@.take(i as int).push(v@[i as int]));
            lemma_nodes_view_push(v@.take(i as int), v@[i as int]);
            lemma_nodes_ruby_push(nodes_view(v@.take(i as int)), node_view(v@[i as int]));
        }
        push_item(&mut out, c);
        i = i + 1;
    }
    proof {
        assert(v@.take(n as int) =~= v@);
    }
    out
}

/// A Parquet schema as a Ruby hash: the hash of its root node.
pub fn parquet_schema_to_ruby(root: &SchemaNode) -> (r: RValue)
    ensures
        r@ == node_ruby(node_view(*root)),
{
    schema_node_to_ruby(root)
}

/// The class name Ruby gives a value.
pub open spec fn class_name(v: RView) -> Seq<char> {
    match v {
        RView::Nil => "NilClass"@,
        RView::Bool(b) => if b { "TrueClass"@ } else { "FalseClass"@ },
        RView::Integer(_) => "Integer"@,
        RView::Str(_) => "String"@,
        RView::Symbol(_) => "Symbol"@,
        RView::Array(_) => "Array"@,
        RView::Hash(_) => "Hash"@,
        RView::Other(c) => c,
    }
}

/// How Ruby's implicit conversions name a value in their errors: `nil`,
/// `true` and `false` by themselves, anything else by its class.
pub open spec fn convert_name(v: RView) -> Seq<char> {
    match v {
        RView::Nil => "nil"@,
        RView::Bool(b) => if b { "true"@ } else { "false"@ },
        _ => class_name(v),
    }
}

/// The text of the error the binding layer gives when a value cannot be
/// converted to a Ruby `Hash` or `Array` (`target`).
pub open spec fn conversion_error_text(v: RView, target: Seq<char>) -> Seq<char> {
    "TypeError: no implicit conversion of "@ + class_name(v) + " into "@ + target
}

/// The message of Ruby's error when a value is no `String`.
pub open spec fn string_conversion_text(v: RView) -> Seq<char> {
    "no implicit conversion of "@ + convert_name(v) + " into String"@
}

/// Whether a schema value is in the DSL form: a hash whose `:type` is the
/// symbol or string `struct`.
pub open spec fn is_dsl_spec(v: RView) -> bool {
    match v {
        RView::Hash(ps) => match hash_get(ps, sym("type"@)) {
            Some(RView::Symbol(t)) => t == "struct"@,
            Some(RView::Str(t)) => t == "struct"@,
            _ => false,
        },
        _ => false,
    }
}

/// The text of a key of a legacy schema entry: a string or a symbol.
pub open spec fn key_text_spec(k: RView) -> Result<Seq<char>, Seq<char>> {
    match k {
        RView::Nil => Err("Nil keys not allowed in schema"@),
        RView::Str(s) => Ok(s),
        RView::Symbol(s) => Ok(s),
        _ => Err("Value must be a String or Symbol"@),
    }
}

/// One `column => type` pair of a legacy schema entry, applied to the field
/// hash built so far.
pub open spec fn legacy_pair(field: Seq<(RView, RView)>, k: RView, v: RView) -> Result<Seq<(RView, RView)>, Seq<char>> {
    match key_text_spec(k) {
        Err(m) => Err(m),
        Ok(name) => match v {
            RView::Str(t) => {
                let f = hash_aset(hash_aset(field, sym("name"@), RView::Str(name)), sym("type"@), sym(t));
                if has_infix(t, "timestamp"@) {
                    Ok(hash_aset(f, sym("has_timezone"@), RView::Bool(true)))
                } else {
                    Ok(f)
                }
            },
            _ => Err(string_conversion_text(v)),
        },
    }
}

/// The field hash of a legacy schema entry, or the message of the first
/// failing pair.
pub open spec fn legacy_field(ps: Seq<(RView, RView)>) -> Result<Seq<(RView, RView)>, Seq<char>>
    decreases ps.len(),
{
    if ps.len() == 0 {
        Ok(Seq::empty())
    } else {
        match legacy_field(ps.drop_last()) {
            Err(m) => Err(m),
            Ok(f) => legacy_pair(f, ps.last().0, ps.last().1),
        }
    }
}

/// The new form of a legacy schema (`[{ "column" => "type" }, ...]`).
pub open spec fn legacy_schema(items: Seq<RView>) -> Result<Seq<RView>, ErrorView>
    decreases items.len(),
{
    if items.len() == 0 {
        Ok(Seq::empty())
    } else {
        match legacy_schema(items.drop_last()) {
            Err(e) => Err(e),
            Ok(done) => match items.last() {
                RView::Hash(ps) => match legacy_field(ps) {
                    Ok(f) => Ok(done.push(RView::Hash(f))),
                    Err(m) => Err(ErrorView::InvalidInput("Failed to process field: "@ + m)),
                },
                other => Err(
                    ErrorView::Parquet(
                        CoreErrorView::Schema("Invalid schema item: "@ + conversion_error_text(other, "Hash"@)),
                    ),
                ),
            },
        }
    }
}

/// The field list a schema value gives, before inference from data.
pub open spec fn schema_fields_spec(v: RView) -> Result<Seq<RView>, ErrorView> {
    match v {
        RView::Nil => Ok(Seq::empty()),
        RView::Array(items) => if items.len() == 0 {
            Ok(items)
        } else {
            match items[0] {
                RView::Hash(ps) => if hash_get(ps, sym("name"@)) is Some && hash_get(ps, sym("type"@)) is Some {
                    Ok(items)
                } else {
                    legacy_schema(items)
                },
                _ => Err(ErrorView::InvalidInput("schema array must contain hashes"@)),
            }
        },
        RView::Hash(ps) => match hash_get(ps, sym("fields"@)) {
            Some(RView::Array(a)) => Ok(a),
            Some(other) => Err(
                ErrorView::Parquet(
                    CoreErrorView::Schema("Failed to convert fields to array: "@ + conversion_error_text(other, "Array"@)),
                ),
            ),
            None => Err(
                ErrorView::InvalidInput(
                    "schema hash must have 'fields' key or be in DSL format with 'type' key"@,
                ),
            ),
        },
        _ => Err(ErrorView::InvalidInput("schema must be nil, an array, or a hash"@)),
    }
}

/// The field named `f<i>` of type `:string`.
pub open spec fn default_field(i: nat) -> RView {
    RView::Hash(seq![(sym("name"@), RView::Str("f"@ + nat_text(i))), (sym("type"@), sym("string"@))])
}

/// The `{ fields: [...] }` hash.
pub open spec fn fields_hash(fields: Seq<RView>) -> RView {
    RView::Hash(seq![(sym("fields"@), RView::Array(fields))])
}

/// The schema argument of a writer in the form the schema parser takes: a
/// DSL schema as it is, anything else as `{ fields: [...] }`, with one string
/// column per value of the first row when no field is given and data is.
pub open spec fn process_schema_spec(v: RView, data: Option<Seq<RView>>) -> Result<RView, ErrorView> {
    if is_dsl_spec(v) {
        Ok(v)
    } else {
        match schema_fields_spec(v) {
            Err(e) => Err(e),
            Ok(fields) => if fields.len() > 0 {
                Ok(fields_hash(fields))
            } else {
                match data {
                    None => Err(ErrorView::InvalidInput("Schema is required when data is not provided for inference"@)),
                    Some(d) => if d.len() == 0 {
                        Err(ErrorView::InvalidInput("Cannot infer schema from empty data"@))
                    } else {
                        match d[0] {
                            RView::Array(row) => Ok(fields_hash(Seq::new(row.len(), |i: int| default_field(i as nat)))),
                            _ => Err(ErrorView::InvalidInput("First data item must be an array"@)),
                        }
                    },
                }
            },
        }
    }
}

/// The view of a value result.
pub open spec fn value_result(r: Result<RValue, RubyAdapterError>) -> Result<RView, ErrorView> {
    match r {
        Ok(v) => Ok(rv(v)),
        Err(e) => Err(e@),
    }
}

/// The class name of a value.
pub fn class_name_of(v: &RValue) -> (r: String)
    ensures
        r@ == class_name(v@),
{
    match v {
        RValue::Nil => "NilClass".to_string(),
        RValue::Bool(b) => if *b { "TrueClass".to_string() } else { "FalseClass".to_string() },
        RValue::Integer(_) => "Integer".to_string(),
        RValue::Str(_) => "String".to_string(),
        RValue::Symbol(_) => "Symbol".to_string(),
        RValue::Array(_) => "Array".to_string(),
        RValue::Hash(_) => "Hash".to_string(),
        RValue::Other(c) => c.clone(),
    }
}

fn conversion_error_message(v: &RValue, target: &str) -> (r: String)
    ensures
        r@ == conversion_error_text(v@, target@),
{
    let mut m = "TypeError: no implicit conversion of ".to_string();
    let c = class_name_of(v);
    push_str(&mut m, c.as_str());
    push_str(&mut m, " into ");
    push_str(&mut m, target);
    proof {
        assert(m@ =~= conversion_error_text(v@, target@));
    }
    m
}

fn string_conversion_message(v: &RValue) -> (r: String)
    ensures
        r@ == string_conversion_text(v@),
{
    let mut m = "no implicit conversion of ".to_string();
    match v {
        RValue::Nil => push_str(&mut m, "nil"),
        RValue::Bool(b) => if *b {
            push_str(&mut m, "true")
        } else {
            push_str(&mut m, "false")
        },
        _ => {
            let c = class_name_of(v);
            push_str(&mut m, c.as_str());
        },
    }
    push_str(&mut m, " into String");
    proof {
        assert(m@ =~= string_conversion_text(v@));
    }
    m
}

/// Whether a schema value is a DSL schema (a hash whose `:type` is `struct`,
/// as a symbol or a string).
pub fn is_dsl_schema(v: &RValue) -> (r: bool)
    ensures
        r == is_dsl_spec(v@),
{
    match v {
        RValue::Hash(pairs) => {
            proof {
                lemma_rpairs_len(pairs@);
                lemma_entry_index(rpairs(pairs@), sym("type"@));
            }
            match find_symbol_key(pairs, "type") {
                Some(i) => match &pairs[i].1 {
                    RValue::Symbol(t) => crate::text::str_eq(t.as_str(), "struct"),
                    RValue::Str(t) => crate::text::str_eq(t.as_str(), "struct"),
                    _ => false,
                },
                None => false,
            }
        },
        _ => false,
    }
}

/// Set the entry `:name` of a hash under construction (`hash[:name] = v`).
pub fn set_symbol_entry(pairs: &mut Vec<(RValue, RValue)>, name: &str, v: RValue)
    ensures
        rpairs(final(pairs)@) == hash_aset(rpairs(old(pairs)@), sym(name@), rv(v)),
{
    proof {
        lemma_rpairs_len(pairs@);
        lemma_entry_index(rpairs(pairs@), sym(name@));
    }
    match find_symbol_key(pairs, name) {
        Some(i) => {
            let k = symbol(name);
            let ghost before = pairs@;
            let ghost gk = k;
            let ghost gv = v;
            pairs.set(i, (k, v));
            proof {
                lemma_rpairs_len(pairs@);
                lemma_rpairs_len(before);
                assert(pairs@ == before.update(i as int, (gk, gv)));
                assert(rpairs(pairs@) =~= rpairs(before).update(i as int, (sym(name@), rv(v))));
            }
        },
        None => {
            push_entry(pairs, symbol(name), v);
        },
    }
}

fn key_text(k: &RValue) -> (r: Result<String, String>)
    ensures
        match r {
            Ok(s) => key_text_spec(k@) == Ok::<Seq<char>, Seq<char>>(s@),
            Err(m) => key_text_spec(k@) == Err::<Seq<char>, Seq<char>>(m@),
        },
{
    match k {
        RValue::Nil => Err("Nil keys not allowed in schema".to_string()),
        RValue::Str(s) => Ok(s.clone()),
        RValue::Symbol(s) => Ok(s.clone()),
        _ => Err("Value must be a String or Symbol".to_string()),
    }
}

/// The field hash of one legacy schema entry.
fn legacy_entry(pairs: &Vec<(RValue, RValue)>) -> (r: Result<Vec<(RValue, RValue)>, String>)
    ensures
        match r {
            Ok(f) => legacy_field(rpairs(pairs@)) == Ok::<Seq<(RView, RView)>, Seq<char>>(rpairs(f@)),
            Err(m) => legacy_field(rpairs(pairs@)) == Err::<Seq<(RView, RView)>, Seq<char>>(m@),
        },
{
    let ghost ps = rpairs(pairs@);
    proof {
        lemma_rpairs_len(pairs@);
        assert(ps.take(0) =~= Seq::<(RView, RView)>::empty());
    }
    let mut field: Vec<(RValue, RValue)> = Vec::new();
    let n = pairs.len();
    let mut i: usize = 0;
    while i < n
        invariant
            n == pairs@.len(),
            ps == rpairs(pairs@),
            ps.len() == n,
            forall|j: int| 0 <= j < n ==> #[trigger] ps[j] == (rv(pairs@[j].0), rv(pairs@[j].1)),
            i <= n,
            legacy_field(ps.take(i as int)) == Ok::<Seq<(RView, RView)>, Seq<char>>(rpairs(field@)),
        decreases n - i,
    {
        proof {
            assert(ps.take(i + 1).drop_last() =~= ps.take(i as int));
            assert(ps.take(i + 1).last() == ps[i as int]);
        }
        let key = key_text(&pairs[i].0);
        match key {
            Err(m) => {
                proof {
                    lemma_legacy_field_error_prefix(ps, (i + 1) as int);
                }
                return Err(m);
            },
            Ok(name) => match &pairs[i].1 {
                RValue::Str(t) => {
                    set_symbol_entry(&mut field, "name", RValue::Str(name));
                    set_symbol_entry(&mut field, "type", RValue::Symbol(t.clone()));
                    if crate::text::contains_str(t.as_str(), "timestamp") {
                        set_symbol_entry(&mut field, "has_timezone", RValue::Bool(true));
                    }
                },
                other => {
                    let m = string_conversion_message(other);
                    proof {
                        lemma_legacy_field_error_prefix(ps, (i + 1) as int);
                    }
                    return Err(m);
                },
            },
        }
        i = i + 1;
    }
    proof {
        assert(ps.take(n as int) =~= ps);
    }
    Ok(field)
}

proof fn lemma_legacy_field_error_prefix(ps: Seq<(RView, RView)>, k: int)
    requires
        0 <= k <= ps.len(),
        legacy_field(ps.take(k)) is Err,
    ensures
        legacy_field(ps) == legacy_field(ps.take(k)),
    decreases ps.len() - k,
{
    if k < ps.len() {
        assert(ps.take(k + 1).drop_last() =~= ps.take(k));
        lemma_legacy_field_error_prefix(ps, k + 1);
    } else {
        assert(ps.take(k) =~= ps);
    }
}

proof fn lemma_legacy_schema_error_prefix(items: Seq<RView>, k: int)
    requires
        0 <= k <= items.len(),
        legacy_schema(items.take(k)) is Err,
    ensures
        legacy_schema(items) == legacy_schema(items.take(k)),
    decreases items.len() - k,
{
    if k < items.len() {
        assert(items.take(k + 1).drop_last() =~= items.take(k));
        lemma_legacy_schema_error_prefix(items, k + 1);
    } else {
        assert(items.take(k) =~= items);
    }
}

/// Convert a legacy schema, `[{ "column" => "type" }, ...]`, to the form
/// `[{ name: "column", type: :type }, ...]`; a type that names a timestamp
/// also gets `has_timezone: true`.
pub fn convert_legacy_schema(schema: &Vec<RValue>) -> (r: Result<Vec<RValue>, RubyAdapterError>)
    ensures
        match r {
            Ok(out) => legacy_schema(rvs(schema@)) == Ok::<Seq<RView>, ErrorView>(rvs(out@)),
            Err(e) => legacy_schema(rvs(schema@)) == Err::<Seq<RView>, ErrorView>(e@),
        },
{
    let ghost items = rvs(schema@);
    proof {
        lemma_rvs_len(schema@);
        assert(items.take(0) =~= Seq::<RView>::empty());
    }
    let mut out: Vec<RValue> = Vec::new();
    let n = schema.len();
    let mut i: usize = 0;
    while i < n
        invariant
            n == schema@.len(),
            items == rvs(schema@),
            items.len() == n,
            forall|j: int| 0 <= j < n ==> #[trigger] items[j] == rv(schema@[j]),
            i <= n,
            legacy_schema(items.take(i as int)) == Ok::<Seq<RView>, ErrorView>(rvs(out@)),
        decreases n - i,
    {
        proof {
            assert(items.take(i + 1).drop_last() =~= items.take(i as int));
            assert(items.take(i + 1).last() == items[i as int]);
        }
        match &schema[i] {
            RValue::Hash(pairs) => match legacy_entry(pairs) {
                Ok(f) => {
                    push_item(&mut out, RValue::Hash(f));
                },
                Err(m) => {
                    let msg = crate::text::lit_plus_str("Failed to process field: ", m.as_str());
                    proof {
                        lemma_legacy_schema_error_prefix(items, (i + 1) as int);
                    }
                    return Err(RubyAdapterError::InvalidInput(msg));
                },
            },
            other => {
                let m = conversion_error_message(other, "Hash");
                let msg = crate::text::lit_plus_str("Invalid schema item: ", m.as_str());
                proof {
                    lemma_legacy_schema_error_prefix(items, (i + 1) as int);
                }
                return Err(RubyAdapterError::Parquet(CoreError::Schema(msg)));
            },
        }
        i = i + 1;
    }
    proof {
        assert(items.take(n as int) =~= items);
    }
    Ok(out)
}

fn default_fields(n: usize) -> (r: Vec<RValue>)
    ensures
        rvs(r@) == Seq::new(n as nat, |i: int| default_field(i as nat)),
{
    let mut out: Vec<RValue> = Vec::new();
    let mut i: usize = 0;
    proof {
        assert(rvs(out@) =~= Seq::new(0, |j: int| default_field(j as nat)));
    }
    while i < n
        invariant
            i <= n,
            rvs(out@) == Seq::new(i as nat, |j: int| default_field(j as nat)),
        decreases n - i,
    {
        let mut fname = "f".to_string();
        push_nat(&mut fname, i as u128);
        let mut entry: Vec<(RValue, RValue)> = Vec::new();
        push_entry(&mut entry, symbol("name"), RValue::Str(fname));
        push_entry(&mut entry, symbol("type"), symbol("string"));
        proof {
            assert(rpairs(Seq::<(RValue, RValue)>::empty()) =~= Seq::<(RView, RView)>::empty());
            assert(rpairs(entry@) =~= seq![
                (sym("name"@), RView::Str("f"@ + nat_text(i as nat))),
                (sym("type"@), sym("string"@)),
            ]);
        }
        push_item(&mut out, RValue::Hash(entry));
        proof {
            assert(Seq::new((i + 1) as nat, |j: int| default_field(j as nat)) =~= Seq::new(
                i as nat,
                |j: int| default_field(j as nat),
            ).push(default_field(i as nat)));
        }
        i = i + 1;
    }
    out
}

fn fields_hash_value(fields: Vec<RValue>) -> (r: RValue)
    ensures
        r@ == fields_hash(rvs(fields@)),
{
    let mut h: Vec<(RValue, RValue)> = Vec::new();
    push_entry(&mut h, symbol("fields"), RValue::Array(fields));
    proof {
        assert(rpairs(Seq::<(RValue, RValue)>::empty()) =~= Seq::<(RView, RView)>::empty());
        assert(rpairs(h@) =~= seq![(sym("fields"@), RView::Array(rvs(fields@)))]);
    }
    RValue::Hash(h)
}

/// The view of optional data rows.
pub open spec fn data_view(data: Option<&Vec<RValue>>) -> Option<Seq<RView>> {
    match data {
        Some(d) => Some(rvs(d@)),
        None => None,
    }
}

/// Bring the schema argument of a writer into the form the schema parser
/// takes (see `process_schema_spec`): a DSL schema is passed on as it is; a
/// field list, a legacy list or a hash with `:fields` becomes
/// `{ fields: [...] }`; with no field given, one string column `f<i>` is made
/// for each value of the first data row.
pub fn process_schema_value(schema_value: &RValue, data: Option<&Vec<RValue>>) -> (r: Result<RValue, RubyAdapterError>)
    ensures
        value_result(r) == process_schema_spec(schema_value@, data_view(data)),
{
    if is_dsl_schema(schema_value) {
        return Ok(clone_value(schema_value));
    }
    let fields: Vec<RValue> = match schema_value {
        RValue::Nil => Vec::new(),
        RValue::Array(items) => {
            proof {
                lemma_rvs_len(items@);
            }
            if items.len() == 0 {
                proof {
                    assert(rvs(Seq::<RValue>::empty()) =~= rvs(items@));
                }
                Vec::new()
            } else {
                match &items[0] {
                    RValue::Hash(ps) => {
                        proof {
                            lemma_rpairs_len(ps@);
                            lemma_entry_index(rpairs(ps@), sym("name"@));
                            lemma_entry_index(rpairs(ps@), sym("type"@));
                        }
                        let has_name = find_symbol_key(ps, "name").is_some();
                        let has_type = find_symbol_key(ps, "type").is_some();
                        if has_name && has_type {
                            crate::rvalue::clone_values(items)
                        } else {
                            match convert_legacy_schema(items) {
                                Ok(o) => o,
                                Err(e) => {
                                    return Err(e);
                                },
                            }
                        }
                    },
                    _ => {
                        return Err(RubyAdapterError::InvalidInput("schema array must contain hashes".to_string()));
                    },
                }
            }
        },
        RValue::Hash(ps) => {
            proof {
                lemma_rpairs_len(ps@);
                lemma_entry_index(rpairs(ps@), sym("fields"@));
            }
            match find_symbol_key(ps, "fields") {
                Some(i) => match &ps[i].1 {
                    RValue::Array(a) => crate::rvalue::clone_values(a),
                    other => {
                        let m = conversion_error_message(other, "Array");
                        let msg = crate::text::lit_plus_str("Failed to convert fields to array: ", m.as_str());
                        return Err(RubyAdapterError::Parquet(CoreError::Schema(msg)));
                    },
                },
                None => {
                    return Err(
                        RubyAdapterError::InvalidInput(
                            "schema hash must have 'fields' key or be in DSL format with 'type' key".to_string(),
                        ),
                    );
                },
            }
        },
        _ => {
            return Err(RubyAdapterError::InvalidInput("schema must be nil, an array, or a hash".to_string()));
        },
    };
    proof {
        assert(schema_fields_spec(schema_value@) == Ok::<Seq<RView>, ErrorView>(rvs(fields@)));
        lemma_rvs_len(fields@);
    }
    if fields.len() > 0 {
        return Ok(fields_hash_value(fields));
    }
    match data {
        None => Err(
            RubyAdapterError::InvalidInput("Schema is required when data is not provided for inference".to_string()),
        ),
        Some(d) => {
            proof {
                lemma_rvs_len(d@);
            }
            if d.len() == 0 {
                return Err(RubyAdapterError::InvalidInput("Cannot infer schema from empty data".to_string()));
            }
            match &d[0] {
                RValue::Array(row) => {
                    proof {
                        lemma_rvs_len(row@);
                    }
                    Ok(fields_hash_value(default_fields(row.len())))
                },
                _ => Err(RubyAdapterError::InvalidInput("First data item must be an array".to_string())),
            }
        },
    }
}

} // verus!
