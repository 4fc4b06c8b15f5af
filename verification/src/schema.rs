//! Parquet schemas as the adapter models them, and the parsing of the schema
//! definitions Ruby callers write: type names such as `int32`,
//! `decimal(5,2)` or `map<string,int64>`, and hashes describing structs,
//! lists and maps.

use crate::error::{CoreError, CoreErrorView, ErrorView, RubyAdapterError};
use crate::text::{
    chars_of, contains_char, ends_with_char, eq_lit, lit_plus, lit_plus_str, only_position,
    opt_text, parse_int, parse_int_spec, slice_vec, split_two, starts_with, trim, trimmed,
};
use vstd::prelude::*;

verus! {

/// A Parquet primitive type.
#[derive(Debug, PartialEq)]
pub enum PrimitiveType {
    Boolean,
    Int8,
    Int16,
    Int32,
    Int64,
    UInt8,
    UInt16,
    UInt32,
    UInt64,
    Float32,
    Float64,
    String,
    Binary,
    Date32,
    Date64,
    TimeMillis,
    TimeMicros,
    TimeNanos,
    TimestampSecond(Option<String>),
    TimestampMillis(Option<String>),
    TimestampMicros(Option<String>),
    TimestampNanos(Option<String>),
    Decimal128(u8, i8),
    Decimal256(u8, i8),
    FixedLenByteArray(i32),
}

/// A primitive type with its time zone as text.
pub enum PrimitiveTypeView {
    Boolean,
    Int8,
    Int16,
    Int32,
    Int64,
    UInt8,
    UInt16,
    UInt32,
    UInt64,
    Float32,
    Float64,
    String,
    Binary,
    Date32,
    Date64,
    TimeMillis,
    TimeMicros,
    TimeNanos,
    TimestampSecond(Option<Seq<char>>),
    TimestampMillis(Option<Seq<char>>),
    TimestampMicros(Option<Seq<char>>),
    TimestampNanos(Option<Seq<char>>),
    Decimal128(u8, i8),
    Decimal256(u8, i8),
    FixedLenByteArray(i32),
}

impl View for PrimitiveType {
    type V = PrimitiveTypeView;

    open spec fn view(&self) -> PrimitiveTypeView {
        match self {
            PrimitiveType::Boolean => PrimitiveTypeView::Boolean,
            PrimitiveType::Int8 => PrimitiveTypeView::Int8,
            PrimitiveType::Int16 => PrimitiveTypeView::Int16,
            PrimitiveType::Int32 => PrimitiveTypeView::Int32,
            PrimitiveType::Int64 => PrimitiveTypeView::Int64,
            PrimitiveType::UInt8 => PrimitiveTypeView::UInt8,
            PrimitiveType::UInt16 => PrimitiveTypeView::UInt16,
            PrimitiveType::UInt32 => PrimitiveTypeView::UInt32,
            PrimitiveType::UInt64 => PrimitiveTypeView::UInt64,
            PrimitiveType::Float32 => PrimitiveTypeView::Float32,
            PrimitiveType::Float64 => PrimitiveTypeView::Float64,
            PrimitiveType::String => PrimitiveTypeView::String,
            PrimitiveType::Binary => PrimitiveTypeView::Binary,
            PrimitiveType::Date32 => PrimitiveTypeView::Date32,
            PrimitiveType::Date64 => PrimitiveTypeView::Date64,
            PrimitiveType::TimeMillis => PrimitiveTypeView::TimeMillis,
            PrimitiveType::TimeMicros => PrimitiveTypeView::TimeMicros,
            PrimitiveType::TimeNanos => PrimitiveTypeView::TimeNanos,
            PrimitiveType::TimestampSecond(tz) => PrimitiveTypeView::TimestampSecond(opt_text(*tz)),
            PrimitiveType::TimestampMillis(tz) => PrimitiveTypeView::TimestampMillis(opt_text(*tz)),
            PrimitiveType::TimestampMicros(tz) => PrimitiveTypeView::TimestampMicros(opt_text(*tz)),
            PrimitiveType::TimestampNanos(tz) => PrimitiveTypeView::TimestampNanos(opt_text(*tz)),
            PrimitiveType::Decimal128(p, s) => PrimitiveTypeView::Decimal128(*p, *s),
            PrimitiveType::Decimal256(p, s) => PrimitiveTypeView::Decimal256(*p, *s),
            PrimitiveType::FixedLenByteArray(l) => PrimitiveTypeView::FixedLenByteArray(*l),
        }
    }
}

/// A schema error of the core, by its text.
pub open spec fn schema_error(m: Seq<char>) -> ErrorView {
    ErrorView::Parquet(CoreErrorView::Schema(m))
}

/// The primitive type named exactly `t` (`timestamp` types take `tz`;
/// `decimal` types take the given precision and scale or their defaults).
pub open spec fn named_primitive(
    t: Seq<char>,
    precision: Option<u8>,
    scale: Option<i8>,
    tz: Option<Seq<char>>,
) -> Option<PrimitiveTypeView> {
    let p38: u8 = match precision {
        Some(p) => p,
        None => 38,
    };
    let p76: u8 = match precision {
        Some(p) => p,
        None => 76,
    };
    let s0: i8 = match scale {
        Some(s) => s,
        None => 0,
    };
    if t == "boolean"@ || t == "bool"@ {
        Some(PrimitiveTypeView::Boolean)
    } else if t == "int8"@ {
        Some(PrimitiveTypeView::Int8)
    } else if t == "int16"@ {
        Some(PrimitiveTypeView::Int16)
    } else if t == "int32"@ {
        Some(PrimitiveTypeView::Int32)
    } else if t == "int64"@ {
        Some(PrimitiveTypeView::Int64)
    } else if t == "uint8"@ {
        Some(PrimitiveTypeView::UInt8)
    } else if t == "uint16"@ {
        Some(PrimitiveTypeView::UInt16)
    } else if t == "uint32"@ {
        Some(PrimitiveTypeView::UInt32)
    } else if t == "uint64"@ {
        Some(PrimitiveTypeView::UInt64)
    } else if t == "float"@ || t == "float32"@ {
        Some(PrimitiveTypeView::Float32)
    } else if t == "double"@ || t == "float64"@ {
        Some(PrimitiveTypeView::Float64)
    } else if t == "string"@ {
        Some(PrimitiveTypeView::String)
    } else if t == "binary"@ {
        Some(PrimitiveTypeView::Binary)
    } else if t == "date32"@ || t == "date"@ {
        Some(PrimitiveTypeView::Date32)
    } else if t == "date64"@ {
        Some(PrimitiveTypeView::Date64)
    } else if t == "timestamp"@ || t == "timestamp_millis"@ {
        Some(PrimitiveTypeView::TimestampMillis(tz))
    } else if t == "timestamp_second"@ {
        Some(PrimitiveTypeView::TimestampSecond(tz))
    } else if t == "timestamp_micros"@ {
        Some(PrimitiveTypeView::TimestampMicros(tz))
    } else if t == "timestamp_nanos"@ {
        Some(PrimitiveTypeView::TimestampNanos(tz))
    } else if t == "time_millis"@ {
        Some(PrimitiveTypeView::TimeMillis)
    } else if t == "time_micros"@ {
        Some(PrimitiveTypeView::TimeMicros)
    } else if t == "time_nanos"@ {
        Some(PrimitiveTypeView::TimeNanos)
    } else if t == "decimal"@ {
        if p38 <= 38 {
            Some(PrimitiveTypeView::Decimal128(p38, s0))
        } else {
            Some(PrimitiveTypeView::Decimal256(p38, s0))
        }
    } else if t == "decimal128"@ {
        Some(PrimitiveTypeView::Decimal128(p38, s0))
    } else if t == "decimal256"@ {
        Some(PrimitiveTypeView::Decimal256(p76, s0))
    } else {
        None
    }
}

/// The parameters of `t` written as `prefix` ... `)`, if it is so written.
pub open spec fn parenthesized(t: Seq<char>, prefix: Seq<char>) -> Option<Seq<char>> {
    if prefix.len() < t.len() && t.subrange(0, prefix.len() as int) == prefix && t.last() == ')' {
        Some(t.subrange(prefix.len() as int, t.len() - 1))
    } else {
        None
    }
}

/// The precision and scale texts of `t` written as `prefix` `p , s` `)`,
/// each trimmed, when its parameters split on `,` into two pieces.
pub open spec fn decimal_params(t: Seq<char>, prefix: Seq<char>) -> Option<(Seq<char>, Seq<char>)> {
    match parenthesized(t, prefix) {
        Some(params) => match split_two(params, ',') {
            Some((a, b)) => Some((trim(a), trim(b))),
            None => None,
        },
        None => None,
    }
}

/// The decimal type with precision text `pt` and scale text `st`; `wide`
/// for the `decimal256(..)` form, which is always 256-bit.
pub open spec fn decimal_from_params(pt: Seq<char>, st: Seq<char>, wide: bool) -> Result<
    PrimitiveTypeView,
    ErrorView,
> {
    match parse_int_spec(pt, 0, 255, false) {
        Err(_) => Err(
            schema_error(
                if wide {
                    "Invalid decimal256 precision: "@ + pt
                } else {
                    "Invalid decimal precision: "@ + pt
                },
            ),
        ),
        Ok(p) => match parse_int_spec(st, -128, 127, true) {
            Err(_) => Err(
                schema_error(
                    if wide {
                        "Invalid decimal256 scale: "@ + st
                    } else {
                        "Invalid decimal scale: "@ + st
                    },
                ),
            ),
            Ok(s) => if !wide && p <= 38 {
                Ok(PrimitiveTypeView::Decimal128(p as u8, s as i8))
            } else {
                Ok(PrimitiveTypeView::Decimal256(p as u8, s as i8))
            },
        },
    }
}

/// The fixed-length byte array type whose length is written `lt`.
pub open spec fn fixed_len_from_param(lt: Seq<char>) -> Result<PrimitiveTypeView, ErrorView> {
    match parse_int_spec(lt, i32::MIN as int, i32::MAX as int, true) {
        Err(_) => Err(schema_error("Invalid fixed_len_byte_array length: "@ + lt)),
        Ok(l) => Ok(PrimitiveTypeView::FixedLenByteArray(l as i32)),
    }
}

/// The primitive type that the type name `t` denotes, with the given
/// precision, scale and time zone for the names that take them.
pub open spec fn primitive_type_spec(
    t: Seq<char>,
    precision: Option<u8>,
    scale: Option<i8>,
    tz: Option<Seq<char>>,
) -> Result<PrimitiveTypeView, ErrorView> {
    match decimal_params(t, "decimal("@) {
        Some((pt, st)) => decimal_from_params(pt, st, false),
        None => match decimal_params(t, "decimal256("@) {
            Some((pt, st)) => decimal_from_params(pt, st, true),
            None => match parenthesized(t, "fixed_len_byte_array("@) {
                Some(lt) => fixed_len_from_param(lt),
                None => match named_primitive(t, precision, scale, tz) {
                    Some(p) => Ok(p),
                    None => Err(ErrorView::InvalidInput("Unknown primitive type: "@ + t)),
                },
            },
        },
    }
}

/// The view of a primitive-type result.
pub open spec fn primitive_result_view(r: Result<PrimitiveType, RubyAdapterError>) -> Result<
    PrimitiveTypeView,
    ErrorView,
> {
    match r {
        Ok(p) => Ok(p@),
        Err(e) => Err(e@),
    }
}

/// The parameters of `cs` written as `prefix` ... `)`.
fn parenthesized_params(cs: &Vec<char>, prefix: &str) -> (r: Option<Vec<char>>)
    ensures
        match r {
            Some(v) => parenthesized(cs@, prefix@) == Some(v@),
            None => parenthesized(cs@, prefix@) is None,
        },
{
    if starts_with(cs, prefix) && ends_with_char(cs, ')') {
        let n = chars_of(prefix).len();
        if n < cs.len() {
            return Some(slice_vec(cs, n, cs.len() - 1));
        }
        None
    } else {
        None
    }
}

/// The two trimmed decimal parameters of `cs` written as `prefix` ... `)`.
fn decimal_parameters(cs: &Vec<char>, prefix: &str) -> (r: Option<(Vec<char>, Vec<char>)>)
    ensures
        match r {
            Some((a, b)) => decimal_params(cs@, prefix@) == Some((a@, b@)),
            None => decimal_params(cs@, prefix@) is None,
        },
{
    match parenthesized_params(cs, prefix) {
        Some(params) => match only_position(&params, ',') {
            Some(i) => {
                let n = params.len();
                let a = slice_vec(&params, 0, i);
                let b = slice_vec(&params, i + 1, n);
                proof {
                    assert(params@.subrange(0, i as int) =~= params@.take(i as int));
                    assert(params@.subrange(i + 1, params@.len() as int) =~= params@.skip(i + 1));
                }
                Some((trimmed(&a), trimmed(&b)))
            },
            None => None,
        },
        None => None,
    }
}

fn schema_err(m: String) -> (r: RubyAdapterError)
    ensures
        r@ == schema_error(m@),
{
    RubyAdapterError::Parquet(CoreError::Schema(m))
}

/// The primitive type named exactly `cs`.
fn named_primitive_type(
    cs: &Vec<char>,
    precision: Option<u8>,
    scale: Option<i8>,
    timezone: Option<String>,
) -> (r: Option<PrimitiveType>)
    ensures
        match r {
            Some(p) => named_primitive(cs@, precision, scale, opt_text(timezone)) == Some(p@),
            None => named_primitive(cs@, precision, scale, opt_text(timezone)) is None,
        },
{
    let p38: u8 = match precision {
        Some(p) => p,
        None => 38,
    };
    let p76: u8 = match precision {
        Some(p) => p,
        None => 76,
    };
    let s0: i8 = match scale {
        Some(s) => s,
        None => 0,
    };
    if eq_lit(cs, "boolean") || eq_lit(cs, "bool") {
        Some(PrimitiveType::Boolean)
    } else if eq_lit(cs, "int8") {
        Some(PrimitiveType::Int8)
    } else if eq_lit(cs, "int16") {
        Some(PrimitiveType::Int16)
    } else if eq_lit(cs, "int32") {
        Some(PrimitiveType::Int32)
    } else if eq_lit(cs, "int64") {
        Some(PrimitiveType::Int64)
    } else if eq_lit(cs, "uint8") {
        Some(PrimitiveType::UInt8)
    } else if eq_lit(cs, "uint16") {
        Some(PrimitiveType::UInt16)
    } else if eq_lit(cs, "uint32") {
        Some(PrimitiveType::UInt32)
    } else if eq_lit(cs, "uint64") {
        Some(PrimitiveType::UInt64)
    } else if eq_lit(cs, "float") || eq_lit(cs, "float32") {
        Some(PrimitiveType::Float32)
    } else if eq_lit(cs, "double") || eq_lit(cs, "float64") {
        Some(PrimitiveType::Float64)
    } else if eq_lit(cs, "string") {
        Some(PrimitiveType::String)
    } else if eq_lit(cs, "binary") {
        Some(PrimitiveType::Binary)
    } else if eq_lit(cs, "date32") || eq_lit(cs, "date") {
        Some(PrimitiveType::Date32)
    } else if eq_lit(cs, "date64") {
        Some(PrimitiveType::Date64)
    } else if eq_lit(cs, "timestamp") || eq_lit(cs, "timestamp_millis") {
        Some(PrimitiveType::TimestampMillis(timezone))
    } else if eq_lit(cs, "timestamp_second") {
        Some(PrimitiveType::TimestampSecond(timezone))
    } else if eq_lit(cs, "timestamp_micros") {
        Some(PrimitiveType::TimestampMicros(timezone))
    } else if eq_lit(cs, "timestamp_nanos") {
        Some(PrimitiveType::TimestampNanos(timezone))
    } else if eq_lit(cs, "time_millis") {
        Some(PrimitiveType::TimeMillis)
    } else if eq_lit(cs, "time_micros") {
        Some(PrimitiveType::TimeMicros)
    } else if eq_lit(cs, "time_nanos") {
        Some(PrimitiveType::TimeNanos)
    } else if eq_lit(cs, "decimal") {
        if p38 <= 38 {
            Some(PrimitiveType::Decimal128(p38, s0))
        } else {
            Some(PrimitiveType::Decimal256(p38, s0))
        }
    } else if eq_lit(cs, "decimal128") {
        Some(PrimitiveType::Decimal128(p38, s0))
    } else if eq_lit(cs, "decimal256") {
        Some(PrimitiveType::Decimal256(p76, s0))
    } else {
        None
    }
}

/// The decimal type with precision text `pt` and scale text `st`.
fn decimal_type(pt: &Vec<char>, st: &Vec<char>, wide: bool) -> (r: Result<PrimitiveType, RubyAdapterError>)
    ensures
        primitive_result_view(r) == decimal_from_params(pt@, st@, wide),
{
    let p = match parse_int(pt, 0, 255, false) {
        Ok(p) => p,
        Err(_) => {
            let m = if wide {
                lit_plus("Invalid decimal256 precision: ", pt)
            } else {
                lit_plus("Invalid decimal precision: ", pt)
            };
            return Err(schema_err(m));
        },
    };
    let s = match parse_int(st, -128, 127, true) {
        Ok(s) => s,
        Err(_) => {
            let m = if wide {
                lit_plus("Invalid decimal256 scale: ", st)
            } else {
                lit_plus("Invalid decimal scale: ", st)
            };
            return Err(schema_err(m));
        },
    };
    if !wide && p <= 38 {
        Ok(PrimitiveType::Decimal128(p as u8, s as i8))
    } else {
        Ok(PrimitiveType::Decimal256(p as u8, s as i8))
    }
}

/// The fixed-length byte array type whose length is written `lt`.
fn fixed_len_type(lt: &Vec<char>) -> (r: Result<PrimitiveType, RubyAdapterError>)
    ensures
        primitive_result_view(r) == fixed_len_from_param(lt@),
{
    match parse_int(lt, i32::MIN as i128, i32::MAX as i128, true) {
        Ok(l) => Ok(PrimitiveType::FixedLenByteArray(l as i32)),
        Err(_) => Err(schema_err(lit_plus("Invalid fixed_len_byte_array length: ", lt))),
    }
}

impl RubySchemaBuilder {
/// Parse a primitive type name: `decimal(p,s)`, `decimal256(p,s)`,
/// `fixed_len_byte_array(n)`, or one of the plain names.
pub fn parse_primitive_type(&self, 
    type_str: &str,
    precision: Option<u8>,
    scale: Option<i8>,
    timezone: Option<String>,
) -> (r: Result<PrimitiveType, RubyAdapterError>)
    ensures
        primitive_result_view(r) == primitive_type_spec(type_str@, precision, scale, opt_text(timezone)),
{
    let cs = chars_of(type_str);
    match decimal_parameters(&cs, "decimal(") {
        Some((pt, st)) => {
            return decimal_type(&pt, &st, false);
        },
        None => {},
    }
    match decimal_parameters(&cs, "decimal256(") {
        Some((pt, st)) => {
            return decimal_type(&pt, &st, true);
        },
        None => {},
    }
    match parenthesized_params(&cs, "fixed_len_byte_array(") {
        Some(lt) => {
            return fixed_len_type(&lt);
        },
        None => {},
    }
    match named_primitive_type(&cs, precision, scale, timezone) {
        Some(p) => Ok(p),
        None => Err(RubyAdapterError::InvalidInput(lit_plus_str("Unknown primitive type: ", type_str))),
    }
}
}

/// Reads schema definitions given as Ruby values into schema nodes.
pub struct RubySchemaBuilder;

impl RubySchemaBuilder {
    /// A schema builder.
    pub fn new() -> (r: Self) {
        RubySchemaBuilder
    }
}

impl Default for RubySchemaBuilder {
    fn default() -> (r: Self) {
        RubySchemaBuilder
    }
}

/// A node of a Parquet schema.
#[derive(Debug, PartialEq)]
pub enum SchemaNode {
    Struct { name: String, nullable: bool, fields: Vec<SchemaNode> },
    List { name: String, nullable: bool, item: Box<SchemaNode> },
    MapNode { name: String, nullable: bool, key: Box<SchemaNode>, value: Box<SchemaNode> },
    Primitive {
        name: String,
        primitive_type: PrimitiveType,
        nullable: bool,
        format: Option<String>,
    },
}

/// A schema node with its texts as sequences.
pub enum NodeView {
    Struct { name: Seq<char>, nullable: bool, fields: Seq<NodeView> },
    List { name: Seq<char>, nullable: bool, item: Box<NodeView> },
    MapNode { name: Seq<char>, nullable: bool, key: Box<NodeView>, value: Box<NodeView> },
    Primitive {
        name: Seq<char>,
        primitive_type: PrimitiveTypeView,
        nullable: bool,
        format: Option<Seq<char>>,
    },
}

/// The view of a schema node.
pub open spec fn node_view(n: SchemaNode) -> NodeView
    decreases n,
{
    match n {
        SchemaNode::Struct { name, nullable, fields } => NodeView::Struct {
            name: name@,
            nullable,
            fields: nodes_view(fields@),
        },
        SchemaNode::List { name, nullable, item } => NodeView::List {
            name: name@,
            nullable,
            item: Box::new(node_view(*item)),
        },
        SchemaNode::MapNode { name, nullable, key, value } => NodeView::MapNode {
            name: name@,
            nullable,
            key: Box::new(node_view(*key)),
            value: Box::new(node_view(*value)),
        },
        SchemaNode::Primitive { name, primitive_type, nullable, format } => NodeView::Primitive {
            name: name@,
            primitive_type: primitive_type@,
            nullable,
            format: opt_text(format),
        },
    }
}

/// The views of a sequence of schema nodes.
pub open spec fn nodes_view(s: Seq<SchemaNode>) -> Seq<NodeView>
    decreases s,
{
    if s.len() == 0 {
        Seq::empty()
    } else {
        nodes_view(s.drop_last()).push(node_view(s.last()))
    }
}

/// The name of a node.
pub open spec fn view_name(n: NodeView) -> Seq<char> {
    match n {
        NodeView::Struct { name, .. } => name,
        NodeView::List { name, .. } => name,
        NodeView::MapNode { name, .. } => name,
        NodeView::Primitive { name, .. } => name,
    }
}

/// The view of a node result.
pub open spec fn node_result_view(r: Result<SchemaNode, RubyAdapterError>) -> Result<NodeView, ErrorView> {
    match r {
        Ok(n) => Ok(node_view(n)),
        Err(e) => Err(e@),
    }
}

/// A nullable primitive leaf with no format.
pub open spec fn plain_leaf(name: Seq<char>, p: PrimitiveTypeView, nullable: bool) -> NodeView {
    NodeView::Primitive { name, primitive_type: p, nullable, format: None }
}

/// What a complex type string such as `list<int32>` or
/// `map<string,int64>` denotes for a node named `name`.
pub open spec fn complex_type_spec(name: Seq<char>, t: Seq<char>, nullable: bool) -> Result<
    NodeView,
    ErrorView,
>
    decreases t.len(),
{
    if 5 < t.len() && t.subrange(0, 5) == "list<"@ && t.last() == '>' {
        let inner = t.subrange(5, t.len() - 1);
        let item_name = name + "_item"@;
        let item = if inner.contains('<') {
            complex_type_spec(item_name, inner, true)
        } else {
            match primitive_type_spec(inner, None, None, None) {
                Ok(p) => Ok(plain_leaf(item_name, p, true)),
                Err(e) => Err(e),
            }
        };
        match item {
            Ok(it) => Ok(NodeView::List { name, nullable, item: Box::new(it) }),
            Err(e) => Err(e),
        }
    } else if 4 < t.len() && t.subrange(0, 4) == "map<"@ && t.last() == '>' {
        let inner = t.subrange(4, t.len() - 1);
        match split_two(inner, ',') {
            None => Err(ErrorView::InvalidInput("Invalid map type: "@ + t)),
            Some((a, b)) => match primitive_type_spec(trim(a), None, None, None) {
                Err(e) => Err(e),
                Ok(kt) => match primitive_type_spec(trim(b), None, None, None) {
                    Err(e) => Err(e),
                    Ok(vt) => Ok(
                        NodeView::MapNode {
                            name,
                            nullable,
                            key: Box::new(plain_leaf("key"@, kt, false)),
                            value: Box::new(plain_leaf("value"@, vt, true)),
                        },
                    ),
                },
            },
        }
    } else {
        Err(ErrorView::InvalidInput("Unknown complex type: "@ + t))
    }
}

/// A leaf node named `name` of the primitive type named `t`.
fn leaf_of(name: String, t: &Vec<char>, nullable: bool) -> (r: Result<SchemaNode, RubyAdapterError>)
    ensures
        node_result_view(r) == match primitive_type_spec(t@, None, None, None) {
            Ok(p) => Ok(plain_leaf(name@, p, nullable)),
            Err(e) => Err(e),
        },
{
    let ts = crate::text::string_of(t);
    match RubySchemaBuilder.parse_primitive_type(ts.as_str(), None, None, None) {
        Ok(p) => Ok(SchemaNode::Primitive { name, primitive_type: p, nullable, format: None }),
        Err(e) => Err(e),
    }
}

/// The map node for the `map<...>` parameters `inner` of the type `cs`.
fn map_type(name: String, cs: &Vec<char>, inner: &Vec<char>, nullable: bool) -> (r: Result<SchemaNode, RubyAdapterError>)
    ensures
        node_result_view(r) == match split_two(inner@, ',') {
            None => Err(ErrorView::InvalidInput("Invalid map type: "@ + cs@)),
            Some((a, b)) => match primitive_type_spec(trim(a), None, None, None) {
                Err(e) => Err(e),
                Ok(kt) => match primitive_type_spec(trim(b), None, None, None) {
                    Err(e) => Err(e),
                    Ok(vt) => Ok(
                        NodeView::MapNode {
                            name: name@,
                            nullable,
                            key: Box::new(plain_leaf("key"@, kt, false)),
                            value: Box::new(plain_leaf("value"@, vt, true)),
                        },
                    ),
                },
            },
        },
{
    match only_position(inner, ',') {
        None => {
            let t = crate::text::string_of(cs);
            Err(RubyAdapterError::InvalidInput(lit_plus_str("Invalid map type: ", t.as_str())))
        },
        Some(i) => {
            let m = inner.len();
            let a = slice_vec(inner, 0, i);
            let b = slice_vec(inner, i + 1, m);
            proof {
                assert(inner@.subrange(0, i as int) =~= inner@.take(i as int));
                assert(inner@.subrange(i + 1, m as int) =~= inner@.skip(i + 1));
            }
            let key = match leaf_of("key".to_owned(), &trimmed(&a), false) {
                Ok(k) => k,
                Err(e) => {
                    return Err(e);
                },
            };
            let value = match leaf_of("value".to_owned(), &trimmed(&b), true) {
                Ok(v) => v,
                Err(e) => {
                    return Err(e);
                },
            };
            Ok(SchemaNode::MapNode { name, nullable, key: Box::new(key), value: Box::new(value) })
        },
    }
}

fn complex_type(name: String, cs: &Vec<char>, nullable: bool) -> (r: Result<SchemaNode, RubyAdapterError>)
    ensures
        node_result_view(r) == complex_type_spec(name@, cs@, nullable),
    decreases cs@.len(),
{
    let n = cs.len();
    proof {
        reveal_strlit("list<");
        reveal_strlit("map<");
    }
    if starts_with(cs, "list<") && ends_with_char(cs, '>') && 5 < n {
        let inner = slice_vec(cs, 5, n - 1);
        let mut item_name = lit_plus_str("", name.as_str());
        crate::text::push_str(&mut item_name, "_item");
        proof {
            reveal_strlit("");
            assert(item_name@ =~= name@ + "_item"@);
        }
        let item = if contains_char(&inner, '<') {
            complex_type(item_name, &inner, true)
        } else {
            leaf_of(item_name, &inner, true)
        };
        match item {
            Ok(it) => Ok(SchemaNode::List { name, nullable, item: Box::new(it) }),
            Err(e) => Err(e),
        }
    } else if starts_with(cs, "map<") && ends_with_char(cs, '>') && 4 < n {
        let inner = slice_vec(cs, 4, n - 1);
        map_type(name, cs, &inner, nullable)
    } else {
        let t = crate::text::string_of(cs);
        Err(RubyAdapterError::InvalidInput(lit_plus_str("Unknown complex type: ", t.as_str())))
    }
}

impl RubySchemaBuilder {
/// Parse a complex type string such as `list<string>`, `list<list<int32>>`
/// or `map<string,int32>` into the node named `name`.
pub fn parse_complex_type_string(&self, name: String, type_str: &str, nullable: bool) -> (r: Result<SchemaNode, RubyAdapterError>)
    ensures
        node_result_view(r) == complex_type_spec(name@, type_str@, nullable),
{
    let cs = chars_of(type_str);
    complex_type(name, &cs, nullable)
}
}

/// The node with its nullability forced to required.
pub open spec fn required_view(n: NodeView) -> NodeView {
    match n {
        NodeView::Struct { name, fields, .. } => NodeView::Struct { name, nullable: false, fields },
        NodeView::List { name, item, .. } => NodeView::List { name, nullable: false, item },
        NodeView::MapNode { name, key, value, .. } => NodeView::MapNode { name, nullable: false, key, value },
        NodeView::Primitive { name, primitive_type, format, .. } => NodeView::Primitive {
            name,
            primitive_type,
            nullable: false,
            format,
        },
    }
}

/// `node` with its nullability forced to required (map keys are required).
pub fn into_required(node: SchemaNode) -> (r: SchemaNode)
    ensures
        node_view(r) == required_view(node_view(node)),
{
    match node {
        SchemaNode::Struct { name, fields, .. } => SchemaNode::Struct { name, nullable: false, fields },
        SchemaNode::List { name, item, .. } => SchemaNode::List { name, nullable: false, item },
        SchemaNode::MapNode { name, key, value, .. } => SchemaNode::MapNode { name, nullable: false, key, value },
        SchemaNode::Primitive { name, primitive_type, format, .. } => SchemaNode::Primitive {
            name,
            primitive_type,
            nullable: false,
            format,
        },
    }
}

/// A hash entry read with `Hash#fetch` and converted.
pub enum Fetched<T> {
    /// The fetch or the conversion raised; the error's message.
    Failed(String),
    /// The converted entry.
    Found(T),
}

/// A schema definition as read from a Ruby value.
pub enum SchemaDef {
    /// A Hash.
    Hash(SchemaHash),
    /// Another value, by the text its `to_s` gives.
    Text(String),
    /// Another value whose `to_s` raised; the error's message.
    TextRaised(String),
    /// Another value whose `to_s` is not UTF-8; the value's class name.
    NotText(String),
}

/// An element of a `fields` array.
pub enum FieldDef {
    /// Not a Hash; the message of the conversion error.
    NotHash(String),
    /// A Hash, with its `name` entry as a String.
    Hash { name: Fetched<String>, def: SchemaHash },
}

/// A schema definition Hash, each entry as the adapter reads it.
pub struct SchemaHash {
    /// `type`, present or not; when present, the text its `to_s` gives (or
    /// the message of the error that raised).
    pub type_text: Fetched<Result<String, String>>,
    /// `nullable` by truthiness, when present.
    pub nullable: Option<bool>,
    /// `format`, when present and a String.
    pub format: Option<String>,
    /// `fields` as an Array.
    pub fields: Fetched<Vec<FieldDef>>,
    /// `item`.
    pub item: Fetched<Box<SchemaDef>>,
    /// `key`.
    pub key: Fetched<Box<SchemaDef>>,
    /// `value`.
    pub value: Fetched<Box<SchemaDef>>,
    /// `precision`, when present and an Integer that fits a `u8`.
    pub precision: Option<u8>,
    /// `scale`, when present and an Integer that fits an `i8`.
    pub scale: Option<i8>,
    /// `has_timezone` by truthiness, when present.
    pub has_timezone: Option<bool>,
    /// Whether `timezone` is present.
    pub timezone_present: bool,
}

/// A top-level schema definition.
pub enum RootDef {
    /// Not a Hash; the message of the conversion error.
    NotHash(String),
    /// A Hash; `has_type` when it holds a `type` key.
    Hash { has_type: bool, def: SchemaHash },
}

/// The time zone of a primitive definition: `UTC` when `has_timezone` is
/// true, or, without `has_timezone`, when `timezone` is given.
pub open spec fn timezone_of(h: SchemaHash) -> Option<Seq<char>> {
    match h.has_timezone {
        Some(b) => if b {
            Some("UTC"@)
        } else {
            None
        },
        None => if h.timezone_present {
            Some("UTC"@)
        } else {
            None
        },
    }
}

/// The node that a definition `d` gives for the name `name`.
pub open spec fn node_def_spec(name: Seq<char>, d: SchemaDef) -> Result<NodeView, ErrorView>
    decreases d, 0nat,
{
    match d {
        SchemaDef::Hash(h) => hash_def_spec(name, h),
        SchemaDef::Text(t) => if t@.contains('<') {
            complex_type_spec(name, t@, true)
        } else {
            match primitive_type_spec(t@, None, None, None) {
                Ok(p) => Ok(plain_leaf(name, p, true)),
                Err(e) => Err(e),
            }
        },
        SchemaDef::TextRaised(m) => Err(ErrorView::Ruby(m@)),
        SchemaDef::NotText(c) => Err(
            ErrorView::InvalidInput("Expected Hash or Symbol for schema definition, got "@ + c@),
        ),
    }
}

/// The node that a definition Hash `h` gives for the name `name`.
pub open spec fn hash_def_spec(name: Seq<char>, h: SchemaHash) -> Result<NodeView, ErrorView>
    decreases h, 0nat,
{
    match h.type_text {
        Fetched::Failed(e) => Err(schema_error("Schema missing 'type' field: "@ + e@)),
        Fetched::Found(Err(e)) => Err(ErrorView::Ruby(e@)),
        Fetched::Found(Ok(t)) => {
            let nullable = match h.nullable {
                Some(b) => b,
                None => true,
            };
            if t@ == "struct"@ {
                match h.fields {
                    Fetched::Failed(e) => Err(schema_error("Struct missing 'fields': "@ + e@)),
                    Fetched::Found(fs) => match field_defs_spec(fs@, "Invalid field definition: "@) {
                        Ok(nodes) => Ok(NodeView::Struct { name, nullable, fields: nodes }),
                        Err(e) => Err(e),
                    },
                }
            } else if t@ == "list"@ {
                match h.item {
                    Fetched::Failed(e) => Err(schema_error("List missing 'item': "@ + e@)),
                    Fetched::Found(item) => match node_def_spec(name + "_item"@, *item) {
                        Ok(it) => Ok(NodeView::List { name, nullable, item: Box::new(it) }),
                        Err(e) => Err(e),
                    },
                }
            } else if t@ == "map"@ {
                match h.key {
                    Fetched::Failed(e) => Err(schema_error("Map missing 'key': "@ + e@)),
                    Fetched::Found(key) => match node_def_spec("key"@, *key) {
                        Err(e) => Err(e),
                        Ok(k) => match h.value {
                            Fetched::Failed(e) => Err(schema_error("Map missing 'value': "@ + e@)),
                            Fetched::Found(value) => match node_def_spec("value"@, *value) {
                                Err(e) => Err(e),
                                Ok(v) => Ok(
                                    NodeView::MapNode {
                                        name,
                                        nullable,
                                        key: Box::new(required_view(k)),
                                        value: Box::new(v),
                                    },
                                ),
                            },
                        },
                    },
                }
            } else if t@.contains('<') {
                complex_type_spec(name, t@, nullable)
            } else if opt_text(h.format) == Some("uuid"@) {
                Ok(
                    NodeView::Primitive {
                        name,
                        primitive_type: PrimitiveTypeView::FixedLenByteArray(16),
                        nullable,
                        format: opt_text(h.format),
                    },
                )
            } else {
                match primitive_type_spec(t@, h.precision, h.scale, timezone_of(h)) {
                    Ok(p) => Ok(
                        NodeView::Primitive { name, primitive_type: p, nullable, format: opt_text(h.format) },
                    ),
                    Err(e) => Err(e),
                }
            }
        },
    }
}

/// The node a field definition gives, named by its `name` entry.
pub open spec fn named_field_spec(name: Fetched<String>, def: SchemaHash) -> Result<NodeView, ErrorView>
    decreases def, 1nat,
{
    match name {
        Fetched::Failed(e) => Err(schema_error("Field missing 'name': "@ + e@)),
        Fetched::Found(n) => match def.type_text {
            Fetched::Failed(_) => Err(
                ErrorView::InvalidInput("Field '"@ + n@ + "' missing 'type' definition"@),
            ),
            Fetched::Found(_) => hash_def_spec(n@, def),
        },
    }
}

/// The nodes of the field definitions `fs`, or the first error among them
/// (`not_hash` prefixes the error of an element that is not a Hash).
pub open spec fn field_defs_spec(fs: Seq<FieldDef>, not_hash: Seq<char>) -> Result<Seq<NodeView>, ErrorView>
    decreases fs, 0nat,
{
    if fs.len() == 0 {
        Ok(Seq::empty())
    } else {
        match field_defs_spec(fs.drop_last(), not_hash) {
            Err(e) => Err(e),
            Ok(nodes) => match fs.last() {
                FieldDef::NotHash(e) => Err(schema_error(not_hash + e@)),
                FieldDef::Hash { name, def } => match named_field_spec(name, def) {
                    Err(e) => Err(e),
                    Ok(n) => Ok(nodes.push(n)),
                },
            },
        }
    }
}

fn clone_opt_string(o: &Option<String>) -> (r: Option<String>)
    ensures
        opt_text(r) == opt_text(*o),
{
    match o {
        Some(s) => Some(s.clone()),
        None => None,
    }
}

fn clone_string(s: &String) -> (r: String)
    ensures
        r@ == s@,
{
    s.clone()
}

fn ruby_err(m: &String) -> (r: RubyAdapterError)
    ensures
        r@ == ErrorView::Ruby(m@),
{
    RubyAdapterError::Ruby(m.clone())
}

fn prefixed_schema_err(prefix: &str, e: &String) -> (r: RubyAdapterError)
    ensures
        r@ == schema_error(prefix@ + e@),
{
    schema_err(lit_plus_str(prefix, e.as_str()))
}

impl RubySchemaBuilder {
/// The node that the definition `d` gives for the name `name`: a Hash is
/// read as a full definition, any other value by its text as a type name.
pub fn parse_schema_node(&self, name: String, d: &SchemaDef) -> (r: Result<SchemaNode, RubyAdapterError>)
    ensures
        node_result_view(r) == node_def_spec(name@, *d),
    decreases d, 0nat,
{
    match d {
        SchemaDef::Hash(h) => RubySchemaBuilder.parse_hash_schema_node(name, h),
        SchemaDef::Text(t) => {
            let cs = chars_of(t.as_str());
            if contains_char(&cs, '<') {
                complex_type(name, &cs, true)
            } else {
                leaf_of(name, &cs, true)
            }
        },
        SchemaDef::TextRaised(m) => Err(ruby_err(m)),
        SchemaDef::NotText(c) => Err(
            RubyAdapterError::InvalidInput(
                lit_plus_str("Expected Hash or Symbol for schema definition, got ", c.as_str()),
            ),
        ),
    }
}
}

/// The primitive leaf that the definition Hash `h` of type `t` gives.
fn primitive_of_hash(name: String, t: &String, h: &SchemaHash, nullable: bool) -> (r: Result<SchemaNode, RubyAdapterError>)
    ensures
        node_result_view(r) == (if opt_text(h.format) == Some("uuid"@) {
            Ok(
                NodeView::Primitive {
                    name: name@,
                    primitive_type: PrimitiveTypeView::FixedLenByteArray(16),
                    nullable,
                    format: opt_text(h.format),
                },
            )
        } else {
            match primitive_type_spec(t@, h.precision, h.scale, timezone_of(*h)) {
                Ok(p) => Ok(
                    NodeView::Primitive { name: name@, primitive_type: p, nullable, format: opt_text(h.format) },
                ),
                Err(e) => Err(e),
            }
        }),
{
    let is_uuid = match &h.format {
        Some(f) => crate::text::str_eq(f.as_str(), "uuid"),
        None => false,
    };
    if is_uuid {
        return Ok(
            SchemaNode::Primitive {
                name,
                primitive_type: PrimitiveType::FixedLenByteArray(16),
                nullable,
                format: clone_opt_string(&h.format),
            },
        );
    }
    let timezone: Option<String> = match h.has_timezone {
        Some(b) => if b {
            Some("UTC".to_owned())
        } else {
            None
        },
        None => if h.timezone_present {
            Some("UTC".to_owned())
        } else {
            None
        },
    };
    match RubySchemaBuilder.parse_primitive_type(t.as_str(), h.precision, h.scale, timezone) {
        Ok(p) => Ok(
            SchemaNode::Primitive { name, primitive_type: p, nullable, format: clone_opt_string(&h.format) },
        ),
        Err(e) => Err(e),
    }
}

impl RubySchemaBuilder {
/// The node that the definition Hash `h` gives for the name `name`:
/// `struct`, `list` and `map` by their entries, type strings with `<` as
/// complex types, anything else as a primitive type.
pub fn parse_hash_schema_node(&self, name: String, h: &SchemaHash) -> (r: Result<SchemaNode, RubyAdapterError>)
    ensures
        node_result_view(r) == hash_def_spec(name@, *h),
    decreases h, 0nat,
{
    let t = match &h.type_text {
        Fetched::Failed(e) => {
            return Err(prefixed_schema_err("Schema missing 'type' field: ", e));
        },
        Fetched::Found(Err(e)) => {
            return Err(ruby_err(e));
        },
        Fetched::Found(Ok(t)) => t,
    };
    let nullable = match h.nullable {
        Some(b) => b,
        None => true,
    };
    if crate::text::str_eq(t.as_str(), "struct") {
        match &h.fields {
            Fetched::Failed(e) => Err(prefixed_schema_err("Struct missing 'fields': ", e)),
            Fetched::Found(fs) => match parse_field_definitions(fs, "Invalid field definition: ") {
                Ok(nodes) => Ok(SchemaNode::Struct { name, nullable, fields: nodes }),
                Err(e) => Err(e),
            },
        }
    } else if crate::text::str_eq(t.as_str(), "list") {
        match &h.item {
            Fetched::Failed(e) => Err(prefixed_schema_err("List missing 'item': ", e)),
            Fetched::Found(item) => {
                let item_name = lit_plus_str("", name.as_str());
                let mut item_name = item_name;
                crate::text::push_str(&mut item_name, "_item");
                proof {
                    reveal_strlit("");
                    assert(item_name@ =~= name@ + "_item"@);
                }
                match RubySchemaBuilder.parse_schema_node(item_name, item) {
                    Ok(it) => Ok(SchemaNode::List { name, nullable, item: Box::new(it) }),
                    Err(e) => Err(e),
                }
            },
        }
    } else if crate::text::str_eq(t.as_str(), "map") {
        let key = match &h.key {
            Fetched::Failed(e) => {
                return Err(prefixed_schema_err("Map missing 'key': ", e));
            },
            Fetched::Found(key) => match RubySchemaBuilder.parse_schema_node("key".to_owned(), key) {
                Ok(k) => into_required(k),
                Err(e) => {
                    return Err(e);
                },
            },
        };
        match &h.value {
            Fetched::Failed(e) => Err(prefixed_schema_err("Map missing 'value': ", e)),
            Fetched::Found(value) => match RubySchemaBuilder.parse_schema_node("value".to_owned(), value) {
                Ok(v) => Ok(SchemaNode::MapNode { name, nullable, key: Box::new(key), value: Box::new(v) }),
                Err(e) => Err(e),
            },
        }
    } else {
        let cs = chars_of(t.as_str());
        if contains_char(&cs, '<') {
            complex_type(name, &cs, nullable)
        } else {
            primitive_of_hash(name, t, h, nullable)
        }
    }
}
}

impl RubySchemaBuilder {
/// The node of a field definition, named by its `name` entry; the field
/// must have a `type` entry.
pub fn parse_field_definition(&self, name: &Fetched<String>, def: &SchemaHash) -> (r: Result<SchemaNode, RubyAdapterError>)
    ensures
        node_result_view(r) == named_field_spec(*name, *def),
    decreases def, 1nat,
{
    match name {
        Fetched::Failed(e) => Err(prefixed_schema_err("Field missing 'name': ", e)),
        Fetched::Found(n) => match &def.type_text {
            Fetched::Failed(_) => {
                let mut m = lit_plus_str("Field '", n.as_str());
                crate::text::push_str(&mut m, "' missing 'type' definition");
                Err(RubyAdapterError::InvalidInput(m))
            },
            Fetched::Found(_) => RubySchemaBuilder.parse_hash_schema_node(clone_string(n), def),
        },
    }
}
}

pub proof fn lemma_nodes_view_push(s: Seq<SchemaNode>, n: SchemaNode)
    ensures
        nodes_view(s.push(n)) == nodes_view(s).push(node_view(n)),
{
    assert(s.push(n).drop_last() =~= s);
}

proof fn lemma_defs_error_prefix(fs: Seq<FieldDef>, k: int, not_hash: Seq<char>)
    requires
        0 <= k <= fs.len(),
        field_defs_spec(fs.take(k), not_hash) is Err,
    ensures
        field_defs_spec(fs, not_hash) == field_defs_spec(fs.take(k), not_hash),
    decreases fs.len() - k,
{
    if k == fs.len() {
        assert(fs.take(k) =~= fs);
    } else {
        assert(fs.drop_last().take(k) =~= fs.take(k));
        lemma_defs_error_prefix(fs.drop_last(), k, not_hash);
    }
}

/// The nodes of the field definitions `fs`, or the first error among them.
fn parse_field_definitions(fs: &Vec<FieldDef>, not_hash: &str) -> (r: Result<Vec<SchemaNode>, RubyAdapterError>)
    ensures
        match r {
            Ok(nodes) => field_defs_spec(fs@, not_hash@) == Ok::<Seq<NodeView>, ErrorView>(nodes_view(nodes@)),
            Err(e) => field_defs_spec(fs@, not_hash@) == Err::<Seq<NodeView>, ErrorView>(e@),
        },
    decreases fs, 0nat,
{
    let mut nodes: Vec<SchemaNode> = Vec::new();
    let n = fs.len();
    let mut i: usize = 0;
    proof {
        assert(fs@.take(0) =~= Seq::<FieldDef>::empty());
        assert(nodes_view(nodes@) =~= Seq::<NodeView>::empty());
    }
    while i < n
        invariant
            n == fs@.len(),
            i <= n,
            field_defs_spec(fs@.take(i as int), not_hash@) == Ok::<Seq<NodeView>, ErrorView>(nodes_view(nodes@)),
        decreases n - i,
    {
        proof {
            assert(fs@.take(i + 1).drop_last() =~= fs@.take(i as int));
            assert(fs@.take(i + 1).last() == fs@[i as int]);
        }
        let node = match &fs[i] {
            FieldDef::NotHash(e) => {
                proof {
                    lemma_defs_error_prefix(fs@, i + 1, not_hash@);
                }
                return Err(prefixed_schema_err(not_hash, e));
            },
            FieldDef::Hash { name, def } => match RubySchemaBuilder.parse_field_definition(name, def) {
                Ok(node) => node,
                Err(e) => {
                    proof {
                        lemma_defs_error_prefix(fs@, i + 1, not_hash@);
                    }
                    return Err(e);
                },
            },
        };
        proof {
            lemma_nodes_view_push(nodes@, node);
        }
        nodes.push(node);
        i = i + 1;
    }
    proof {
        assert(fs@.take(n as int) =~= fs@);
    }
    Ok(nodes)
}

/// The names of nodes.
pub open spec fn view_names(nodes: Seq<NodeView>) -> Seq<Seq<char>> {
    Seq::new(nodes.len(), |i: int| view_name(nodes[i]))
}

/// The text `{:?}` gives for a list of strings.
pub uninterp spec fn debug_text_list(names: Seq<Seq<char>>) -> Seq<char>;

/// The texts of strings.
pub open spec fn string_texts(v: Seq<String>) -> Seq<Seq<char>> {
    Seq::new(v.len(), |i: int| v[i]@)
}

/// `format!("{:?}", names)`: the list written with Rust's `Debug` format.
#[verifier::external_body]
fn debug_names(names: &Vec<String>) -> (r: String)
    ensures
        r@ == debug_text_list(string_texts(names@)),
{
    format!("{:?}", names)
}

/// The root node that a top-level definition gives: a full definition when
/// the Hash has a `type` key, else a required struct `root` of the
/// definitions in its `fields` array, whose names must differ.
pub open spec fn root_spec(d: RootDef) -> Result<NodeView, ErrorView> {
    match d {
        RootDef::NotHash(e) => Err(schema_error("Schema must be a hash: "@ + e@)),
        RootDef::Hash { has_type, def } => if has_type {
            hash_def_spec("root"@, def)
        } else {
            match def.fields {
                Fetched::Failed(_) => Err(ErrorView::InvalidInput("Schema must have 'type' or 'fields' key"@)),
                Fetched::Found(fs) => match field_defs_spec(fs@, "Invalid field: "@) {
                    Err(e) => Err(e),
                    Ok(nodes) => if !view_names(nodes).no_duplicates() {
                        Err(
                            ErrorView::InvalidInput(
                                "Duplicate field names in root level schema: "@ + debug_text_list(view_names(nodes)),
                            ),
                        )
                    } else {
                        Ok(NodeView::Struct { name: "root"@, nullable: false, fields: nodes })
                    },
                },
            }
        },
    }
}

/// The name of a node.
pub fn node_name(n: &SchemaNode) -> (r: &String)
    ensures
        r@ == view_name(node_view(*n)),
{
    match n {
        SchemaNode::Struct { name, .. } => name,
        SchemaNode::List { name, .. } => name,
        SchemaNode::MapNode { name, .. } => name,
        SchemaNode::Primitive { name, .. } => name,
    }
}

pub proof fn lemma_nodes_view_index(s: Seq<SchemaNode>, i: int)
    requires
        0 <= i < s.len(),
    ensures
        nodes_view(s).len() == s.len(),
        nodes_view(s)[i] == node_view(s[i]),
    decreases s.len(),
{
    lemma_nodes_view_len(s);
    if i < s.len() - 1 {
        lemma_nodes_view_index(s.drop_last(), i);
    }
}

pub proof fn lemma_nodes_view_len(s: Seq<SchemaNode>)
    ensures
        nodes_view(s).len() == s.len(),
    decreases s.len(),
{
    if s.len() > 0 {
        lemma_nodes_view_len(s.drop_last());
    }
}

/// The root node of a top-level schema definition (the core builds the
/// schema from it).
pub fn ruby_schema_to_parquet(d: &RootDef) -> (r: Result<SchemaNode, RubyAdapterError>)
    ensures
        node_result_view(r) == root_spec(*d),
{
    match d {
        RootDef::NotHash(e) => Err(prefixed_schema_err("Schema must be a hash: ", e)),
        RootDef::Hash { has_type, def } => {
            if *has_type {
                return RubySchemaBuilder.parse_hash_schema_node("root".to_owned(), def);
            }
            match &def.fields {
                Fetched::Failed(_) => Err(
                    RubyAdapterError::InvalidInput("Schema must have 'type' or 'fields' key".to_owned()),
                ),
                Fetched::Found(fs) => {
                    let nodes = match parse_field_definitions(fs, "Invalid field: ") {
                        Ok(nodes) => nodes,
                        Err(e) => {
                            return Err(e);
                        },
                    };
                    let ghost nv = nodes_view(nodes@);
                    let mut names: Vec<String> = Vec::new();
                    let n = nodes.len();
                    let mut i: usize = 0;
                    proof {
                        lemma_nodes_view_len(nodes@);
                    }
                    while i < n
                        invariant
                            n == nodes@.len(),
                            nv == nodes_view(nodes@),
                            nv.len() == n,
                            i <= n,
                            names@.len() == i,
                            forall|j: int| 0 <= j < i ==> #[trigger] names@[j]@ == view_name(nv[j]),
                        decreases n - i,
                    {
                        proof {
                            lemma_nodes_view_index(nodes@, i as int);
                        }
                        names.push(clone_string(node_name(&nodes[i])));
                        i = i + 1;
                    }
                    proof {
                        assert(string_texts(names@) =~= view_names(nv));
                    }
                    if has_duplicate_name(&names) {
                        let mut m = "Duplicate field names in root level schema: ".to_owned();
                        let listed = debug_names(&names);
                        crate::text::push_str(&mut m, listed.as_str());
                        return Err(RubyAdapterError::InvalidInput(m));
                    }
                    Ok(SchemaNode::Struct { name: "root".to_owned(), nullable: false, fields: nodes })
                },
            }
        },
    }
}

/// Whether two of `names` are equal.
fn has_duplicate_name(names: &Vec<String>) -> (r: bool)
    ensures
        r == !string_texts(names@).no_duplicates(),
{
    let ghost ts = string_texts(names@);
    let n = names.len();
    let mut i: usize = 0;
    while i < n
        invariant
            n == names@.len(),
            ts == string_texts(names@),
            i <= n,
            forall|a: int, b: int| 0 <= a < i && 0 <= b < n && a != b ==> ts[a] != ts[b],
        decreases n - i,
    {
        let mut j: usize = 0;
        while j < n
            invariant
                n == names@.len(),
                ts == string_texts(names@),
                i < n,
                j <= n,
                forall|b: int| 0 <= b < j && b != i ==> ts[i as int] != ts[b],
            decreases n - j,
        {
            if j != i && crate::text::str_eq(names[i].as_str(), names[j].as_str()) {
                assert(ts[i as int] == ts[j as int]);
                return true;
            }
            j = j + 1;
        }
        i = i + 1;
    }
    assert(ts.no_duplicates()) by {
        assert forall|a: int, b: int| 0 <= a < ts.len() && 0 <= b < ts.len() && a != b
            implies ts[a] != ts[b] by {}
    }
    false
}

fn clone_primitive(p: &PrimitiveType) -> (r: PrimitiveType)
    ensures
        r@ == p@,
{
    match p {
        PrimitiveType::Boolean => PrimitiveType::Boolean,
        PrimitiveType::Int8 => PrimitiveType::Int8,
        PrimitiveType::Int16 => PrimitiveType::Int16,
        PrimitiveType::Int32 => PrimitiveType::Int32,
        PrimitiveType::Int64 => PrimitiveType::Int64,
        PrimitiveType::UInt8 => PrimitiveType::UInt8,
        PrimitiveType::UInt16 => PrimitiveType::UInt16,
        PrimitiveType::UInt32 => PrimitiveType::UInt32,
        PrimitiveType::UInt64 => PrimitiveType::UInt64,
        PrimitiveType::Float32 => PrimitiveType::Float32,
        PrimitiveType::Float64 => PrimitiveType::Float64,
        PrimitiveType::String => PrimitiveType::String,
        PrimitiveType::Binary => PrimitiveType::Binary,
        PrimitiveType::Date32 => PrimitiveType::Date32,
        PrimitiveType::Date64 => PrimitiveType::Date64,
        PrimitiveType::TimeMillis => PrimitiveType::TimeMillis,
        PrimitiveType::TimeMicros => PrimitiveType::TimeMicros,
        PrimitiveType::TimeNanos => PrimitiveType::TimeNanos,
        PrimitiveType::TimestampSecond(tz) => PrimitiveType::TimestampSecond(clone_opt_string(tz)),
        PrimitiveType::TimestampMillis(tz) => PrimitiveType::TimestampMillis(clone_opt_string(tz)),
        PrimitiveType::TimestampMicros(tz) => PrimitiveType::TimestampMicros(clone_opt_string(tz)),
        PrimitiveType::TimestampNanos(tz) => PrimitiveType::TimestampNanos(clone_opt_string(tz)),
        PrimitiveType::Decimal128(a, b) => PrimitiveType::Decimal128(*a, *b),
        PrimitiveType::Decimal256(a, b) => PrimitiveType::Decimal256(*a, *b),
        PrimitiveType::FixedLenByteArray(l) => PrimitiveType::FixedLenByteArray(*l),
    }
}

/// A copy of a node.
pub fn clone_node(n: &SchemaNode) -> (r: SchemaNode)
    ensures
        node_view(r) == node_view(*n),
    decreases n, 0nat,
{
    match n {
        SchemaNode::Struct { name, nullable, fields } => SchemaNode::Struct {
            name: clone_string(name),
            nullable: *nullable,
            fields: clone_nodes(fields),
        },
        SchemaNode::List { name, nullable, item } => SchemaNode::List {
            name: clone_string(name),
            nullable: *nullable,
            item: Box::new(clone_node(item)),
        },
        SchemaNode::MapNode { name, nullable, key, value } => SchemaNode::MapNode {
            name: clone_string(name),
            nullable: *nullable,
            key: Box::new(clone_node(key)),
            value: Box::new(clone_node(value)),
        },
        SchemaNode::Primitive { name, primitive_type, nullable, format } => SchemaNode::Primitive {
            name: clone_string(name),
            primitive_type: clone_primitive(primitive_type),
            nullable: *nullable,
            format: clone_opt_string(format),
        },
    }
}

/// A copy of a sequence of nodes.
pub fn clone_nodes(v: &Vec<SchemaNode>) -> (r: Vec<SchemaNode>)
    ensures
        nodes_view(r@) == nodes_view(v@),
    decreases v, 0nat,
{
    let mut out: Vec<SchemaNode> = Vec::new();
    let n = v.len();
    let mut i: usize = 0;
    proof {
        assert(out@ =~= v@.take(0));
    }
    while i < n
        invariant
            n == v@.len(),
            i <= n,
            nodes_view(out@) == nodes_view(v@.take(i as int)),
        decreases n - i,
    {
        let c = clone_node(&v[i]);
        proof {
            lemma_nodes_view_push(out@, c);
            assert(v@.take(i + 1).drop_last() =~= v@.take(i as int));
            assert(v@.take(i + 1).last() == v@[i as int]);
        }
        out.push(c);
        i = i + 1;
    }
    proof {
        assert(v@.take(n as int) =~= v@);
    }
    out
}

/// The field nodes of a struct root, or none for any other root.
pub fn extract_field_schemas(root: &SchemaNode) -> (r: Vec<SchemaNode>)
    ensures
        nodes_view(r@) == match node_view(*root) {
            NodeView::Struct { fields, .. } => fields,
            _ => Seq::empty(),
        },
{
    match root {
        SchemaNode::Struct { fields, .. } => clone_nodes(fields),
        _ => {
            let r: Vec<SchemaNode> = Vec::new();
            proof {
                assert(nodes_view(r@) =~= Seq::<NodeView>::empty());
            }
            r
        },
    }
}

} // verus!
