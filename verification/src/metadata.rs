//! The metadata of a Parquet file as the Ruby hash that `Parquet.metadata`
//! returns.
//!
//! The metadata types here hold what the hash shows of the file footer; the
//! names of the footer's enumerations (physical types, repetitions,
//! codecs, encodings, page types) come as their `Debug` text.

use crate::rvalue::{entry_index, hash_get, push_entry, push_item, rpairs, rvs, string_value, RValue, RView};
use vstd::prelude::*;

verus! {

broadcast use vstd::string::group_string_axioms;

/// The unit of a time or timestamp logical type.
#[derive(Clone, Copy, Debug, PartialEq, Eq, Structural)]
pub enum TimeUnit {
    Millis,
    Micros,
    Nanos,
}

/// The name of a time unit.
pub open spec fn time_unit_text(u: TimeUnit) -> Seq<char> {
    match u {
        TimeUnit::Millis => "millis"@,
        TimeUnit::Micros => "micros"@,
        TimeUnit::Nanos => "nanos"@,
    }
}

/// The name of a time unit: `millis`, `micros` or `nanos`.
pub fn parquet_time_unit_name(unit: &TimeUnit) -> (r: &'static str)
    ensures
        r@ == time_unit_text(*unit),
{
    match unit {
        TimeUnit::Millis => "millis",
        TimeUnit::Micros => "micros",
        TimeUnit::Nanos => "nanos",
    }
}

/// The logical type of a column.
#[derive(Debug)]
pub enum LogicalTypeMeta {
    Decimal { scale: i32, precision: i32 },
    Time { is_adjusted_to_utc: bool, unit: TimeUnit },
    Timestamp { is_adjusted_to_utc: bool, unit: TimeUnit },
    Integer { bit_width: i8, is_signed: bool },
    /// Any other logical type, by its `Debug` text.
    Other(String),
}

/// Whether a schema field is a leaf or a group.
#[derive(Debug)]
pub enum FieldKind {
    Primitive { physical_type: String, type_length: i32, scale: i32, precision: i32 },
    Group,
}

/// A top-level field of the file schema.
#[derive(Debug)]
pub struct FieldMeta {
    pub name: String,
    pub kind: FieldKind,
    pub repetition: String,
    pub converted_type: String,
    pub logical_type: Option<LogicalTypeMeta>,
}

/// A key/value pair of the file's metadata.
#[derive(Debug)]
pub struct KeyValueMeta {
    pub key: String,
    pub value: Option<String>,
}

/// How many pages of a type use an encoding.
#[derive(Debug)]
pub struct PageEncodingStat {
    pub page_type: String,
    pub encoding: String,
    pub count: i32,
}

/// Whether a column chunk's minimum and maximum are exact.
#[derive(Debug)]
pub struct ColumnStatsMeta {
    pub min_is_exact: bool,
    pub max_is_exact: bool,
}

/// A column chunk of a row group.
#[derive(Debug)]
pub struct ColumnChunkMeta {
    pub column_path: String,
    pub file_path: Option<String>,
    pub file_offset: i64,
    pub num_values: i64,
    pub compression: String,
    pub total_compressed_size: i64,
    pub total_uncompressed_size: i64,
    pub data_page_offset: i64,
    pub dictionary_page_offset: Option<i64>,
    pub bloom_filter_offset: Option<i64>,
    pub bloom_filter_length: Option<i32>,
    pub offset_index_offset: Option<i64>,
    pub offset_index_length: Option<i32>,
    pub column_index_offset: Option<i64>,
    pub column_index_length: Option<i32>,
    pub encodings: Vec<String>,
    pub statistics: Option<ColumnStatsMeta>,
    pub page_encoding_stats: Option<Vec<PageEncodingStat>>,
}

/// A row group with its column chunks.
#[derive(Debug)]
pub struct RowGroupMeta {
    pub num_rows: i64,
    pub total_byte_size: i64,
    pub file_offset: Option<i64>,
    pub ordinal: Option<i16>,
    pub compressed_size: i64,
    pub columns: Vec<ColumnChunkMeta>,
}

/// The footer of a Parquet file.
#[derive(Debug)]
pub struct FileMeta {
    pub num_rows: i64,
    pub created_by: Option<String>,
    pub key_value_metadata: Option<Vec<KeyValueMeta>>,
    pub schema_name: String,
    pub fields: Vec<FieldMeta>,
    pub row_groups: Vec<RowGroupMeta>,
}

/// The metadata of a Parquet file, to be shown to Ruby.
#[derive(Debug)]
pub struct RubyParquetMetaData(pub FileMeta);

/// A string key.
pub open spec fn k(t: Seq<char>) -> RView {
    RView::Str(t)
}

/// A string, or nil.
pub open spec fn opt_str(o: Option<String>) -> RView {
    match o {
        Some(s) => RView::Str(s@),
        None => RView::Nil,
    }
}

/// The entry `key => value` when the value is present.
pub open spec fn opt_int_entry(key: Seq<char>, o: Option<int>) -> Seq<(RView, RView)> {
    match o {
        Some(v) => seq![(k(key), RView::Integer(v))],
        None => Seq::empty(),
    }
}

pub open spec fn opt_i64(o: Option<i64>) -> Option<int> {
    match o {
        Some(v) => Some(v as int),
        None => None,
    }
}

pub open spec fn opt_i32(o: Option<i32>) -> Option<int> {
    match o {
        Some(v) => Some(v as int),
        None => None,
    }
}

/// The hash of a logical type.
pub open spec fn logical_value(l: LogicalTypeMeta) -> RView {
    match l {
        LogicalTypeMeta::Decimal { scale, precision } => RView::Hash(
            seq![
                (k("type"@), k("Decimal"@)),
                (k("scale"@), RView::Integer(scale as int)),
                (k("precision"@), RView::Integer(precision as int)),
            ],
        ),
        LogicalTypeMeta::Time { is_adjusted_to_utc, unit } => RView::Hash(
            seq![
                (k("type"@), k("Time"@)),
                (k("is_adjusted_to_utc"@), k(if is_adjusted_to_utc { "true"@ } else { "false"@ })),
                (k("unit"@), k(time_unit_text(unit))),
            ],
        ),
        LogicalTypeMeta::Timestamp { is_adjusted_to_utc, unit } => RView::Hash(
            seq![
                (k("type"@), k("Timestamp"@)),
                (k("is_adjusted_to_utc"@), RView::Bool(is_adjusted_to_utc)),
                (k("unit"@), k(time_unit_text(unit))),
            ],
        ),
        LogicalTypeMeta::Integer { bit_width, is_signed } => RView::Hash(
            seq![
                (k("type"@), k("Integer"@)),
                (k("bit_width"@), RView::Integer(bit_width as int)),
                (k("is_signed"@), k(if is_signed { "true"@ } else { "false"@ })),
            ],
        ),
        LogicalTypeMeta::Other(t) => RView::Hash(seq![(k("type"@), k(t@))]),
    }
}

/// The hash of a logical type holds each of its fields under the field's
/// own name: a decimal's `"scale"` is its scale and its `"precision"` its
/// precision, an integer's `"bit_width"` its bit width and `"is_signed"`
/// its sign flag (as text), a time's and a timestamp's
/// `"is_adjusted_to_utc"` its flag (as text for a time, as a boolean for a
/// timestamp), each under `"type"` of its kind.
pub proof fn law_logical_type_fields(scale: i32, precision: i32, bit_width: i8, is_signed: bool, utc: bool, unit: TimeUnit)
    ensures
        logical_value(LogicalTypeMeta::Decimal { scale, precision }) matches RView::Hash(h) && hash_get(
            h,
            RView::Str("type"@),
        ) == Some(RView::Str("Decimal"@)) && hash_get(h, RView::Str("scale"@)) == Some(
            RView::Integer(scale as int),
        ) && hash_get(h, RView::Str("precision"@)) == Some(RView::Integer(precision as int)),
        logical_value(LogicalTypeMeta::Integer { bit_width, is_signed }) matches RView::Hash(h) && hash_get(
            h,
            RView::Str("type"@),
        ) == Some(RView::Str("Integer"@)) && hash_get(h, RView::Str("bit_width"@)) == Some(
            RView::Integer(bit_width as int),
        ),
        logical_value(LogicalTypeMeta::Integer { bit_width, is_signed }) matches RView::Hash(h) && hash_get(
            h,
            RView::Str("is_signed"@),
        ) == Some(RView::Str(if is_signed { "true"@ } else { "false"@ })),
        logical_value(LogicalTypeMeta::Time { is_adjusted_to_utc: utc, unit }) matches RView::Hash(h)
            && hash_get(h, RView::Str("type"@)) == Some(RView::Str("Time"@)) && hash_get(
            h,
            RView::Str("is_adjusted_to_utc"@),
        ) == Some(RView::Str(if utc { "true"@ } else { "false"@ })),
        logical_value(LogicalTypeMeta::Timestamp { is_adjusted_to_utc: utc, unit }) matches RView::Hash(h)
            && hash_get(h, RView::Str("type"@)) == Some(RView::Str("Timestamp"@)) && hash_get(
            h,
            RView::Str("is_adjusted_to_utc"@),
        ) == Some(RView::Bool(utc)),
{
    reveal_strlit("type");
    reveal_strlit("scale");
    reveal_strlit("precision");
    reveal_strlit("bit_width");
    reveal_strlit("is_signed");
    reveal_strlit("is_adjusted_to_utc");
    reveal_strlit("unit");
    assert("type"@.len() != "scale"@.len());
    assert("type"@.len() != "precision"@.len());
    assert("scale"@.len() != "precision"@.len());
    assert("type"@.len() != "bit_width"@.len());
    assert("type"@.len() != "is_signed"@.len());
    assert("bit_width"@[0] != "is_signed"@[0]);
    assert("type"@.len() != "is_adjusted_to_utc"@.len());
    assert("type"@[0] != "unit"@[0]);
    assert("is_adjusted_to_utc"@.len() != "unit"@.len());
    reveal_with_fuel(entry_index, 4);
}

/// The entries of a field's kind.
pub open spec fn kind_entries(kind: FieldKind) -> Seq<(RView, RView)> {
    match kind {
        FieldKind::Primitive { physical_type, type_length, scale, precision } => seq![
            (k("type"@), k("primitive"@)),
            (k("physical_type"@), k(physical_type@)),
            (k("type_length"@), RView::Integer(type_length as int)),
            (k("scale"@), RView::Integer(scale as int)),
            (k("precision"@), RView::Integer(precision as int)),
        ],
        FieldKind::Group => seq![(k("type"@), k("group"@))],
    }
}

/// The hash of a schema field.
pub open spec fn field_value(f: FieldMeta) -> RView {
    RView::Hash(
        seq![(k("name"@), k(f.name@))] + kind_entries(f.kind) + seq![
            (k("repetition"@), k(f.repetition@)),
            (k("converted_type"@), k(f.converted_type@)),
        ] + match f.logical_type {
            Some(l) => seq![(k("logical_type"@), logical_value(l))],
            None => Seq::<(RView, RView)>::empty(),
        },
    )
}

/// The hash of a key/value pair.
pub open spec fn key_value_value(kv: KeyValueMeta) -> RView {
    RView::Hash(seq![(k("key"@), k(kv.key@)), (k("value"@), opt_str(kv.value))])
}

/// The hash of a page encoding count.
pub open spec fn page_stat_value(p: PageEncodingStat) -> RView {
    RView::Hash(
        seq![
            (k("page_type"@), k(p.page_type@)),
            (k("encoding"@), k(p.encoding@)),
            (k("count"@), RView::Integer(p.count as int)),
        ],
    )
}

/// The entries every column chunk hash starts with.
pub open spec fn column_head(c: ColumnChunkMeta) -> Seq<(RView, RView)> {
    seq![
        (k("column_path"@), k(c.column_path@)),
        (k("file_path"@), opt_str(c.file_path)),
        (k("file_offset"@), RView::Integer(c.file_offset as int)),
        (k("num_values"@), RView::Integer(c.num_values as int)),
        (k("compression"@), k(c.compression@)),
        (k("total_compressed_size"@), RView::Integer(c.total_compressed_size as int)),
        (k("total_uncompressed_size"@), RView::Integer(c.total_uncompressed_size as int)),
        (k("data_page_offset"@), RView::Integer(c.data_page_offset as int)),
    ]
}

/// The index entries of a column chunk that are present.
pub open spec fn column_offsets(c: ColumnChunkMeta) -> Seq<(RView, RView)> {
    opt_int_entry("dictionary_page_offset"@, opt_i64(c.dictionary_page_offset)) + opt_int_entry(
        "bloom_filter_offset"@,
        opt_i64(c.bloom_filter_offset),
    ) + opt_int_entry("bloom_filter_length"@, opt_i32(c.bloom_filter_length)) + opt_int_entry(
        "offset_index_offset"@,
        opt_i64(c.offset_index_offset),
    ) + opt_int_entry("offset_index_length"@, opt_i32(c.offset_index_length)) + opt_int_entry(
        "column_index_offset"@,
        opt_i64(c.column_index_offset),
    ) + opt_int_entry("column_index_length"@, opt_i32(c.column_index_length))
}

/// The texts of a sequence of strings as Ruby strings.
pub open spec fn str_values(v: Seq<String>) -> Seq<RView> {
    Seq::new(v.len(), |i: int| k(v[i]@))
}

/// The `statistics` entry of a column chunk, when it has statistics.
pub open spec fn stats_entries(c: ColumnChunkMeta) -> Seq<(RView, RView)> {
    match c.statistics {
        Some(st) => seq![
            (
                k("statistics"@),
                RView::Hash(
                    seq![
                        (k("min_is_exact"@), RView::Bool(st.min_is_exact)),
                        (k("max_is_exact"@), RView::Bool(st.max_is_exact)),
                    ],
                ),
            ),
        ],
        None => Seq::<(RView, RView)>::empty(),
    }
}

/// The `page_encoding_stats` entry of a column chunk, when it has them.
pub open spec fn page_stats_entries(c: ColumnChunkMeta) -> Seq<(RView, RView)> {
    match c.page_encoding_stats {
        Some(ps) => seq![
            (k("page_encoding_stats"@), RView::Array(Seq::new(ps@.len(), |i: int| page_stat_value(ps@[i])))),
        ],
        None => Seq::<(RView, RView)>::empty(),
    }
}

/// The entries of a column chunk after its offsets.
pub open spec fn column_tail(c: ColumnChunkMeta) -> Seq<(RView, RView)> {
    seq![(k("encodings"@), RView::Array(str_values(c.encodings@)))] + stats_entries(c) + page_stats_entries(c)
}

/// The hash of a column chunk.
pub open spec fn column_value(c: ColumnChunkMeta) -> RView {
    RView::Hash(column_head(c) + column_offsets(c) + column_tail(c))
}

/// An optional integer, or nil.
pub open spec fn opt_int_value(o: Option<int>) -> RView {
    match o {
        Some(v) => RView::Integer(v),
        None => RView::Nil,
    }
}

/// The hash of a row group.
pub open spec fn row_group_value(g: RowGroupMeta) -> RView {
    RView::Hash(
        seq![
            (k("num_columns"@), RView::Integer(g.columns@.len() as int)),
            (k("num_rows"@), RView::Integer(g.num_rows as int)),
            (k("total_byte_size"@), RView::Integer(g.total_byte_size as int)),
            (k("file_offset"@), opt_int_value(opt_i64(g.file_offset))),
            (
                k("ordinal"@),
                opt_int_value(
                    match g.ordinal {
                        Some(o) => Some(o as int),
                        None => None,
                    },
                ),
            ),
            (k("compressed_size"@), RView::Integer(g.compressed_size as int)),
            (k("columns"@), RView::Array(Seq::new(g.columns@.len(), |i: int| column_value(g.columns@[i])))),
        ],
    )
}

/// The hash `Parquet.metadata` returns for a file.
pub open spec fn metadata_value(m: FileMeta) -> RView {
    RView::Hash(
        seq![
            (k("num_rows"@), RView::Integer(m.num_rows as int)),
            (k("created_by"@), opt_str(m.created_by)),
            (
                k("key_value_metadata"@),
                match m.key_value_metadata {
                    Some(kvs) => RView::Array(Seq::new(kvs@.len(), |i: int| key_value_value(kvs@[i]))),
                    None => RView::Nil,
                },
            ),
            (k("schema"@), schema_value(m)),
            (
                k("row_groups"@),
                RView::Array(Seq::new(m.row_groups@.len(), |i: int| row_group_value(m.row_groups@[i]))),
            ),
        ],
    )
}

fn key(t: &str) -> (r: RValue)
    ensures
        r@ == k(t@),
{
    string_value(t)
}

fn opt_string_value(o: &Option<String>) -> (r: RValue)
    ensures
        r@ == opt_str(*o),
{
    match o {
        Some(s) => RValue::Str(s.clone()),
        None => RValue::Nil,
    }
}

fn bool_text(b: bool) -> (r: RValue)
    ensures
        r@ == k(if b { "true"@ } else { "false"@ }),
{
    if b {
        key("true")
    } else {
        key("false")
    }
}

fn empty_pairs() -> (r: Vec<(RValue, RValue)>)
    ensures
        rpairs(r@) == Seq::<(RView, RView)>::empty(),
{
    let v: Vec<(RValue, RValue)> = Vec::new();
    proof {
        assert(rpairs(v@) =~= Seq::<(RView, RView)>::empty());
    }
    v
}

fn logical_to_value(l: &LogicalTypeMeta) -> (r: RValue)
    ensures
        r@ == logical_value(*l),
{
    let mut h = empty_pairs();
    match l {
        LogicalTypeMeta::Decimal { scale, precision } => {
            push_entry(&mut h, key("type"), key("Decimal"));
            push_entry(&mut h, key("scale"), RValue::Integer(*scale as i128));
            push_entry(&mut h, key("precision"), RValue::Integer(*precision as i128));
        },
        LogicalTypeMeta::Time { is_adjusted_to_utc, unit } => {
            push_entry(&mut h, key("type"), key("Time"));
            push_entry(&mut h, key("is_adjusted_to_utc"), bool_text(*is_adjusted_to_utc));
            push_entry(&mut h, key("unit"), key(parquet_time_unit_name(unit)));
        },
        LogicalTypeMeta::Timestamp { is_adjusted_to_utc, unit } => {
            push_entry(&mut h, key("type"), key("Timestamp"));
            push_entry(&mut h, key("is_adjusted_to_utc"), RValue::Bool(*is_adjusted_to_utc));
            push_entry(&mut h, key("unit"), key(parquet_time_unit_name(unit)));
        },
        LogicalTypeMeta::Integer { bit_width, is_signed } => {
            push_entry(&mut h, key("type"), key("Integer"));
            push_entry(&mut h, key("bit_width"), RValue::Integer(*bit_width as i128));
            push_entry(&mut h, key("is_signed"), bool_text(*is_signed));
        },
        LogicalTypeMeta::Other(t) => {
            push_entry(&mut h, key("type"), key(t.as_str()));
        },
    }
    proof {
        assert(rpairs(h@) =~= match logical_value(*l) {
            RView::Hash(ps) => ps,
            _ => Seq::empty(),
        });
    }
    RValue::Hash(h)
}

fn field_to_value(f: &FieldMeta) -> (r: RValue)
    ensures
        r@ == field_value(*f),
{
    let mut h = empty_pairs();
    push_entry(&mut h, key("name"), key(f.name.as_str()));
    let ghost a = rpairs(h@);
    match &f.kind {
        FieldKind::Primitive { physical_type, type_length, scale, precision } => {
            push_entry(&mut h, key("type"), key("primitive"));
            push_entry(&mut h, key("physical_type"), key(physical_type.as_str()));
            push_entry(&mut h, key("type_length"), RValue::Integer(*type_length as i128));
            push_entry(&mut h, key("scale"), RValue::Integer(*scale as i128));
            push_entry(&mut h, key("precision"), RValue::Integer(*precision as i128));
        },
        FieldKind::Group => {
            push_entry(&mut h, key("type"), key("group"));
        },
    }
    let ghost b = rpairs(h@);
    proof {
        assert(b =~= a + kind_entries(f.kind));
    }
    push_entry(&mut h, key("repetition"), key(f.repetition.as_str()));
    push_entry(&mut h, key("converted_type"), key(f.converted_type.as_str()));
    let ghost c = rpairs(h@);
    match &f.logical_type {
        Some(l) => {
            push_entry(&mut h, key("logical_type"), logical_to_value(l));
        },
        None => {},
    }
    proof {
        assert(rpairs(h@) =~= match field_value(*f) {
            RView::Hash(ps) => ps,
            _ => Seq::empty(),
        });
    }
    RValue::Hash(h)
}

fn page_stat_to_value(p: &PageEncodingStat) -> (r: RValue)
    ensures
        r@ == page_stat_value(*p),
{
    let mut h = empty_pairs();
    push_entry(&mut h, key("page_type"), key(p.page_type.as_str()));
    push_entry(&mut h, key("encoding"), key(p.encoding.as_str()));
    push_entry(&mut h, key("count"), RValue::Integer(p.count as i128));
    proof {
        assert(rpairs(h@) =~= match page_stat_value(*p) {
            RView::Hash(ps) => ps,
            _ => Seq::empty(),
        });
    }
    RValue::Hash(h)
}

fn push_opt_i64(h: &mut Vec<(RValue, RValue)>, name: &str, o: Option<i64>)
    ensures
        rpairs(final(h)@) == rpairs(old(h)@) + opt_int_entry(name@, opt_i64(o)),
{
    match o {
        Some(v) => {
            push_entry(h, key(name), RValue::Integer(v as i128));
        },
        None => {},
    }
    proof {
        assert(rpairs(h@) =~= rpairs(old(h)@) + opt_int_entry(name@, opt_i64(o)));
    }
}

fn push_opt_i32(h: &mut Vec<(RValue, RValue)>, name: &str, o: Option<i32>)
    ensures
        rpairs(final(h)@) == rpairs(old(h)@) + opt_int_entry(name@, opt_i32(o)),
{
    match o {
        Some(v) => {
            push_entry(h, key(name), RValue::Integer(v as i128));
        },
        None => {},
    }
    proof {
        assert(rpairs(h@) =~= rpairs(old(h)@) + opt_int_entry(name@, opt_i32(o)));
    }
}

fn strings_to_values(v: &Vec<String>) -> (r: Vec<RValue>)
    ensures
        rvs(r@) == str_values(v@),
{
    let mut out: Vec<RValue> = Vec::new();
    let mut i: usize = 0;
    proof {
        assert(rvs(out@) =~= str_values(v@).take(0));
    }
    while i < v.len()
        invariant
            i <= v@.len(),
            rvs(out@) == str_values(v@).take(i as int),
        decreases v.len() - i,
    {
        push_item(&mut out, key(v[i].as_str()));
        proof {
            assert(str_values(v@).take(i + 1) =~= str_values(v@).take(i as int).push(k(v@[i as int]@)));
        }
        i = i + 1;
    }
    proof {
        assert(str_values(v@).take(v@.len() as int) =~= str_values(v@));
    }
    out
}

fn page_stats_to_values(v: &Vec<PageEncodingStat>) -> (r: Vec<RValue>)
    ensures
        rvs(r@) == Seq::new(v@.len(), |i: int| page_stat_value(v@[i])),
{
    let ghost want = Seq::new(v@.len(), |i: int| page_stat_value(v@[i]));
    let mut out: Vec<RValue> = Vec::new();
    let mut i: usize = 0;
    proof {
        assert(rvs(out@) =~= want.take(0));
    }
    while i < v.len()
        invariant
            i <= v@.len(),
            want == Seq::new(v@.len(), |i: int| page_stat_value(v@[i])),
            rvs(out@) == want.take(i as int),
        decreases v.len() - i,
    {
        push_item(&mut out, page_stat_to_value(&v[i]));
        proof {
            assert(want.take(i + 1) =~= want.take(i as int).push(page_stat_value(v@[i as int])));
        }
        i = i + 1;
    }
    proof {
        assert(want.take(v@.len() as int) =~= want);
    }
    out
}

fn push_column_head(h: &mut Vec<(RValue, RValue)>, c: &ColumnChunkMeta)
    ensures
        rpairs(final(h)@) == rpairs(old(h)@) + column_head(*c),
{
    push_entry(h, key("column_path"), key(c.column_path.as_str()));
    push_entry(h, key("file_path"), opt_string_value(&c.file_path));
    push_entry(h, key("file_offset"), RValue::Integer(c.file_offset as i128));
    push_entry(h, key("num_values"), RValue::Integer(c.num_values as i128));
    push_entry(h, key("compression"), key(c.compression.as_str()));
    push_entry(h, key("total_compressed_size"), RValue::Integer(c.total_compressed_size as i128));
    push_entry(h, key("total_uncompressed_size"), RValue::Integer(c.total_uncompressed_size as i128));
    push_entry(h, key("data_page_offset"), RValue::Integer(c.data_page_offset as i128));
    proof {
        assert(rpairs(h@) =~= rpairs(old(h)@) + column_head(*c));
    }
}

fn push_column_offsets(h: &mut Vec<(RValue, RValue)>, c: &ColumnChunkMeta)
    ensures
        rpairs(final(h)@) == rpairs(old(h)@) + column_offsets(*c),
{
    push_opt_i64(h, "dictionary_page_offset", c.dictionary_page_offset);
    push_opt_i64(h, "bloom_filter_offset", c.bloom_filter_offset);
    push_opt_i32(h, "bloom_filter_length", c.bloom_filter_length);
    push_opt_i64(h, "offset_index_offset", c.offset_index_offset);
    push_opt_i32(h, "offset_index_length", c.offset_index_length);
    push_opt_i64(h, "column_index_offset", c.column_index_offset);
    push_opt_i32(h, "column_index_length", c.column_index_length);
    proof {
        assert(rpairs(h@) =~= rpairs(old(h)@) + column_offsets(*c));
    }
}

fn column_to_value(c: &ColumnChunkMeta) -> (r: RValue)
    ensures
        r@ == column_value(*c),
{
    let mut h = empty_pairs();
    push_column_head(&mut h, c);
    push_column_offsets(&mut h, c);
    push_column_tail(&mut h, c);
    proof {
        assert(rpairs(h@) =~= column_head(*c) + column_offsets(*c) + column_tail(*c));
    }
    RValue::Hash(h)
}

fn stats_to_value(st: &ColumnStatsMeta) -> (r: RValue)
    ensures
        r@ == RView::Hash(
            seq![
                (k("min_is_exact"@), RView::Bool(st.min_is_exact)),
                (k("max_is_exact"@), RView::Bool(st.max_is_exact)),
            ],
        ),
{
    let mut sh = empty_pairs();
    push_entry(&mut sh, key("min_is_exact"), RValue::Bool(st.min_is_exact));
    push_entry(&mut sh, key("max_is_exact"), RValue::Bool(st.max_is_exact));
    proof {
        assert(rpairs(sh@) =~= seq![
            (k("min_is_exact"@), RView::Bool(st.min_is_exact)),
            (k("max_is_exact"@), RView::Bool(st.max_is_exact)),
        ]);
    }
    RValue::Hash(sh)
}

fn push_column_tail(h: &mut Vec<(RValue, RValue)>, c: &ColumnChunkMeta)
    ensures
        rpairs(final(h)@) == rpairs(old(h)@) + column_tail(*c),
{
    let enc = strings_to_values(&c.encodings);
    push_entry(h, key("encodings"), RValue::Array(enc));
    let ghost a = rpairs(h@);
    match &c.statistics {
        Some(st) => {
            push_entry(h, key("statistics"), stats_to_value(st));
        },
        None => {},
    }
    let ghost b = rpairs(h@);
    match &c.page_encoding_stats {
        Some(ps) => {
            let arr = page_stats_to_values(ps);
            push_entry(h, key("page_encoding_stats"), RValue::Array(arr));
        },
        None => {},
    }
    proof {
        assert(b =~= a + stats_entries(*c));
        assert(rpairs(h@) =~= b + page_stats_entries(*c));
        assert(rpairs(h@) =~= rpairs(old(h)@) + column_tail(*c));
    }
}

fn columns_to_values(v: &Vec<ColumnChunkMeta>) -> (r: Vec<RValue>)
    ensures
        rvs(r@) == Seq::new(v@.len(), |i: int| column_value(v@[i])),
{
    let ghost want = Seq::new(v@.len(), |i: int| column_value(v@[i]));
    let mut out: Vec<RValue> = Vec::new();
    let mut i: usize = 0;
    proof {
        assert(rvs(out@) =~= want.take(0));
    }
    while i < v.len()
        invariant
            i <= v@.len(),
            want == Seq::new(v@.len(), |i: int| column_value(v@[i])),
            rvs(out@) == want.take(i as int),
        decreases v.len() - i,
    {
        push_item(&mut out, column_to_value(&v[i]));
        proof {
            assert(want.take(i + 1) =~= want.take(i as int).push(column_value(v@[i as int])));
        }
        i = i + 1;
    }
    proof {
        assert(want.take(v@.len() as int) =~= want);
    }
    out
}

fn row_group_to_value(g: &RowGroupMeta) -> (r: RValue)
    ensures
        r@ == row_group_value(*g),
{
    let mut h = empty_pairs();
    push_entry(&mut h, key("num_columns"), RValue::Integer(g.columns.len() as i128));
    push_entry(&mut h, key("num_rows"), RValue::Integer(g.num_rows as i128));
    push_entry(&mut h, key("total_byte_size"), RValue::Integer(g.total_byte_size as i128));
    let fo = match g.file_offset {
        Some(v) => RValue::Integer(v as i128),
        None => RValue::Nil,
    };
    push_entry(&mut h, key("file_offset"), fo);
    let ord = match g.ordinal {
        Some(v) => RValue::Integer(v as i128),
        None => RValue::Nil,
    };
    push_entry(&mut h, key("ordinal"), ord);
    push_entry(&mut h, key("compressed_size"), RValue::Integer(g.compressed_size as i128));
    let cols = columns_to_values(&g.columns);
    push_entry(&mut h, key("columns"), RValue::Array(cols));
    proof {
        assert(rpairs(h@) =~= match row_group_value(*g) {
            RView::Hash(ps) => ps,
            _ => Seq::empty(),
        });
    }
    RValue::Hash(h)
}

fn fields_to_values(v: &Vec<FieldMeta>) -> (r: Vec<RValue>)
    ensures
        rvs(r@) == Seq::new(v@.len(), |i: int| field_value(v@[i])),
{
    let ghost want = Seq::new(v@.len(), |i: int| field_value(v@[i]));
    let mut out: Vec<RValue> = Vec::new();
    let mut i: usize = 0;
    proof {
        assert(rvs(out@) =~= want.take(0));
    }
    while i < v.len()
        invariant
            i <= v@.len(),
            want == Seq::new(v@.len(), |i: int| field_value(v@[i])),
            rvs(out@) == want.take(i as int),
        decreases v.len() - i,
    {
        push_item(&mut out, field_to_value(&v[i]));
        proof {
            assert(want.take(i + 1) =~= want.take(i as int).push(field_value(v@[i as int])));
        }
        i = i + 1;
    }
    proof {
        assert(want.take(v@.len() as int) =~= want);
    }
    out
}

fn key_values_to_values(v: &Vec<KeyValueMeta>) -> (r: Vec<RValue>)
    ensures
        rvs(r@) == Seq::new(v@.len(), |i: int| key_value_value(v@[i])),
{
    let ghost want = Seq::new(v@.len(), |i: int| key_value_value(v@[i]));
    let mut out: Vec<RValue> = Vec::new();
    let mut i: usize = 0;
    proof {
        assert(rvs(out@) =~= want.take(0));
    }
    while i < v.len()
        invariant
            i <= v@.len(),
            want == Seq::new(v@.len(), |i: int| key_value_value(v@[i])),
            rvs(out@) == want.take(i as int),
        decreases v.len() - i,
    {
        let mut h = empty_pairs();
        push_entry(&mut h, key("key"), key(v[i].key.as_str()));
        push_entry(&mut h, key("value"), opt_string_value(&v[i].value));
        proof {
            assert(rpairs(h@) =~= match key_value_value(v@[i as int]) {
                RView::Hash(ps) => ps,
                _ => Seq::empty(),
            });
        }
        push_item(&mut out, RValue::Hash(h));
        proof {
            assert(want.take(i + 1) =~= want.take(i as int).push(key_value_value(v@[i as int])));
        }
        i = i + 1;
    }
    proof {
        assert(want.take(v@.len() as int) =~= want);
    }
    out
}

fn row_groups_to_values(v: &Vec<RowGroupMeta>) -> (r: Vec<RValue>)
    ensures
        rvs(r@) == Seq::new(v@.len(), |i: int| row_group_value(v@[i])),
{
    let ghost want = Seq::new(v@.len(), |i: int| row_group_value(v@[i]));
    let mut out: Vec<RValue> = Vec::new();
    let mut i: usize = 0;
    proof {
        assert(rvs(out@) =~= want.take(0));
    }
    while i < v.len()
        invariant
            i <= v@.len(),
            want == Seq::new(v@.len(), |i: int| row_group_value(v@[i])),
            rvs(out@) == want.take(i as int),
        decreases v.len() - i,
    {
        push_item(&mut out, row_group_to_value(&v[i]));
        proof {
            assert(want.take(i + 1) =~= want.take(i as int).push(row_group_value(v@[i as int])));
        }
        i = i + 1;
    }
    proof {
        assert(want.take(v@.len() as int) =~= want);
    }
    out
}

/// The `schema` hash of a file: its name and its fields.
pub open spec fn schema_value(m: FileMeta) -> RView {
    RView::Hash(
        seq![
            (k("name"@), k(m.schema_name@)),
            (k("fields"@), RView::Array(Seq::new(m.fields@.len(), |i: int| field_value(m.fields@[i])))),
        ],
    )
}

fn schema_to_value(m: &FileMeta) -> (r: RValue)
    ensures
        r@ == schema_value(*m),
{
    let mut sh = empty_pairs();
    push_entry(&mut sh, key("name"), key(m.schema_name.as_str()));
    let fields = fields_to_values(&m.fields);
    push_entry(&mut sh, key("fields"), RValue::Array(fields));
    proof {
        assert(rpairs(sh@) =~= match schema_value(*m) {
            RView::Hash(ps) => ps,
            _ => Seq::empty(),
        });
    }
    RValue::Hash(sh)
}

impl RubyParquetMetaData {
    /// The hash of the file's metadata (see `metadata_value`): row count,
    /// writer, key/value metadata (nil when absent), schema name and fields,
    /// and every row group with its column chunks.
    pub fn try_into_value(&self) -> (r: RValue)
        ensures
            r@ == metadata_value(self.0),
    {
        let m = &self.0;
        let mut h = empty_pairs();
        push_entry(&mut h, key("num_rows"), RValue::Integer(m.num_rows as i128));
        push_entry(&mut h, key("created_by"), opt_string_value(&m.created_by));
        let kv = match &m.key_value_metadata {
            Some(kvs) => RValue::Array(key_values_to_values(kvs)),
            None => RValue::Nil,
        };
        push_entry(&mut h, key("key_value_metadata"), kv);
        let schema = schema_to_value(m);
        push_entry(&mut h, key("schema"), schema);
        let groups = row_groups_to_values(&m.row_groups);
        push_entry(&mut h, key("row_groups"), RValue::Array(groups));
        proof {
            assert(rpairs(h@) =~= match metadata_value(self.0) {
                RView::Hash(ps) => ps,
                _ => Seq::empty(),
            });
        }
        RValue::Hash(h)
    }
}

} // verus!
