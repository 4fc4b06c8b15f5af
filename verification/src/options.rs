//! The options of the reader and writer entry points: compression names,
//! bounded sizes, the string cache switch, the string storage keyword, and
//! the small argument types the entry points pass around.

use crate::error::{ExceptionKind, RubyError};
use crate::rvalue::{push_entry, rpairs, sym, symbol, RValue, RView};
use crate::string_cache::{DEFAULT_STRING_CACHE_CAPACITY, STRING_CACHE_CAPACITY_MAX};
use crate::string_storage::{
    mode_name, StringStorageConfig, StringStorageMode, DEFAULT_SHARED_MAX_ENTRIES,
    DEFAULT_SHARED_MAX_VALUE_BYTES,
};
use crate::text::{nat_text, push_nat, push_str};
use vstd::prelude::*;

verus! {

broadcast use vstd::string::group_string_axioms;

/// The compression codecs a writer can use (the levelled ones at their
/// default level).
#[derive(Clone, Copy, Debug, PartialEq, Eq, Structural)]
pub enum Compression {
    Uncompressed,
    Snappy,
    Gzip,
    Lz4,
    Zstd,
    Brotli,
}

/// What `str::to_lowercase` gives for a text.
pub uninterp spec fn lowercase_text(s: Seq<char>) -> Seq<char>;

/// `str::to_lowercase`: the text with each character replaced by its
/// Unicode lower case mapping. The mapping itself is left unsaid here; the
/// result is named by `lowercase_text` of the input.
#[verifier::external_body]
fn to_lowercase(s: &str) -> (r: String)
    ensures
        r@ == lowercase_text(s@),
{
    s.to_lowercase()
}

/// The codec a lower case name stands for.
pub open spec fn compression_named(t: Seq<char>) -> Option<Compression> {
    if t == "none"@ || t == "uncompressed"@ {
        Some(Compression::Uncompressed)
    } else if t == "snappy"@ {
        Some(Compression::Snappy)
    } else if t == "gzip"@ {
        Some(Compression::Gzip)
    } else if t == "lz4"@ {
        Some(Compression::Lz4)
    } else if t == "zstd"@ {
        Some(Compression::Zstd)
    } else if t == "brotli"@ {
        Some(Compression::Brotli)
    } else {
        None
    }
}

/// The name of each codec: its own name in lower case.
pub open spec fn codec_name(c: Compression) -> Seq<char> {
    match c {
        Compression::Uncompressed => "uncompressed"@,
        Compression::Snappy => "snappy"@,
        Compression::Gzip => "gzip"@,
        Compression::Lz4 => "lz4"@,
        Compression::Zstd => "zstd"@,
        Compression::Brotli => "brotli"@,
    }
}

/// Each codec is what its own name asks for, and a name asks for no other
/// codec: every codec has exactly one name, except that no compression has
/// two (`none` and `uncompressed`), so two different names give the same
/// codec only for those two.
pub proof fn law_codec_names(c: Compression, t: Seq<char>, u: Seq<char>)
    ensures
        compression_named(codec_name(c)) == Some(c),
        compression_named("none"@) == Some(Compression::Uncompressed),
        compression_named(t) == Some(c) ==> t == codec_name(c) || (c == Compression::Uncompressed
            && t == "none"@),
        compression_named(t) is Some && compression_named(t) == compression_named(u) && t != u ==> (t
            == "none"@ && u == "uncompressed"@) || (t == "uncompressed"@ && u == "none"@),
{
    reveal_strlit("none");
    reveal_strlit("uncompressed");
    reveal_strlit("snappy");
    reveal_strlit("gzip");
    reveal_strlit("lz4");
    reveal_strlit("zstd");
    reveal_strlit("brotli");
    assert("none"@[0] != "uncompressed"@[0] || "none"@.len() != "uncompressed"@.len());
    assert("none"@[0] != "snappy"@[0] || "none"@.len() != "snappy"@.len());
    assert("none"@[0] != "gzip"@[0] || "none"@.len() != "gzip"@.len());
    assert("none"@[0] != "lz4"@[0] || "none"@.len() != "lz4"@.len());
    assert("none"@[0] != "zstd"@[0] || "none"@.len() != "zstd"@.len());
    assert("none"@[0] != "brotli"@[0] || "none"@.len() != "brotli"@.len());
    assert("uncompressed"@[0] != "snappy"@[0] || "uncompressed"@.len() != "snappy"@.len());
    assert("uncompressed"@[0] != "gzip"@[0] || "uncompressed"@.len() != "gzip"@.len());
    assert("uncompressed"@[0] != "lz4"@[0] || "uncompressed"@.len() != "lz4"@.len());
    assert("uncompressed"@[0] != "zstd"@[0] || "uncompressed"@.len() != "zstd"@.len());
    assert("uncompressed"@[0] != "brotli"@[0] || "uncompressed"@.len() != "brotli"@.len());
    assert("snappy"@[0] != "gzip"@[0] || "snappy"@.len() != "gzip"@.len());
    assert("snappy"@[0] != "lz4"@[0] || "snappy"@.len() != "lz4"@.len());
    assert("snappy"@[0] != "zstd"@[0] || "snappy"@.len() != "zstd"@.len());
    assert("snappy"@[0] != "brotli"@[0] || "snappy"@.len() != "brotli"@.len());
    assert("gzip"@[0] != "lz4"@[0] || "gzip"@.len() != "lz4"@.len());
    assert("gzip"@[0] != "zstd"@[0] || "gzip"@.len() != "zstd"@.len());
    assert("gzip"@[0] != "brotli"@[0] || "gzip"@.len() != "brotli"@.len());
    assert("lz4"@[0] != "zstd"@[0] || "lz4"@.len() != "zstd"@.len());
    assert("lz4"@[0] != "brotli"@[0] || "lz4"@.len() != "brotli"@.len());
    assert("zstd"@[0] != "brotli"@[0] || "zstd"@.len() != "brotli"@.len());
}

/// The message for an unknown codec name.
pub open spec fn invalid_compression_text(t: Seq<char>) -> Seq<char> {
    "Invalid compression option: '"@ + t + "'. Valid options are: none, snappy, gzip, lz4, zstd, brotli"@
}

/// The codec named by an already lower-cased name, or an `ArgumentError`.
pub fn compression_from_lowercase(lower: &str) -> (r: Result<Compression, RubyError>)
    ensures
        match r {
            Ok(c) => compression_named(lower@) == Some(c),
            Err(e) => compression_named(lower@) is None && e.kind == ExceptionKind::ArgumentError
                && e.message@ == invalid_compression_text(lower@),
        },
{
    let t = lower;
    if crate::text::str_eq(t, "none") || crate::text::str_eq(t, "uncompressed") {
        Ok(Compression::Uncompressed)
    } else if crate::text::str_eq(t, "snappy") {
        Ok(Compression::Snappy)
    } else if crate::text::str_eq(t, "gzip") {
        Ok(Compression::Gzip)
    } else if crate::text::str_eq(t, "lz4") {
        Ok(Compression::Lz4)
    } else if crate::text::str_eq(t, "zstd") {
        Ok(Compression::Zstd)
    } else if crate::text::str_eq(t, "brotli") {
        Ok(Compression::Brotli)
    } else {
        let mut m = "Invalid compression option: '".to_string();
        push_str(&mut m, t);
        push_str(&mut m, "'. Valid options are: none, snappy, gzip, lz4, zstd, brotli");
        proof {
            assert(m@ =~= invalid_compression_text(t@));
        }
        Err(RubyError::new(ExceptionKind::ArgumentError, m))
    }
}

/// The codec of the `compression:` option: Snappy when absent, otherwise the
/// codec named case-insensitively (`none` and `uncompressed` both meaning
/// no compression).
pub fn parse_compression(compression: Option<String>) -> (r: Result<Compression, RubyError>)
    ensures
        compression is None ==> r == Ok::<Compression, RubyError>(Compression::Snappy),
        compression matches Some(s) ==> match r {
            Ok(c) => compression_named(lowercase_text(s@)) == Some(c),
            Err(e) => compression_named(lowercase_text(s@)) is None && e.kind
                == ExceptionKind::ArgumentError && e.message@ == invalid_compression_text(
                lowercase_text(s@),
            ),
        },
{
    match compression {
        None => Ok(Compression::Snappy),
        Some(s) => {
            let lower = to_lowercase(s.as_str());
            compression_from_lowercase(lower.as_str())
        },
    }
}

/// The message `<name> must be positive` or `<name> must be at most <max>`.
pub open spec fn bound_error_text(name: Seq<char>, zero: bool, max: nat) -> Seq<char> {
    if zero {
        name + " must be positive"@
    } else {
        name + " must be at most "@ + nat_text(max)
    }
}

/// A size option that, when given, must be positive and at most `max`.
pub fn parse_positive_bounded_usize(name: &str, value: Option<usize>, max: usize) -> (r: Result<
    Option<usize>,
    RubyError,
>)
    ensures
        value is None ==> r matches Ok(None),
        value matches Some(v) ==> {
            &&& (1 <= v <= max) ==> r == Ok::<Option<usize>, RubyError>(Some(v))
            &&& v == 0 ==> (r matches Err(e) && e.kind == ExceptionKind::ArgumentError
                && e.message@ == bound_error_text(name@, true, max as nat))
            &&& v > max && v != 0 ==> (r matches Err(e) && e.kind == ExceptionKind::ArgumentError
                && e.message@ == bound_error_text(name@, false, max as nat))
        },
{
    match value {
        None => Ok(None),
        Some(v) => {
            if v == 0 {
                let mut m = String::new();
                push_str(&mut m, name);
                push_str(&mut m, " must be positive");
                proof {
                    assert(m@ =~= bound_error_text(name@, true, max as nat));
                }
                return Err(RubyError::new(ExceptionKind::ArgumentError, m));
            }
            if v > max {
                let mut m = String::new();
                push_str(&mut m, name);
                push_str(&mut m, " must be at most ");
                push_nat(&mut m, max as u128);
                proof {
                    assert(m@ =~= bound_error_text(name@, false, max as nat));
                }
                return Err(RubyError::new(ExceptionKind::ArgumentError, m));
            }
            Ok(Some(v))
        },
    }
}

/// An exception by its class and message text.
pub open spec fn ruby_error_view(e: RubyError) -> (ExceptionKind, Seq<char>) {
    (e.kind, e.message@)
}

/// What the `string_cache:` option asks for: no cache for absent, `nil` or
/// `false`; the default capacity for `true`; the given capacity for a
/// positive Integer within the ceiling; an exception otherwise.
pub open spec fn string_cache_spec(value: Option<RView>) -> Result<Option<usize>, (ExceptionKind, Seq<char>)> {
    match value {
        None => Ok(None),
        Some(RView::Nil) => Ok(None),
        Some(RView::Bool(false)) => Ok(None),
        Some(RView::Bool(true)) => Ok(Some(DEFAULT_STRING_CACHE_CAPACITY)),
        Some(RView::Integer(i)) => if i < 0 {
            Err((ExceptionKind::RangeError, "can't convert negative integer to unsigned"@))
        } else if i > usize::MAX {
            Err((ExceptionKind::RangeError, "bignum too big to convert into `usize`"@))
        } else if i == 0 {
            Err((ExceptionKind::ArgumentError, "string_cache capacity must be positive"@))
        } else if i > STRING_CACHE_CAPACITY_MAX {
            Err(
                (
                    ExceptionKind::ArgumentError,
                    "string_cache capacity must be at most "@ + nat_text(STRING_CACHE_CAPACITY_MAX as nat),
                ),
            )
        } else {
            Ok(Some(i as usize))
        },
        Some(_) => Err((ExceptionKind::TypeError, "string_cache must be true, false, or a positive Integer"@)),
    }
}

/// The view of an optional Ruby value.
pub open spec fn opt_view(v: Option<&RValue>) -> Option<RView> {
    match v {
        Some(x) => Some(x@),
        None => None,
    }
}

/// The capacity the `string_cache:` write option asks for (see
/// `string_cache_spec`), `None` when it disables the cache.
pub fn parse_string_cache(value: Option<&RValue>) -> (r: Result<Option<usize>, RubyError>)
    ensures
        match r {
            Ok(c) => string_cache_spec(opt_view(value)) == Ok::<Option<usize>, (ExceptionKind, Seq<char>)>(c),
            Err(e) => string_cache_spec(opt_view(value)) == Err::<Option<usize>, (ExceptionKind, Seq<char>)>(
                ruby_error_view(e),
            ),
        },
{
    match value {
        None => Ok(None),
        Some(RValue::Nil) => Ok(None),
        Some(RValue::Bool(false)) => Ok(None),
        Some(RValue::Bool(true)) => Ok(Some(DEFAULT_STRING_CACHE_CAPACITY)),
        Some(RValue::Integer(i)) => {
            let i = *i;
            if i < 0 {
                return Err(
                    RubyError::new(ExceptionKind::RangeError, "can't convert negative integer to unsigned".to_string()),
                );
            }
            if i > usize::MAX as i128 {
                return Err(
                    RubyError::new(ExceptionKind::RangeError, "bignum too big to convert into `usize`".to_string()),
                );
            }
            let capacity = i as usize;
            if capacity == 0 {
                return Err(
                    RubyError::new(ExceptionKind::ArgumentError, "string_cache capacity must be positive".to_string()),
                );
            }
            if capacity > STRING_CACHE_CAPACITY_MAX {
                let mut m = "string_cache capacity must be at most ".to_string();
                push_nat(&mut m, STRING_CACHE_CAPACITY_MAX as u128);
                return Err(RubyError::new(ExceptionKind::ArgumentError, m));
            }
            Ok(Some(capacity))
        },
        Some(_) => Err(
            RubyError::new(
                ExceptionKind::TypeError,
                "string_cache must be true, false, or a positive Integer".to_string(),
            ),
        ),
    }
}

/// The text of a String or Symbol, `None` for nil, a `TypeError` for
/// anything else.
pub fn parse_string_or_symbol(value: &RValue) -> (r: Result<Option<String>, RubyError>)
    ensures
        value@ is Nil ==> r matches Ok(None),
        value@ matches RView::Str(t) ==> (r matches Ok(Some(s)) && s@ == t),
        value@ matches RView::Symbol(t) ==> (r matches Ok(Some(s)) && s@ == t),
        !(value@ is Nil || value@ is Str || value@ is Symbol) ==> (r matches Err(e) && e.kind
            == ExceptionKind::TypeError && e.message@ == "Value must be a String or Symbol"@),
{
    match value {
        RValue::Nil => Ok(None),
        RValue::Str(s) => Ok(Some(s.clone())),
        RValue::Symbol(s) => Ok(Some(s.clone())),
        _ => Err(RubyError::new(ExceptionKind::TypeError, "Value must be a String or Symbol".to_string())),
    }
}

/// Whether a configuration is the default one (`:copy` with the default
/// shared budget).
pub open spec fn is_default_config(c: StringStorageConfig) -> bool {
    c.mode == StringStorageMode::Copy && c.shared_max_entries == DEFAULT_SHARED_MAX_ENTRIES
        && c.shared_max_value_bytes == DEFAULT_SHARED_MAX_VALUE_BYTES
}

/// The `string_storage:` keyword that reproduces a configuration: none for
/// the default; a hash with the budget for `:shared` with a budget of its
/// own; the mode's symbol otherwise.
pub open spec fn storage_kwarg_spec(c: StringStorageConfig) -> Option<RView> {
    if is_default_config(c) {
        None
    } else if c.mode == StringStorageMode::Shared && !(c.shared_max_entries == DEFAULT_SHARED_MAX_ENTRIES
        && c.shared_max_value_bytes == DEFAULT_SHARED_MAX_VALUE_BYTES) {
        Some(
            RView::Hash(
                seq![
                    (sym("mode"@), sym(mode_name(c.mode))),
                    (sym("max_entries"@), RView::Integer(c.shared_max_entries as int)),
                    (sym("max_value_bytes"@), RView::Integer(c.shared_max_value_bytes as int)),
                ],
            ),
        )
    } else {
        Some(sym(mode_name(c.mode)))
    }
}

/// The `string_storage:` keyword an enumerator passes on so that a call
/// without a block gives back the same configuration (see
/// `storage_kwarg_spec`).
pub fn string_storage_kwarg(config: StringStorageConfig) -> (r: Option<RValue>)
    ensures
        match r {
            Some(v) => storage_kwarg_spec(config) == Some(v@),
            None => storage_kwarg_spec(config) is None,
        },
{
    if config.mode == StringStorageMode::Copy && config.shared_max_entries == DEFAULT_SHARED_MAX_ENTRIES
        && config.shared_max_value_bytes == DEFAULT_SHARED_MAX_VALUE_BYTES {
        return None;
    }
    let default_budget = config.shared_max_entries == DEFAULT_SHARED_MAX_ENTRIES
        && config.shared_max_value_bytes == DEFAULT_SHARED_MAX_VALUE_BYTES;
    if config.mode == StringStorageMode::Shared && !default_budget {
        let mut h: Vec<(RValue, RValue)> = Vec::new();
        push_entry(&mut h, symbol("mode"), symbol(config.mode.name()));
        push_entry(&mut h, symbol("max_entries"), RValue::Integer(config.shared_max_entries as i128));
        push_entry(&mut h, symbol("max_value_bytes"), RValue::Integer(config.shared_max_value_bytes as i128));
        proof {
            assert(rpairs(Seq::<(RValue, RValue)>::empty()) =~= Seq::<(RView, RView)>::empty());
            assert(rpairs(h@) =~= seq![
                (sym("mode"@), sym(mode_name(config.mode))),
                (sym("max_entries"@), RView::Integer(config.shared_max_entries as int)),
                (sym("max_value_bytes"@), RView::Integer(config.shared_max_value_bytes as int)),
            ]);
        }
        Some(RValue::Hash(h))
    } else {
        Some(symbol(config.mode.name()))
    }
}

/// Whether a reader gives each row as a hash or as an array.
#[derive(Clone, Copy, Debug, PartialEq, Eq, Structural)]
pub enum ParserResultType {
    Hash,
    Array,
}

/// The result type a name stands for.
pub open spec fn result_type_named(t: Seq<char>) -> Option<ParserResultType> {
    if t == "hash"@ {
        Some(ParserResultType::Hash)
    } else if t == "array"@ {
        Some(ParserResultType::Array)
    } else {
        None
    }
}

/// The name of a result type.
pub open spec fn result_type_name(r: ParserResultType) -> Seq<char> {
    match r {
        ParserResultType::Hash => "hash"@,
        ParserResultType::Array => "array"@,
    }
}

impl ParserResultType {
    /// Every result type, `Hash` first.
    pub fn iter() -> (r: Vec<ParserResultType>)
        ensures
            r@ == seq![ParserResultType::Hash, ParserResultType::Array],
    {
        let mut v: Vec<ParserResultType> = Vec::new();
        v.push(ParserResultType::Hash);
        v.push(ParserResultType::Array);
        proof {
            assert(v@ =~= seq![ParserResultType::Hash, ParserResultType::Array]);
        }
        v
    }

    /// The result type named `value` (`hash` or `array`).
    pub fn try_from(value: &str) -> (r: Result<ParserResultType, String>)
        ensures
            match r {
                Ok(t) => result_type_named(value@) == Some(t),
                Err(m) => result_type_named(value@) is None && m@ == "Invalid parser result type: "@
                    + value@,
            },
    {
        if crate::text::str_eq(value, "hash") {
            Ok(ParserResultType::Hash)
        } else if crate::text::str_eq(value, "array") {
            Ok(ParserResultType::Array)
        } else {
            let mut m = "Invalid parser result type: ".to_string();
            push_str(&mut m, value);
            Err(m)
        }
    }

    /// As `try_from`.
    pub fn from_str(s: &str) -> (r: Result<ParserResultType, String>)
        ensures
            match r {
                Ok(t) => result_type_named(s@) == Some(t),
                Err(m) => result_type_named(s@) is None && m@ == "Invalid parser result type: "@ + s@,
            },
    {
        Self::try_from(s)
    }

    /// The name of this result type.
    pub fn to_string(&self) -> (r: String)
        ensures
            r@ == result_type_name(*self),
    {
        match self {
            ParserResultType::Hash => "hash".to_string(),
            ParserResultType::Array => "array".to_string(),
        }
    }
}

/// Naming a result type and reading the name back gives the same type.
pub proof fn law_result_type_name_round_trips(t: ParserResultType)
    ensures
        result_type_named(result_type_name(t)) == Some(t),
{
    reveal_strlit("hash");
    reveal_strlit("array");
    assert("hash"@.len() != "array"@.len());
}

/// The `result_type:` option of the readers: `Hash` when absent; otherwise
/// the result type named by the String or Symbol given.
pub fn result_type_option(value: Option<&RValue>) -> (r: Result<ParserResultType, RubyError>)
    ensures
        value is None ==> r == Ok::<ParserResultType, RubyError>(ParserResultType::Hash),
        value matches Some(v) ==> match v@ {
            RView::Nil => (r matches Err(e) && e.kind == ExceptionKind::ArgumentError && e.message@
                == "result_type cannot be nil"@),
            RView::Str(t) | RView::Symbol(t) => match result_type_named(t) {
                Some(k) => r == Ok::<ParserResultType, RubyError>(k),
                None => (r matches Err(e) && e.kind == ExceptionKind::ArgumentError && e.message@
                    == "Invalid result_type value"@),
            },
            _ => (r matches Err(e) && e.kind == ExceptionKind::TypeError && e.message@
                == "Value must be a String or Symbol"@),
        },
{
    match value {
        None => Ok(ParserResultType::Hash),
        Some(v) => match parse_string_or_symbol(v) {
            Err(e) => Err(e),
            Ok(None) => Err(RubyError::new(ExceptionKind::ArgumentError, "result_type cannot be nil".to_string())),
            Ok(Some(name)) => match ParserResultType::from_str(name.as_str()) {
                Ok(t) => Ok(t),
                Err(_) => Err(RubyError::new(ExceptionKind::ArgumentError, "Invalid result_type value".to_string())),
            },
        },
    }
}

/// The `batch_size:` option of `each_column`: when given it must be
/// positive.
pub fn column_batch_size(value: Option<usize>) -> (r: Result<Option<usize>, RubyError>)
    ensures
        value == Some(0usize) ==> (r matches Err(e) && e.kind == ExceptionKind::ArgumentError && e.message@
            == "batch_size must be greater than 0"@),
        value != Some(0usize) ==> r == Ok::<Option<usize>, RubyError>(value),
{
    match value {
        Some(0) => Err(RubyError::new(ExceptionKind::ArgumentError, "batch_size must be greater than 0".to_string())),
        other => Ok(other),
    }
}

/// How the writer batches rows before flushing; every size is optional and
/// the core writer's own default applies where none is given.
#[derive(Clone, Copy, Debug)]
pub struct BatchSizingOptions {
    pub batch_size: Option<usize>,
    pub flush_threshold: Option<usize>,
    pub sample_size: Option<usize>,
}

impl Default for BatchSizingOptions {
    fn default() -> (r: Self)
        ensures
            r.batch_size is None,
            r.flush_threshold is None,
            r.sample_size is None,
    {
        BatchSizingOptions { batch_size: None, flush_threshold: None, sample_size: None }
    }
}

/// The arguments of `Parquet.repack`: the input files, the directory and the
/// name prefix of the outputs, how many rows each output holds at most
/// (unbounded when `None`), how many rows a read takes at a time, and the
/// compression of the outputs.
#[derive(Debug)]
pub struct ParquetRepackArgs {
    pub read_from: Vec<String>,
    pub output_dir: String,
    pub output_file_prefix: String,
    pub rows_per_file: Option<usize>,
    pub max_read_rows_per_chunk: usize,
    pub compression: Option<String>,
}

} // verus!
