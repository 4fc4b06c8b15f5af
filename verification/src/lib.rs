//! Verified core of the Ruby adapter for Parquet: string storage and
//! caching policies, schema parsing, decimal and temporal conversions, and the
//! option parsing rules that the Ruby bindings apply.

pub mod text;
pub mod textset;
pub mod string_storage;
pub mod string_cache;
pub mod error;
pub mod schema;
pub mod rvalue;
pub mod schema_ruby;
pub mod decimal;
pub mod options;
pub mod metadata;
pub mod value;
pub mod infer;
pub mod convert;
pub mod writer;
pub mod repack;
