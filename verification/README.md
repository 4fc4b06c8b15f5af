# parquet_ruby_adapter

The Ruby adapter of a Parquet library, as a Verus project: the decisions the
adapter makes between Ruby values and Parquet values are verified, and a thin
layer of ordinary Rust talks to Ruby, to files and to the Parquet reader and
writer.

## Layout

- `src/` — the verified library.
  - `string_storage.rs`, `string_cache.rs`, `textset.rs`: how strings read
    from a file become Ruby strings (copied, interned, or leaked into a
    process-wide bounded registry) and the writer's bounded string cache,
    with their budgets and the laws they keep.
  - `schema.rs`, `schema_ruby.rs`: parsing the hash and DSL schemas Ruby
    code writes, and the Ruby hash of a schema read from a file.
  - `value.rs`, `infer.rs`, `convert.rs`, `decimal.rs`: Parquet values, what
    Ruby object stands for each, what Parquet value a schema-less Ruby value
    becomes, and the date, time, timestamp, UUID and decimal arithmetic.
  - `options.rs`, `writer.rs`, `repack.rs`, `metadata.rs`, `error.rs`: option
    parsing, the writers' checks, the plan that cuts batches into output
    files, the metadata hash, and the error messages.
  - `rvalue.rs`, `text.rs`: the model of Ruby values and the text helpers.
- `tests/` — tests of the library on concrete values.
- `app/` — the Ruby bindings (Magnus), file and IO handling, and the calls
  into the Parquet crates.
