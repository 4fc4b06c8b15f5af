[package]
name = "parquet_ruby_adapter"
version = "0.1.0"
edition = "2021"
publish = false

[dependencies]
triomphe = "*"
uuid = "*"
num = "*"
bytes = "*"
indexmap = "*"
ordered-float = "*"
thiserror = "*"
tempfile = "*"
magnus = "*"
rb-sys = "*"
arrow-schema = "*"
