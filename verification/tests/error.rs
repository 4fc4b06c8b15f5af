use parquet_ruby_adapter::error::{CoreError, ErrorContext, RubyAdapterError};

#[test]
fn messages_carry_their_prefix() {
    assert_eq!(RubyAdapterError::invalid_input("x".to_string()).message(), "Invalid input: x");
    assert_eq!(
        RubyAdapterError::Parquet(CoreError::Schema("bad".to_string())).message(),
        "Parquet error: Schema error: bad"
    );
    assert_eq!(RubyAdapterError::runtime("r".to_string()).message(), "Runtime error: r");
}

#[test]
fn context_wraps_errors_only() {
    let ok: Result<u8, RubyAdapterError> = Ok(1);
    assert_eq!(ok.context("reading").unwrap(), 1);
    let err: Result<u8, RubyAdapterError> = Err(RubyAdapterError::metadata("m".to_string()));
    assert_eq!(
        err.context("reading").unwrap_err(),
        RubyAdapterError::Runtime("reading: Metadata error: m".to_string())
    );
    let err: Result<u8, RubyAdapterError> = Err(RubyAdapterError::type_conversion("t".to_string()));
    assert_eq!(
        err.with_context(|| "step".to_string()).unwrap_err(),
        RubyAdapterError::Runtime("step: Type conversion error: t".to_string())
    );
}
