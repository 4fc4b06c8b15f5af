//! The adapter's error type and the context helpers that wrap errors.

use crate::text::push_str;
use vstd::prelude::*;

verus! {

/// Errors of the Parquet core that the adapter passes on.
#[derive(Debug, PartialEq)]
pub enum CoreError {
    /// A schema definition is invalid.
    Schema(String),
    /// A value could not be converted.
    Conversion(String),
    /// The Parquet library failed.
    Parquet(String),
}

/// Error type of the adapter.
#[derive(Debug, PartialEq)]
pub enum RubyAdapterError {
    /// Core parquet errors.
    Parquet(CoreError),
    /// Ruby errors.
    Ruby(String),
    /// IO errors.
    Io(String),
    /// Type conversion errors.
    TypeConversion(String),
    /// Schema conversion errors.
    SchemaConversion(String),
    /// Metadata extraction errors.
    Metadata(String),
    /// Invalid input errors.
    InvalidInput(String),
    /// Runtime errors.
    Runtime(String),
}

/// A core error by its texts.
pub enum CoreErrorView {
    Schema(Seq<char>),
    Conversion(Seq<char>),
    Parquet(Seq<char>),
}

/// An adapter error by its texts.
pub enum ErrorView {
    Parquet(CoreErrorView),
    Ruby(Seq<char>),
    Io(Seq<char>),
    TypeConversion(Seq<char>),
    SchemaConversion(Seq<char>),
    Metadata(Seq<char>),
    InvalidInput(Seq<char>),
    Runtime(Seq<char>),
}

impl View for CoreError {
    type V = CoreErrorView;

    open spec fn view(&self) -> CoreErrorView {
        match self {
            CoreError::Schema(m) => CoreErrorView::Schema(m@),
            CoreError::Conversion(m) => CoreErrorView::Conversion(m@),
            CoreError::Parquet(m) => CoreErrorView::Parquet(m@),
        }
    }
}

impl View for RubyAdapterError {
    type V = ErrorView;

    open spec fn view(&self) -> ErrorView {
        match self {
            RubyAdapterError::Parquet(c) => ErrorView::Parquet(c@),
            RubyAdapterError::Ruby(m) => ErrorView::Ruby(m@),
            RubyAdapterError::Io(m) => ErrorView::Io(m@),
            RubyAdapterError::TypeConversion(m) => ErrorView::TypeConversion(m@),
            RubyAdapterError::SchemaConversion(m) => ErrorView::SchemaConversion(m@),
            RubyAdapterError::Metadata(m) => ErrorView::Metadata(m@),
            RubyAdapterError::InvalidInput(m) => ErrorView::InvalidInput(m@),
            RubyAdapterError::Runtime(m) => ErrorView::Runtime(m@),
        }
    }
}

/// The text a core error displays.
pub open spec fn core_error_text(e: CoreError) -> Seq<char> {
    match e {
        CoreError::Schema(m) => "Schema error: "@ + m@,
        CoreError::Conversion(m) => "Conversion error: "@ + m@,
        CoreError::Parquet(m) => "Parquet error: "@ + m@,
    }
}

/// The text an adapter error displays.
pub open spec fn error_text(e: RubyAdapterError) -> Seq<char> {
    match e {
        RubyAdapterError::Parquet(c) => "Parquet error: "@ + core_error_text(c),
        RubyAdapterError::Ruby(m) => "Ruby error: "@ + m@,
        RubyAdapterError::Io(m) => "IO error: "@ + m@,
        RubyAdapterError::TypeConversion(m) => "Type conversion error: "@ + m@,
        RubyAdapterError::SchemaConversion(m) => "Schema conversion error: "@ + m@,
        RubyAdapterError::Metadata(m) => "Metadata error: "@ + m@,
        RubyAdapterError::InvalidInput(m) => "Invalid input: "@ + m@,
        RubyAdapterError::Runtime(m) => "Runtime error: "@ + m@,
    }
}

/// `prefix` followed by `s`.
fn prefixed(prefix: &str, s: &str) -> (r: String)
    ensures
        r@ == prefix@ + s@,
{
    let mut r = String::new();
    push_str(&mut r, prefix);
    push_str(&mut r, s);
    proof {
        assert(Seq::<char>::empty() + prefix@ =~= prefix@);
    }
    r
}

impl CoreError {
    /// The text this error displays.
    pub fn message(&self) -> (r: String)
        ensures
            r@ == core_error_text(*self),
    {
        match self {
            CoreError::Schema(m) => prefixed("Schema error: ", m.as_str()),
            CoreError::Conversion(m) => prefixed("Conversion error: ", m.as_str()),
            CoreError::Parquet(m) => prefixed("Parquet error: ", m.as_str()),
        }
    }
}

impl RubyAdapterError {
    /// A Ruby error.
    pub fn ruby(msg: String) -> (r: Self)
        ensures
            r == RubyAdapterError::Ruby(msg),
    {
        RubyAdapterError::Ruby(msg)
    }

    /// A type conversion error.
    pub fn type_conversion(msg: String) -> (r: Self)
        ensures
            r == RubyAdapterError::TypeConversion(msg),
    {
        RubyAdapterError::TypeConversion(msg)
    }

    /// A schema conversion error.
    pub fn schema_conversion(msg: String) -> (r: Self)
        ensures
            r == RubyAdapterError::SchemaConversion(msg),
    {
        RubyAdapterError::SchemaConversion(msg)
    }

    /// A metadata error.
    pub fn metadata(msg: String) -> (r: Self)
        ensures
            r == RubyAdapterError::Metadata(msg),
    {
        RubyAdapterError::Metadata(msg)
    }

    /// An invalid input error.
    pub fn invalid_input(msg: String) -> (r: Self)
        ensures
            r == RubyAdapterError::InvalidInput(msg),
    {
        RubyAdapterError::InvalidInput(msg)
    }

    /// A runtime error.
    pub fn runtime(msg: String) -> (r: Self)
        ensures
            r == RubyAdapterError::Runtime(msg),
    {
        RubyAdapterError::Runtime(msg)
    }

    /// The text this error displays.
    pub fn message(&self) -> (r: String)
        ensures
            r@ == error_text(*self),
    {
        match self {
            RubyAdapterError::Parquet(c) => {
                let inner = c.message();
                prefixed("Parquet error: ", inner.as_str())
            },
            RubyAdapterError::Ruby(m) => prefixed("Ruby error: ", m.as_str()),
            RubyAdapterError::Io(m) => prefixed("IO error: ", m.as_str()),
            RubyAdapterError::TypeConversion(m) => prefixed("Type conversion error: ", m.as_str()),
            RubyAdapterError::SchemaConversion(m) => prefixed(
                "Schema conversion error: ",
                m.as_str(),
            ),
            RubyAdapterError::Metadata(m) => prefixed("Metadata error: ", m.as_str()),
            RubyAdapterError::InvalidInput(m) => prefixed("Invalid input: ", m.as_str()),
            RubyAdapterError::Runtime(m) => prefixed("Runtime error: ", m.as_str()),
        }
    }
}

/// The runtime error that wraps `e` under the context `ctx`.
pub open spec fn in_context(ctx: Seq<char>, e: RubyAdapterError) -> Seq<char> {
    ctx + ": "@ + error_text(e)
}

/// Adds context to the error of a result.
pub trait ErrorContext<T>: Sized {
    /// The result, with an error replaced by a runtime error whose message
    /// is `ctx`, a colon and the error's text.
    fn context(self, ctx: &str) -> Result<T, RubyAdapterError>;

    /// As `context`, with the context made by `f` only when there is an
    /// error.
    fn with_context<F: FnOnce() -> String>(self, f: F) -> Result<T, RubyAdapterError>
        requires
            call_requires(f, ()),
    ;
}

impl<T> ErrorContext<T> for Result<T, RubyAdapterError> {
    fn context(self, ctx: &str) -> (r: Result<T, RubyAdapterError>)
        ensures
            self matches Ok(v) ==> r == Ok::<T, RubyAdapterError>(v),
            self matches Err(e) ==> (r matches Err(RubyAdapterError::Runtime(m)) && m@
                == in_context(ctx@, e)),
    {
        match self {
            Ok(v) => Ok(v),
            Err(e) => {
                let mut m = String::new();
                push_str(&mut m, ctx);
                push_str(&mut m, ": ");
                let text = e.message();
                push_str(&mut m, text.as_str());
                proof {
                    assert(m@ =~= in_context(ctx@, e));
                }
                Err(RubyAdapterError::Runtime(m))
            },
        }
    }

    fn with_context<F: FnOnce() -> String>(self, f: F) -> (r: Result<T, RubyAdapterError>)
        ensures
            self matches Ok(v) ==> r == Ok::<T, RubyAdapterError>(v),
            self matches Err(e) ==> (r matches Err(RubyAdapterError::Runtime(m)) && exists|
                c: String,
            | call_ensures(f, (), c) && m@ == in_context(c@, e)),
    {
        match self {
            Ok(v) => Ok(v),
            Err(e) => {
                let c = f();
                let mut m = String::new();
                push_str(&mut m, c.as_str());
                push_str(&mut m, ": ");
                let text = e.message();
                push_str(&mut m, text.as_str());
                proof {
                    assert(m@ =~= in_context(c@, e));
                }
                Err(RubyAdapterError::Runtime(m))
            },
        }
    }
}

/// The Ruby exception classes the bindings raise.
#[derive(Clone, Copy, Debug, PartialEq, Eq, Structural)]
pub enum ExceptionKind {
    ArgumentError,
    TypeError,
    RangeError,
    RuntimeError,
    EncodingError,
}

/// A Ruby exception to raise: its class and message.
#[derive(Debug, PartialEq)]
pub struct RubyError {
    pub kind: ExceptionKind,
    pub message: String,
}

impl RubyError {
    /// An exception of class `kind` with `message`.
    pub fn new(kind: ExceptionKind, message: String) -> (r: Self)
        ensures
            r.kind == kind,
            r.message == message,
    {
        RubyError { kind, message }
    }
}

} // verus!
