//! Values that scripts and host functions exchange.
use vstd::prelude::*;

verus! {

/// A floating-point value as plain data: its IEEE bits, or the literal that it was written as.
#[derive(Debug)]
pub enum FloatValue {
    Bits(u64),
    Literal(String),
}

impl Clone for FloatValue {
    fn clone(&self) -> (r: Self)
        ensures
            r == *self,
    {
        match self {
            FloatValue::Bits(b) => FloatValue::Bits(*b),
            FloatValue::Literal(s) => FloatValue::Literal(s.clone()),
        }
    }
}

/// The model of a [`FloatValue`].
pub enum FloatView {
    Bits(u64),
    Literal(Seq<char>),
}

impl View for FloatValue {
    type V = FloatView;

    open spec fn view(&self) -> FloatView {
        match self {
            FloatValue::Bits(b) => FloatView::Bits(*b),
            FloatValue::Literal(s) => FloatView::Literal(s@),
        }
    }
}

/// A value of a script.
#[derive(Debug)]
pub enum Value {
    Null,
    Int(i64),
    Float(FloatValue),
    Bool(bool),
    String(String),
    Bytes(Vec<u8>),
    Array(Vec<Value>),
    Table(Vec<(Value, Value)>),
}

/// The model of a [`Value`]; the items of arrays and tables stand as they are.
pub enum ValueView {
    Null,
    Int(i64),
    Float(FloatView),
    Bool(bool),
    String(Seq<char>),
    Bytes(Seq<u8>),
    Array(Seq<Value>),
    Table(Seq<(Value, Value)>),
}

impl View for Value {
    type V = ValueView;

    open spec fn view(&self) -> ValueView {
        match self {
            Value::Null => ValueView::Null,
            Value::Int(i) => ValueView::Int(*i),
            Value::Float(f) => ValueView::Float(f@),
            Value::Bool(b) => ValueView::Bool(*b),
            Value::String(s) => ValueView::String(s@),
            Value::Bytes(b) => ValueView::Bytes(b@),
            Value::Array(a) => ValueView::Array(a@),
            Value::Table(m) => ValueView::Table(m@),
        }
    }
}

/// What a host function fails with.
#[derive(Debug)]
pub enum VmError {
    /// A failure with its message.
    HostError(String),
    /// An argument is not of the type that is named.
    TypeMismatch(String),
}

/// The model of a [`VmError`].
pub enum ErrorView {
    Host(Seq<char>),
    Mismatch(Seq<char>),
}

impl View for VmError {
    type V = ErrorView;

    open spec fn view(&self) -> ErrorView {
        match self {
            VmError::HostError(s) => ErrorView::Host(s@),
            VmError::TypeMismatch(s) => ErrorView::Mismatch(s@),
        }
    }
}

impl VmError {
    /// The message, or the type that was expected.
    pub fn text(&self) -> (r: &str)
        ensures
            r@ == match self@ {
                ErrorView::Host(s) => s,
                ErrorView::Mismatch(s) => s,
            },
    {
        match self {
            VmError::HostError(s) => s.as_str(),
            VmError::TypeMismatch(s) => s.as_str(),
        }
    }
}

/// The result of a host function.
pub type VmResult<T> = Result<T, VmError>;

/// An error with the message `message`.
pub fn host_error(message: &str) -> (r: VmError)
    ensures
        r@ == ErrorView::Host(message@),
{
    VmError::HostError(message.to_owned())
}

/// Hands an integer back to the script.
pub fn return_int(value: i64) -> (r: VmResult<Value>)
    ensures
        r is Ok,
        r->Ok_0 == Value::Int(value),
{
    Ok(Value::Int(value))
}

} // verus!
