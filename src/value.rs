//! The value model: the typed scalars that guests see, and the generic
//! values that the host's document store holds.

use vstd::prelude::*;

verus! {

/// A field value as a guest sees it.
#[derive(Debug, PartialEq, Eq)]
pub enum Value {
    Text(String),
    Number(u32),
    Boolean(bool),
    Datetime(String),
}

/// A value as the host's document store holds it.
#[derive(Debug, PartialEq, Eq)]
pub enum HostValue {
    Null,
    Bool(bool),
    /// A non-negative integer.
    Unsigned(u64),
    /// A negative integer.
    Negative(i64),
    /// A number with a fractional part.
    Fractional,
    Text(String),
    /// An array; its elements never reach a guest, so only the kind is kept.
    Array,
    /// A nested object; its members never reach a guest, so only the kind is kept.
    Object,
}

/// Why a host value has no guest counterpart.
#[derive(Debug, Clone, Copy, PartialEq, Eq, Structural)]
pub enum ConversionError {
    /// A number that is negative or has a fractional part.
    NotAnUnsignedNumber,
    /// An unsigned number above `u32::MAX`.
    NumberOutOfRange,
    /// Null, an array or an object.
    UnsupportedType,
}

/// The host value that stands for a guest value.
pub open spec fn value_to_host_spec(v: Value) -> HostValue {
    match v {
        Value::Text(s) => HostValue::Text(s),
        Value::Datetime(s) => HostValue::Text(s),
        Value::Number(n) => HostValue::Unsigned(n as u64),
        Value::Boolean(b) => HostValue::Bool(b),
    }
}

/// The guest value that a host value converts to, or why there is none.
pub open spec fn value_from_host_spec(h: HostValue) -> Result<Value, ConversionError> {
    match h {
        HostValue::Bool(b) => Ok(Value::Boolean(b)),
        HostValue::Unsigned(n) => if n <= u32::MAX as u64 {
            Ok(Value::Number(n as u32))
        } else {
            Err(ConversionError::NumberOutOfRange)
        },
        HostValue::Negative(_) => Err(ConversionError::NotAnUnsignedNumber),
        HostValue::Fractional => Err(ConversionError::NotAnUnsignedNumber),
        HostValue::Text(s) => Ok(Value::Text(s)),
        _ => Err(ConversionError::UnsupportedType),
    }
}

/// A host value that converts to a guest value.
pub open spec fn representable(h: HostValue) -> bool {
    value_from_host_spec(h) is Ok
}

/// Converts a guest value to the host's representation; this never fails.
pub fn value_to_host(v: Value) -> (r: HostValue)
    ensures
        r == value_to_host_spec(v),
{
    match v {
        Value::Text(s) => HostValue::Text(s),
        Value::Datetime(s) => HostValue::Text(s),
        Value::Number(n) => HostValue::Unsigned(n as u64),
        Value::Boolean(b) => HostValue::Bool(b),
    }
}

/// Converts a host value to a guest value, failing where there is no
/// counterpart.
pub fn value_from_host(h: &HostValue) -> (r: Result<Value, ConversionError>)
    ensures
        r == value_from_host_spec(*h),
{
    match h {
        HostValue::Bool(b) => Ok(Value::Boolean(*b)),
        HostValue::Unsigned(n) => {
            if *n <= u32::MAX as u64 {
                Ok(Value::Number(*n as u32))
            } else {
                Err(ConversionError::NumberOutOfRange)
            }
        },
        HostValue::Negative(_) => Err(ConversionError::NotAnUnsignedNumber),
        HostValue::Fractional => Err(ConversionError::NotAnUnsignedNumber),
        HostValue::Text(s) => Ok(Value::Text(s.clone())),
        _ => Err(ConversionError::UnsupportedType),
    }
}

impl HostValue {
    /// A copy of this value.
    pub fn duplicate(&self) -> (r: HostValue)
        ensures
            r == *self,
    {
        match self {
            HostValue::Null => HostValue::Null,
            HostValue::Bool(b) => HostValue::Bool(*b),
            HostValue::Unsigned(n) => HostValue::Unsigned(*n),
            HostValue::Negative(n) => HostValue::Negative(*n),
            HostValue::Fractional => HostValue::Fractional,
            HostValue::Text(s) => HostValue::Text(s.clone()),
            HostValue::Array => HostValue::Array,
            HostValue::Object => HostValue::Object,
        }
    }
}

impl Value {
    /// A copy of this value.
    pub fn duplicate(&self) -> (r: Value)
        ensures
            r == *self,
    {
        match self {
            Value::Text(s) => Value::Text(s.clone()),
            Value::Number(n) => Value::Number(*n),
            Value::Boolean(b) => Value::Boolean(*b),
            Value::Datetime(s) => Value::Datetime(s.clone()),
        }
    }
}

/// Converting a representable host value to a guest value and back gives
/// the same host value.
pub proof fn lemma_value_round_trip(h: HostValue)
    requires
        representable(h),
    ensures
        value_to_host_spec(value_from_host_spec(h)->Ok_0) == h,
{
}

} // verus!
