use vstd::prelude::*;

verus! {

/// A dynamic cell value as the source driver hands it over.
///
/// Floating-point cells travel as their IEEE-754 bit patterns.
pub enum Value {
    Null,
    Bytes(Vec<u8>),
    Int(i64),
    UInt(u64),
    Float(u32),
    Double(u64),
    /// Year, month, day, hour, minute, second, microsecond.
    Date(u16, u8, u8, u8, u8, u8, u32),
    /// Negative, days, hours, minutes, seconds, microseconds.
    Time(bool, u32, u8, u8, u8, u32),
}

/// The runtime tag of a cell value.
#[derive(Clone, Copy, Debug, PartialEq, Eq, Structural)]
pub enum ValueTag {
    Null,
    Bytes,
    Int,
    UInt,
    Float,
    Double,
    Date,
    Time,
}

pub open spec fn tag_of(v: Value) -> ValueTag {
    match v {
        Value::Null => ValueTag::Null,
        Value::Bytes(_) => ValueTag::Bytes,
        Value::Int(_) => ValueTag::Int,
        Value::UInt(_) => ValueTag::UInt,
        Value::Float(_) => ValueTag::Float,
        Value::Double(_) => ValueTag::Double,
        Value::Date(..) => ValueTag::Date,
        Value::Time(..) => ValueTag::Time,
    }
}

impl Value {
    /// The runtime tag of this value.
    pub fn tag(&self) -> (r: ValueTag)
        ensures
            r == tag_of(*self),
    {
        match self {
            Value::Null => ValueTag::Null,
            Value::Bytes(_) => ValueTag::Bytes,
            Value::Int(_) => ValueTag::Int,
            Value::UInt(_) => ValueTag::UInt,
            Value::Float(_) => ValueTag::Float,
            Value::Double(_) => ValueTag::Double,
            Value::Date(..) => ValueTag::Date,
            Value::Time(..) => ValueTag::Time,
        }
    }
}

} // verus!
