use vstd::prelude::*;

verus! {

/// A JSON number, kept as the JSON reader keeps it: a non-negative integer,
/// a negative integer, or a floating-point number held as its IEEE-754 bits.
#[derive(Debug, Clone, Copy, PartialEq, Eq, Structural)]
pub enum Number {
    PosInt(u64),
    NegInt(i64),
    Float(u64),
}

/// A dynamically typed structured value.
#[derive(Debug, PartialEq)]
pub enum Value {
    Null,
    Bool(bool),
    Number(Number),
    String(String),
    Array(Vec<Value>),
    Object(Vec<(String, Value)>),
}

/// The integer that a number stands for, where it fits in an `i64`.
pub open spec fn number_as_i64(n: Number) -> Option<i64> {
    match n {
        Number::PosInt(u) => if u <= i64::MAX { Some(u as i64) } else { None },
        Number::NegInt(i) => Some(i),
        Number::Float(_) => None,
    }
}

/// The integer that a value holds, where it is a number that fits in an `i64`.
pub open spec fn spec_as_i64(v: Value) -> Option<i64> {
    match v {
        Value::Number(n) => number_as_i64(n),
        _ => None,
    }
}

/// The boolean that a value holds, where it is one.
pub open spec fn spec_as_bool(v: Value) -> Option<bool> {
    match v {
        Value::Bool(b) => Some(b),
        _ => None,
    }
}

/// The text that a value holds, where it is a string.
pub open spec fn spec_as_str(v: Value) -> Option<Seq<char>> {
    match v {
        Value::String(s) => Some(s@),
        _ => None,
    }
}

/// The elements that a value holds, where it is an array.
pub open spec fn spec_as_array(v: Value) -> Option<Seq<Value>> {
    match v {
        Value::Array(a) => Some(a@),
        _ => None,
    }
}

/// The fields that a value holds, where it is an object.
pub open spec fn spec_as_object(v: Value) -> Option<Seq<(String, Value)>> {
    match v {
        Value::Object(o) => Some(o@),
        _ => None,
    }
}

impl Number {
    pub fn as_i64(&self) -> (r: Option<i64>)
        ensures
            r == number_as_i64(*self),
    {
        match self {
            Number::PosInt(u) => if *u <= i64::MAX as u64 {
                Some(*u as i64)
            } else {
                None
            },
            Number::NegInt(i) => Some(*i),
            Number::Float(_) => None,
        }
    }
}

impl Value {
    pub fn as_i64(&self) -> (r: Option<i64>)
        ensures
            r == spec_as_i64(*self),
    {
        match self {
            Value::Number(n) => n.as_i64(),
            _ => None,
        }
    }

    pub fn as_bool(&self) -> (r: Option<bool>)
        ensures
            r == spec_as_bool(*self),
    {
        match self {
            Value::Bool(b) => Some(*b),
            _ => None,
        }
    }

    pub fn as_str(&self) -> (r: Option<&str>)
        ensures
            match r {
                Some(s) => spec_as_str(*self) == Some(s@),
                None => spec_as_str(*self).is_none(),
            },
    {
        match self {
            Value::String(s) => Some(s.as_str()),
            _ => None,
        }
    }

    pub fn as_array(&self) -> (r: Option<&[Value]>)
        ensures
            match r {
                Some(a) => spec_as_array(*self) == Some(a@),
                None => spec_as_array(*self).is_none(),
            },
    {
        match self {
            Value::Array(a) => Some(a.as_slice()),
            _ => None,
        }
    }

    pub fn as_object(&self) -> (r: Option<&[(String, Value)]>)
        ensures
            match r {
                Some(o) => spec_as_object(*self) == Some(o@),
                None => spec_as_object(*self).is_none(),
            },
    {
        match self {
            Value::Object(o) => Some(o.as_slice()),
            _ => None,
        }
    }
}

/// An object built from key/value pairs, in the order given.
pub fn response(fields: Vec<(String, Value)>) -> (r: Value)
    ensures
        r == Value::Object(fields),
{
    Value::Object(fields)
}

} // verus!
