//! Typed values exchanged across the host/module call boundary.
//!
//! A `Value` is a tagged union carrying exactly one `ValueKind`'s
//! payload.  Floating-point payloads are carried as their IEEE-754 bit
//! patterns, and references as opaque handles, so that the host core
//! itself stays free of machine floating point.

use vstd::prelude::*;

verus! {

/// The kind of a value crossing the host/module boundary.
#[derive(Clone, Copy, PartialEq, Eq, Structural, Debug)]
pub enum ValueKind {
    Int32,
    Int64,
    Float32,
    Float64,
    Reference,
}

/// A tagged value: exactly one kind's payload.
///
/// `Float32` and `Float64` payloads are the raw IEEE-754 bit patterns;
/// a `Reference` payload is an opaque handle chosen by the engine.
#[derive(Clone, Copy, PartialEq, Eq, Structural, Debug)]
pub enum Value {
    Int32(i32),
    Int64(i64),
    Float32(u32),
    Float64(u64),
    Reference(u64),
}

impl Value {
    /// The kind carried by this value.
    pub open spec fn kind_spec(&self) -> ValueKind {
        match self {
            Value::Int32(_) => ValueKind::Int32,
            Value::Int64(_) => ValueKind::Int64,
            Value::Float32(_) => ValueKind::Float32,
            Value::Float64(_) => ValueKind::Float64,
            Value::Reference(_) => ValueKind::Reference,
        }
    }

    /// Returns the kind tag of this value.
    #[verifier::when_used_as_spec(kind_spec)]
    pub fn kind(&self) -> (k: ValueKind)
        ensures
            k == self.kind_spec(),
    {
        match self {
            Value::Int32(_) => ValueKind::Int32,
            Value::Int64(_) => ValueKind::Int64,
            Value::Float32(_) => ValueKind::Float32,
            Value::Float64(_) => ValueKind::Float64,
            Value::Reference(_) => ValueKind::Reference,
        }
    }
}

/// The kinds of a sequence of values, position by position.
pub open spec fn kinds_of(vs: Seq<Value>) -> Seq<ValueKind> {
    vs.map_values(|v: Value| v.kind_spec())
}

/// Encodes a host-native 32-bit integer as a tagged value.
pub fn encode_i32(x: i32) -> (v: Value)
    ensures
        v == Value::Int32(x),
{
    Value::Int32(x)
}

/// Decodes a tagged value back to a host-native 32-bit integer, if it
/// carries one.
pub fn decode_i32(v: &Value) -> (r: Option<i32>)
    ensures
        match r {
            Some(x) => *v == Value::Int32(x),
            None => !(*v is Int32),
        },
{
    match v {
        Value::Int32(x) => Some(*x),
        _ => None,
    }
}

} // verus!
