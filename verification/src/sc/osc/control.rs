use crate::osc::types::{Str, Tagged, TypeEncoder};
use crate::osc::types::FloatBits;
use vstd::prelude::*;

verus! {

/// A control of a node, by index or by name.
#[derive(Clone, Copy, Debug, PartialEq, Eq)]
pub enum Id<'a> {
    Index(i32),
    Name(&'a str),
}

impl<'a> Tagged for Id<'a> {
    open spec fn spec_taggable(&self) -> bool {
        true
    }

    open spec fn spec_tags(&self) -> Seq<u8> {
        match self {
            Id::Index(v) => v.spec_tags(),
            Id::Name(v) => v.spec_tags(),
        }
    }

    fn encode_tag(&self, buffer: &mut Vec<u8>) {
        match self {
            Self::Index(v) => v.encode_tag(buffer),
            Self::Name(v) => v.encode_tag(buffer),
        }
    }
}

impl<'a> TypeEncoder for Id<'a> {
    open spec fn spec_encodable(&self) -> bool {
        true
    }

    open spec fn spec_encoding(&self) -> Seq<u8> {
        match self {
            Id::Index(v) => v.spec_encoding(),
            Id::Name(v) => Str(*v).spec_encoding(),
        }
    }

    fn encode_type(&self, buffer: &mut Vec<u8>) {
        match self {
            Self::Index(value) => value.encode_type(buffer),
            Self::Name(value) => Str(*value).encode_type(buffer),
        }
    }
}

/// A control value: a 32-bit float, held as its bit pattern, or an integer.
#[derive(Clone, Copy, Debug, PartialEq, Eq)]
pub enum Value {
    Float(FloatBits),
    Int(i32),
}

impl Tagged for Value {
    open spec fn spec_taggable(&self) -> bool {
        true
    }

    open spec fn spec_tags(&self) -> Seq<u8> {
        match self {
            Value::Float(v) => v.spec_tags(),
            Value::Int(v) => v.spec_tags(),
        }
    }

    fn encode_tag(&self, buffer: &mut Vec<u8>) {
        match self {
            Self::Float(v) => v.encode_tag(buffer),
            Self::Int(v) => v.encode_tag(buffer),
        }
    }
}

impl TypeEncoder for Value {
    open spec fn spec_encodable(&self) -> bool {
        true
    }

    open spec fn spec_encoding(&self) -> Seq<u8> {
        match self {
            Value::Float(v) => v.spec_encoding(),
            Value::Int(v) => v.spec_encoding(),
        }
    }

    fn encode_type(&self, buffer: &mut Vec<u8>) {
        match self {
            Self::Float(value) => value.encode_type(buffer),
            Self::Int(value) => value.encode_type(buffer),
        }
    }
}

impl From<i32> for Value {
    fn from(value: i32) -> (r: Value)
        ensures
            r == Value::Int(value),
    {
        Value::Int(value)
    }
}

impl vstd::std_specs::convert::FromSpecImpl<i32> for Value {
    open spec fn obeys_from_spec() -> bool {
        true
    }

    open spec fn from_spec(v: i32) -> Value {
        Value::Int(v)
    }
}

impl From<FloatBits> for Value {
    fn from(value: FloatBits) -> (r: Value)
        ensures
            r == Value::Float(value),
    {
        Value::Float(value)
    }
}

impl vstd::std_specs::convert::FromSpecImpl<FloatBits> for Value {
    open spec fn obeys_from_spec() -> bool {
        true
    }

    open spec fn from_spec(v: FloatBits) -> Value {
        Value::Float(v)
    }
}

/// A control bus.
#[derive(Clone, Copy, Debug, PartialEq, Eq)]
pub struct Bus(pub i32);

impl Tagged for Bus {
    open spec fn spec_taggable(&self) -> bool {
        true
    }

    open spec fn spec_tags(&self) -> Seq<u8> {
        self.0.spec_tags()
    }

    fn encode_tag(&self, buffer: &mut Vec<u8>) {
        self.0.encode_tag(buffer)
    }
}

impl TypeEncoder for Bus {
    open spec fn spec_encodable(&self) -> bool {
        true
    }

    open spec fn spec_encoding(&self) -> Seq<u8> {
        self.0.spec_encoding()
    }

    fn encode_type(&self, buffer: &mut Vec<u8>) {
        self.0.encode_type(buffer)
    }
}

} // verus!
