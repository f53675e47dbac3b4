use crate::midi::codec::{DecodeValue, DecoderBuffer, DecoderError, EncodeValue, EncoderBuffer, MIDIValue};
use vstd::prelude::*;

verus! {

/// A number did not fit in the width of the integer type asked for.
#[derive(Copy, Clone, Debug, PartialEq, Eq, PartialOrd, Ord)]
pub struct ConversionError;

/// An unsigned integer of 2 bits, held in a `u8`.
#[derive(Copy, Clone, Debug, PartialEq, Eq, PartialOrd, Ord, Hash)]
#[allow(non_camel_case_types)]
pub struct u2(u8);

impl u2 {
    /// The largest value of this type.
    pub fn max_value() -> (r: u2)
        ensures
            r.value() == 0x3,
    {
        u2(0x3)
    }

    /// The number this value holds.
    pub closed spec fn value(self) -> u8 {
        self.0
    }

    /// The value holding `raw`, whatever `raw` is.
    pub closed spec fn spec_from_raw(raw: u8) -> u2 {
        u2(raw)
    }

    /// A value is determined by the number it holds.
    pub proof fn lemma_from_raw(raw: u8, v: u2)
        ensures
            #[trigger] Self::spec_from_raw(raw).value() == raw,
            v.value() == raw ==> v == Self::spec_from_raw(raw),
    {
    }

    /// The value of `MAX`.
    pub open spec fn spec_max() -> u8 {
        0x3
    }

    /// The value `raw`, where it fits in 2 bits.
    pub fn new(value: u8) -> (r: Option<u2>)
        ensures
            r is Some <==> value <= 0x3,
            r matches Some(v) ==> v.value() == value,
    {
        match Self::try_from(value) {
            Ok(v) => Some(v),
            Err(_) => None,
        }
    }

    /// The low 2 bits of `value`.
    pub fn new_lossy(value: u8) -> (r: u2)
        ensures
            r.value() == value % 0x4,
    {
        assert(value & 0x3 == value % 0x4) by (bit_vector);
        Self(value & 0x3)
    }

    /// The value `raw`, or `ConversionError` where it does not fit in 2 bits.
    pub fn try_from(raw: u8) -> (r: Result<u2, ConversionError>)
        ensures
            r is Ok <==> raw <= 0x3,
            r matches Ok(v) ==> v.value() == raw,
    {
        let trunc = raw & 0x3;
        assert(raw & 0x3 == raw <==> raw <= 0x3) by (bit_vector);
        if trunc == raw {
            Ok(u2(trunc))
        } else {
            Err(ConversionError)
        }
    }

    /// The number this value holds.
    pub fn get(&self) -> (r: u8)
        ensures
            r == self.value(),
    {
        self.0
    }
}

impl core::ops::Deref for u2 {
    type Target = u8;

    fn deref(&self) -> (r: &u8)
        ensures
            *r == self.value(),
    {
        &self.0
    }
}

impl From<u2> for u8 {
    fn from(value: u2) -> (r: u8)
        ensures
            r == value.value(),
    {
        value.0
    }
}

impl vstd::std_specs::convert::FromSpecImpl<u2> for u8 {
    open spec fn obeys_from_spec() -> bool {
        true
    }

    open spec fn from_spec(v: u2) -> u8 {
        v.value()
    }
}

/// An unsigned integer of 4 bits, held in a `u8`.
#[derive(Copy, Clone, Debug, PartialEq, Eq, PartialOrd, Ord, Hash)]
#[allow(non_camel_case_types)]
pub struct u4(u8);

impl u4 {
    /// The largest value of this type.
    pub fn max_value() -> (r: u4)
        ensures
            r.value() == 0xf,
    {
        u4(0xf)
    }

    /// The number this value holds.
    pub closed spec fn value(self) -> u8 {
        self.0
    }

    /// The value holding `raw`, whatever `raw` is.
    pub closed spec fn spec_from_raw(raw: u8) -> u4 {
        u4(raw)
    }

    /// A value is determined by the number it holds.
    pub proof fn lemma_from_raw(raw: u8, v: u4)
        ensures
            #[trigger] Self::spec_from_raw(raw).value() == raw,
            v.value() == raw ==> v == Self::spec_from_raw(raw),
    {
    }

    /// The value of `MAX`.
    pub open spec fn spec_max() -> u8 {
        0xf
    }

    /// The value `raw`, where it fits in 4 bits.
    pub fn new(value: u8) -> (r: Option<u4>)
        ensures
            r is Some <==> value <= 0xf,
            r matches Some(v) ==> v.value() == value,
    {
        match Self::try_from(value) {
            Ok(v) => Some(v),
            Err(_) => None,
        }
    }

    /// The low 4 bits of `value`.
    pub fn new_lossy(value: u8) -> (r: u4)
        ensures
            r.value() == value % 0x10,
    {
        assert(value & 0xf == value % 0x10) by (bit_vector);
        Self(value & 0xf)
    }

    /// The value `raw`, or `ConversionError` where it does not fit in 4 bits.
    pub fn try_from(raw: u8) -> (r: Result<u4, ConversionError>)
        ensures
            r is Ok <==> raw <= 0xf,
            r matches Ok(v) ==> v.value() == raw,
    {
        let trunc = raw & 0xf;
        assert(raw & 0xf == raw <==> raw <= 0xf) by (bit_vector);
        if trunc == raw {
            Ok(u4(trunc))
        } else {
            Err(ConversionError)
        }
    }

    /// The number this value holds.
    pub fn get(&self) -> (r: u8)
        ensures
            r == self.value(),
    {
        self.0
    }
}

impl core::ops::Deref for u4 {
    type Target = u8;

    fn deref(&self) -> (r: &u8)
        ensures
            *r == self.value(),
    {
        &self.0
    }
}

impl From<u4> for u8 {
    fn from(value: u4) -> (r: u8)
        ensures
            r == value.value(),
    {
        value.0
    }
}

impl vstd::std_specs::convert::FromSpecImpl<u4> for u8 {
    open spec fn obeys_from_spec() -> bool {
        true
    }

    open spec fn from_spec(v: u4) -> u8 {
        v.value()
    }
}

/// An unsigned integer of 7 bits, held in a `u8`.
#[derive(Copy, Clone, Debug, PartialEq, Eq, PartialOrd, Ord, Hash)]
#[allow(non_camel_case_types)]
pub struct u7(u8);

impl u7 {
    /// The largest value of this type.
    pub fn max_value() -> (r: u7)
        ensures
            r.value() == 0x7f,
    {
        u7(0x7f)
    }

    /// The number this value holds.
    pub closed spec fn value(self) -> u8 {
        self.0
    }

    /// The value holding `raw`, whatever `raw` is.
    pub closed spec fn spec_from_raw(raw: u8) -> u7 {
        u7(raw)
    }

    /// A value is determined by the number it holds.
    pub proof fn lemma_from_raw(raw: u8, v: u7)
        ensures
            #[trigger] Self::spec_from_raw(raw).value() == raw,
            v.value() == raw ==> v == Self::spec_from_raw(raw),
    {
    }

    /// The value of `MAX`.
    pub open spec fn spec_max() -> u8 {
        0x7f
    }

    /// The value `raw`, where it fits in 7 bits.
    pub fn new(value: u8) -> (r: Option<u7>)
        ensures
            r is Some <==> value <= 0x7f,
            r matches Some(v) ==> v.value() == value,
    {
        match Self::try_from(value) {
            Ok(v) => Some(v),
            Err(_) => None,
        }
    }

    /// The low 7 bits of `value`.
    pub fn new_lossy(value: u8) -> (r: u7)
        ensures
            r.value() == value % 0x80,
    {
        assert(value & 0x7f == value % 0x80) by (bit_vector);
        Self(value & 0x7f)
    }

    /// The value `raw`, or `ConversionError` where it does not fit in 7 bits.
    pub fn try_from(raw: u8) -> (r: Result<u7, ConversionError>)
        ensures
            r is Ok <==> raw <= 0x7f,
            r matches Ok(v) ==> v.value() == raw,
    {
        let trunc = raw & 0x7f;
        assert(raw & 0x7f == raw <==> raw <= 0x7f) by (bit_vector);
        if trunc == raw {
            Ok(u7(trunc))
        } else {
            Err(ConversionError)
        }
    }

    /// The number this value holds.
    pub fn get(&self) -> (r: u8)
        ensures
            r == self.value(),
    {
        self.0
    }
}

impl core::ops::Deref for u7 {
    type Target = u8;

    fn deref(&self) -> (r: &u8)
        ensures
            *r == self.value(),
    {
        &self.0
    }
}

impl From<u7> for u8 {
    fn from(value: u7) -> (r: u8)
        ensures
            r == value.value(),
    {
        value.0
    }
}

impl vstd::std_specs::convert::FromSpecImpl<u7> for u8 {
    open spec fn obeys_from_spec() -> bool {
        true
    }

    open spec fn from_spec(v: u7) -> u8 {
        v.value()
    }
}

/// An unsigned integer of 14 bits, held in a `u16`.
#[derive(Copy, Clone, Debug, PartialEq, Eq, PartialOrd, Ord, Hash)]
#[allow(non_camel_case_types)]
pub struct u14le(u16);

impl u14le {
    /// The largest value of this type.
    pub fn max_value() -> (r: u14le)
        ensures
            r.value() == 0x3fff,
    {
        u14le(0x3fff)
    }

    /// The number this value holds.
    pub closed spec fn value(self) -> u16 {
        self.0
    }

    /// The value holding `raw`, whatever `raw` is.
    pub closed spec fn spec_from_raw(raw: u16) -> u14le {
        u14le(raw)
    }

    /// A value is determined by the number it holds.
    pub proof fn lemma_from_raw(raw: u16, v: u14le)
        ensures
            #[trigger] Self::spec_from_raw(raw).value() == raw,
            v.value() == raw ==> v == Self::spec_from_raw(raw),
    {
    }

    /// The value of `MAX`.
    pub open spec fn spec_max() -> u16 {
        0x3fff
    }

    /// The value `raw`, where it fits in 14 bits.
    pub fn new(value: u16) -> (r: Option<u14le>)
        ensures
            r is Some <==> value <= 0x3fff,
            r matches Some(v) ==> v.value() == value,
    {
        match Self::try_from(value) {
            Ok(v) => Some(v),
            Err(_) => None,
        }
    }

    /// The low 14 bits of `value`.
    pub fn new_lossy(value: u16) -> (r: u14le)
        ensures
            r.value() == value % 0x4000,
    {
        assert(value & 0x3fff == value % 0x4000) by (bit_vector);
        Self(value & 0x3fff)
    }

    /// The value `raw`, or `ConversionError` where it does not fit in 14 bits.
    pub fn try_from(raw: u16) -> (r: Result<u14le, ConversionError>)
        ensures
            r is Ok <==> raw <= 0x3fff,
            r matches Ok(v) ==> v.value() == raw,
    {
        let trunc = raw & 0x3fff;
        assert(raw & 0x3fff == raw <==> raw <= 0x3fff) by (bit_vector);
        if trunc == raw {
            Ok(u14le(trunc))
        } else {
            Err(ConversionError)
        }
    }

    /// The number this value holds.
    pub fn get(&self) -> (r: u16)
        ensures
            r == self.value(),
    {
        self.0
    }
}

impl core::ops::Deref for u14le {
    type Target = u16;

    fn deref(&self) -> (r: &u16)
        ensures
            *r == self.value(),
    {
        &self.0
    }
}

impl From<u14le> for u16 {
    fn from(value: u14le) -> (r: u16)
        ensures
            r == value.value(),
    {
        value.0
    }
}

impl vstd::std_specs::convert::FromSpecImpl<u14le> for u16 {
    open spec fn obeys_from_spec() -> bool {
        true
    }

    open spec fn from_spec(v: u14le) -> u16 {
        v.value()
    }
}

/// An unsigned integer of 15 bits, held in a `u16`.
#[derive(Copy, Clone, Debug, PartialEq, Eq, PartialOrd, Ord, Hash)]
#[allow(non_camel_case_types)]
pub struct u15le(u16);

impl u15le {
    /// The largest value of this type.
    pub fn max_value() -> (r: u15le)
        ensures
            r.value() == 0x7fff,
    {
        u15le(0x7fff)
    }

    /// The number this value holds.
    pub closed spec fn value(self) -> u16 {
        self.0
    }

    /// The value holding `raw`, whatever `raw` is.
    pub closed spec fn spec_from_raw(raw: u16) -> u15le {
        u15le(raw)
    }

    /// A value is determined by the number it holds.
    pub proof fn lemma_from_raw(raw: u16, v: u15le)
        ensures
            #[trigger] Self::spec_from_raw(raw).value() == raw,
            v.value() == raw ==> v == Self::spec_from_raw(raw),
    {
    }

    /// The value of `MAX`.
    pub open spec fn spec_max() -> u16 {
        0x7fff
    }

    /// The value `raw`, where it fits in 15 bits.
    pub fn new(value: u16) -> (r: Option<u15le>)
        ensures
            r is Some <==> value <= 0x7fff,
            r matches Some(v) ==> v.value() == value,
    {
        match Self::try_from(value) {
            Ok(v) => Some(v),
            Err(_) => None,
        }
    }

    /// The low 15 bits of `value`.
    pub fn new_lossy(value: u16) -> (r: u15le)
        ensures
            r.value() == value % 0x8000,
    {
        assert(value & 0x7fff == value % 0x8000) by (bit_vector);
        Self(value & 0x7fff)
    }

    /// The value `raw`, or `ConversionError` where it does not fit in 15 bits.
    pub fn try_from(raw: u16) -> (r: Result<u15le, ConversionError>)
        ensures
            r is Ok <==> raw <= 0x7fff,
            r matches Ok(v) ==> v.value() == raw,
    {
        let trunc = raw & 0x7fff;
        assert(raw & 0x7fff == raw <==> raw <= 0x7fff) by (bit_vector);
        if trunc == raw {
            Ok(u15le(trunc))
        } else {
            Err(ConversionError)
        }
    }

    /// The number this value holds.
    pub fn get(&self) -> (r: u16)
        ensures
            r == self.value(),
    {
        self.0
    }
}

impl core::ops::Deref for u15le {
    type Target = u16;

    fn deref(&self) -> (r: &u16)
        ensures
            *r == self.value(),
    {
        &self.0
    }
}

impl From<u15le> for u16 {
    fn from(value: u15le) -> (r: u16)
        ensures
            r == value.value(),
    {
        value.0
    }
}

impl vstd::std_specs::convert::FromSpecImpl<u15le> for u16 {
    open spec fn obeys_from_spec() -> bool {
        true
    }

    open spec fn from_spec(v: u15le) -> u16 {
        v.value()
    }
}

/// An unsigned integer of 15 bits, held in a `u16`.
#[derive(Copy, Clone, Debug, PartialEq, Eq, PartialOrd, Ord, Hash)]
#[allow(non_camel_case_types)]
pub struct u15be(u16);

impl u15be {
    /// The largest value of this type.
    pub fn max_value() -> (r: u15be)
        ensures
            r.value() == 0x7fff,
    {
        u15be(0x7fff)
    }

    /// The number this value holds.
    pub closed spec fn value(self) -> u16 {
        self.0
    }

    /// The value holding `raw`, whatever `raw` is.
    pub closed spec fn spec_from_raw(raw: u16) -> u15be {
        u15be(raw)
    }

    /// A value is determined by the number it holds.
    pub proof fn lemma_from_raw(raw: u16, v: u15be)
        ensures
            #[trigger] Self::spec_from_raw(raw).value() == raw,
            v.value() == raw ==> v == Self::spec_from_raw(raw),
    {
    }

    /// The value of `MAX`.
    pub open spec fn spec_max() -> u16 {
        0x7fff
    }

    /// The value `raw`, where it fits in 15 bits.
    pub fn new(value: u16) -> (r: Option<u15be>)
        ensures
            r is Some <==> value <= 0x7fff,
            r matches Some(v) ==> v.value() == value,
    {
        match Self::try_from(value) {
            Ok(v) => Some(v),
            Err(_) => None,
        }
    }

    /// The low 15 bits of `value`.
    pub fn new_lossy(value: u16) -> (r: u15be)
        ensures
            r.value() == value % 0x8000,
    {
        assert(value & 0x7fff == value % 0x8000) by (bit_vector);
        Self(value & 0x7fff)
    }

    /// The value `raw`, or `ConversionError` where it does not fit in 15 bits.
    pub fn try_from(raw: u16) -> (r: Result<u15be, ConversionError>)
        ensures
            r is Ok <==> raw <= 0x7fff,
            r matches Ok(v) ==> v.value() == raw,
    {
        let trunc = raw & 0x7fff;
        assert(raw & 0x7fff == raw <==> raw <= 0x7fff) by (bit_vector);
        if trunc == raw {
            Ok(u15be(trunc))
        } else {
            Err(ConversionError)
        }
    }

    /// The number this value holds.
    pub fn get(&self) -> (r: u16)
        ensures
            r == self.value(),
    {
        self.0
    }
}

impl core::ops::Deref for u15be {
    type Target = u16;

    fn deref(&self) -> (r: &u16)
        ensures
            *r == self.value(),
    {
        &self.0
    }
}

impl From<u15be> for u16 {
    fn from(value: u15be) -> (r: u16)
        ensures
            r == value.value(),
    {
        value.0
    }
}

impl vstd::std_specs::convert::FromSpecImpl<u15be> for u16 {
    open spec fn obeys_from_spec() -> bool {
        true
    }

    open spec fn from_spec(v: u15be) -> u16 {
        v.value()
    }
}

/// An unsigned integer of 16 bits, held in a `u16`.
#[derive(Copy, Clone, Debug, PartialEq, Eq, PartialOrd, Ord, Hash)]
#[allow(non_camel_case_types)]
pub struct u16le(u16);

impl u16le {
    /// The largest value of this type.
    pub fn max_value() -> (r: u16le)
        ensures
            r.value() == 0xffff,
    {
        u16le(0xffff)
    }

    /// The number this value holds.
    pub closed spec fn value(self) -> u16 {
        self.0
    }

    /// The value holding `raw`, whatever `raw` is.
    pub closed spec fn spec_from_raw(raw: u16) -> u16le {
        u16le(raw)
    }

    /// A value is determined by the number it holds.
    pub proof fn lemma_from_raw(raw: u16, v: u16le)
        ensures
            #[trigger] Self::spec_from_raw(raw).value() == raw,
            v.value() == raw ==> v == Self::spec_from_raw(raw),
    {
    }

    /// The value of `MAX`.
    pub open spec fn spec_max() -> u16 {
        0xffff
    }

    /// The value `raw`, where it fits in 16 bits.
    pub fn new(value: u16) -> (r: Option<u16le>)
        ensures
            r is Some <==> value <= 0xffff,
            r matches Some(v) ==> v.value() == value,
    {
        match Self::try_from(value) {
            Ok(v) => Some(v),
            Err(_) => None,
        }
    }

    /// The low 16 bits of `value`.
    pub fn new_lossy(value: u16) -> (r: u16le)
        ensures
            r.value() == value,
    {
        Self(value)
    }

    /// The value `raw`, or `ConversionError` where it does not fit in 16 bits.
    pub fn try_from(raw: u16) -> (r: Result<u16le, ConversionError>)
        ensures
            r is Ok <==> raw <= 0xffff,
            r matches Ok(v) ==> v.value() == raw,
    {
        Ok(u16le(raw))
    }

    /// The number this value holds.
    pub fn get(&self) -> (r: u16)
        ensures
            r == self.value(),
    {
        self.0
    }
}

impl core::ops::Deref for u16le {
    type Target = u16;

    fn deref(&self) -> (r: &u16)
        ensures
            *r == self.value(),
    {
        &self.0
    }
}

impl From<u16le> for u16 {
    fn from(value: u16le) -> (r: u16)
        ensures
            r == value.value(),
    {
        value.0
    }
}

impl vstd::std_specs::convert::FromSpecImpl<u16le> for u16 {
    open spec fn obeys_from_spec() -> bool {
        true
    }

    open spec fn from_spec(v: u16le) -> u16 {
        v.value()
    }
}

/// An unsigned integer of 16 bits, held in a `u16`.
#[derive(Copy, Clone, Debug, PartialEq, Eq, PartialOrd, Ord, Hash)]
#[allow(non_camel_case_types)]
pub struct u16be(u16);

impl u16be {
    /// The largest value of this type.
    pub fn max_value() -> (r: u16be)
        ensures
            r.value() == 0xffff,
    {
        u16be(0xffff)
    }

    /// The number this value holds.
    pub closed spec fn value(self) -> u16 {
        self.0
    }

    /// The value holding `raw`, whatever `raw` is.
    pub closed spec fn spec_from_raw(raw: u16) -> u16be {
        u16be(raw)
    }

    /// A value is determined by the number it holds.
    pub proof fn lemma_from_raw(raw: u16, v: u16be)
        ensures
            #[trigger] Self::spec_from_raw(raw).value() == raw,
            v.value() == raw ==> v == Self::spec_from_raw(raw),
    {
    }

    /// The value of `MAX`.
    pub open spec fn spec_max() -> u16 {
        0xffff
    }

    /// The value `raw`, where it fits in 16 bits.
    pub fn new(value: u16) -> (r: Option<u16be>)
        ensures
            r is Some <==> value <= 0xffff,
            r matches Some(v) ==> v.value() == value,
    {
        match Self::try_from(value) {
            Ok(v) => Some(v),
            Err(_) => None,
        }
    }

    /// The low 16 bits of `value`.
    pub fn new_lossy(value: u16) -> (r: u16be)
        ensures
            r.value() == value,
    {
        Self(value)
    }

    /// The value `raw`, or `ConversionError` where it does not fit in 16 bits.
    pub fn try_from(raw: u16) -> (r: Result<u16be, ConversionError>)
        ensures
            r is Ok <==> raw <= 0xffff,
            r matches Ok(v) ==> v.value() == raw,
    {
        Ok(u16be(raw))
    }

    /// The number this value holds.
    pub fn get(&self) -> (r: u16)
        ensures
            r == self.value(),
    {
        self.0
    }
}

impl core::ops::Deref for u16be {
    type Target = u16;

    fn deref(&self) -> (r: &u16)
        ensures
            *r == self.value(),
    {
        &self.0
    }
}

impl From<u16be> for u16 {
    fn from(value: u16be) -> (r: u16)
        ensures
            r == value.value(),
    {
        value.0
    }
}

impl vstd::std_specs::convert::FromSpecImpl<u16be> for u16 {
    open spec fn obeys_from_spec() -> bool {
        true
    }

    open spec fn from_spec(v: u16be) -> u16 {
        v.value()
    }
}

/// An unsigned integer of 24 bits, held in a `u32`.
#[derive(Copy, Clone, Debug, PartialEq, Eq, PartialOrd, Ord, Hash)]
#[allow(non_camel_case_types)]
pub struct u24be(u32);

impl u24be {
    /// The largest value of this type.
    pub fn max_value() -> (r: u24be)
        ensures
            r.value() == 0xff_ffff,
    {
        u24be(0xff_ffff)
    }

    /// The number this value holds.
    pub closed spec fn value(self) -> u32 {
        self.0
    }

    /// The value holding `raw`, whatever `raw` is.
    pub closed spec fn spec_from_raw(raw: u32) -> u24be {
        u24be(raw)
    }

    /// A value is determined by the number it holds.
    pub proof fn lemma_from_raw(raw: u32, v: u24be)
        ensures
            #[trigger] Self::spec_from_raw(raw).value() == raw,
            v.value() == raw ==> v == Self::spec_from_raw(raw),
    {
    }

    /// The value of `MAX`.
    pub open spec fn spec_max() -> u32 {
        0xff_ffff
    }

    /// The value `raw`, where it fits in 24 bits.
    pub fn new(value: u32) -> (r: Option<u24be>)
        ensures
            r is Some <==> value <= 0xff_ffff,
            r matches Some(v) ==> v.value() == value,
    {
        match Self::try_from(value) {
            Ok(v) => Some(v),
            Err(_) => None,
        }
    }

    /// The low 24 bits of `value`.
    pub fn new_lossy(value: u32) -> (r: u24be)
        ensures
            r.value() == value % 0x1000000,
    {
        assert(value & 0xff_ffff == value % 0x1000000) by (bit_vector);
        Self(value & 0xff_ffff)
    }

    /// The value `raw`, or `ConversionError` where it does not fit in 24 bits.
    pub fn try_from(raw: u32) -> (r: Result<u24be, ConversionError>)
        ensures
            r is Ok <==> raw <= 0xff_ffff,
            r matches Ok(v) ==> v.value() == raw,
    {
        let trunc = raw & 0xff_ffff;
        assert(raw & 0xff_ffff == raw <==> raw <= 0xff_ffff) by (bit_vector);
        if trunc == raw {
            Ok(u24be(trunc))
        } else {
            Err(ConversionError)
        }
    }

    /// The number this value holds.
    pub fn get(&self) -> (r: u32)
        ensures
            r == self.value(),
    {
        self.0
    }
}

impl core::ops::Deref for u24be {
    type Target = u32;

    fn deref(&self) -> (r: &u32)
        ensures
            *r == self.value(),
    {
        &self.0
    }
}

impl From<u24be> for u32 {
    fn from(value: u24be) -> (r: u32)
        ensures
            r == value.value(),
    {
        value.0
    }
}

impl vstd::std_specs::convert::FromSpecImpl<u24be> for u32 {
    open spec fn obeys_from_spec() -> bool {
        true
    }

    open spec fn from_spec(v: u24be) -> u32 {
        v.value()
    }
}

/// An unsigned integer of 28 bits, held in a `u32`.
#[derive(Copy, Clone, Debug, PartialEq, Eq, PartialOrd, Ord, Hash)]
#[allow(non_camel_case_types)]
pub struct u28varint(u32);

impl u28varint {
    /// Every value of this type fits in 28 bits.
    #[verifier::type_invariant]
    pub closed spec fn fits(self) -> bool {
        self.0 <= 0xfff_ffff
    }

    /// The largest value of this type.
    pub fn max_value() -> (r: u28varint)
        ensures
            r.value() == 0xfff_ffff,
    {
        u28varint(0xfff_ffff)
    }

    /// The number this value holds.
    pub closed spec fn value(self) -> u32 {
        self.0
    }

    /// The value holding `raw`, whatever `raw` is.
    pub closed spec fn spec_from_raw(raw: u32) -> u28varint {
        u28varint(raw)
    }

    /// A value is determined by the number it holds.
    pub proof fn lemma_from_raw(raw: u32, v: u28varint)
        ensures
            #[trigger] Self::spec_from_raw(raw).value() == raw,
            v.value() == raw ==> v == Self::spec_from_raw(raw),
    {
    }

    /// The value of `MAX`.
    pub open spec fn spec_max() -> u32 {
        0xfff_ffff
    }

    /// The value `raw`, where it fits in 28 bits.
    pub fn new(value: u32) -> (r: Option<u28varint>)
        ensures
            r is Some <==> value <= 0xfff_ffff,
            r matches Some(v) ==> v.value() == value,
    {
        match Self::try_from(value) {
            Ok(v) => Some(v),
            Err(_) => None,
        }
    }

    /// The low 28 bits of `value`.
    pub fn new_lossy(value: u32) -> (r: u28varint)
        ensures
            r.value() == value % 0x10000000,
    {
        assert(value & 0xfff_ffff == value % 0x10000000) by (bit_vector);
        assert(value & 0xfff_ffff <= 0xfff_ffff) by (bit_vector);
        Self(value & 0xfff_ffff)
    }

    /// The value `raw`, or `ConversionError` where it does not fit in 28 bits.
    pub fn try_from(raw: u32) -> (r: Result<u28varint, ConversionError>)
        ensures
            r is Ok <==> raw <= 0xfff_ffff,
            r matches Ok(v) ==> v.value() == raw,
    {
        let trunc = raw & 0xfff_ffff;
        assert(raw & 0xfff_ffff == raw <==> raw <= 0xfff_ffff) by (bit_vector);
        if trunc == raw {
            Ok(u28varint(trunc))
        } else {
            Err(ConversionError)
        }
    }

    /// The number this value holds.
    pub fn get(&self) -> (r: u32)
        ensures
            r == self.value(),
    {
        self.0
    }
}

impl core::ops::Deref for u28varint {
    type Target = u32;

    fn deref(&self) -> (r: &u32)
        ensures
            *r == self.value(),
    {
        &self.0
    }
}

impl From<u28varint> for u32 {
    fn from(value: u28varint) -> (r: u32)
        ensures
            r == value.value(),
    {
        value.0
    }
}

impl vstd::std_specs::convert::FromSpecImpl<u28varint> for u32 {
    open spec fn obeys_from_spec() -> bool {
        true
    }

    open spec fn from_spec(v: u28varint) -> u32 {
        v.value()
    }
}

/// An unsigned integer of 32 bits, held in a `u32`.
#[derive(Copy, Clone, Debug, PartialEq, Eq, PartialOrd, Ord, Hash)]
#[allow(non_camel_case_types)]
pub struct u32be(u32);

impl u32be {
    /// The largest value of this type.
    pub fn max_value() -> (r: u32be)
        ensures
            r.value() == 0xffff_ffff,
    {
        u32be(0xffff_ffff)
    }

    /// The number this value holds.
    pub closed spec fn value(self) -> u32 {
        self.0
    }

    /// The value holding `raw`, whatever `raw` is.
    pub closed spec fn spec_from_raw(raw: u32) -> u32be {
        u32be(raw)
    }

    /// A value is determined by the number it holds.
    pub proof fn lemma_from_raw(raw: u32, v: u32be)
        ensures
            #[trigger] Self::spec_from_raw(raw).value() == raw,
            v.value() == raw ==> v == Self::spec_from_raw(raw),
    {
    }

    /// The value of `MAX`.
    pub open spec fn spec_max() -> u32 {
        0xffff_ffff
    }

    /// The value `raw`, where it fits in 32 bits.
    pub fn new(value: u32) -> (r: Option<u32be>)
        ensures
            r is Some <==> value <= 0xffff_ffff,
            r matches Some(v) ==> v.value() == value,
    {
        match Self::try_from(value) {
            Ok(v) => Some(v),
            Err(_) => None,
        }
    }

    /// The low 32 bits of `value`.
    pub fn new_lossy(value: u32) -> (r: u32be)
        ensures
            r.value() == value,
    {
        Self(value)
    }

    /// The value `raw`, or `ConversionError` where it does not fit in 32 bits.
    pub fn try_from(raw: u32) -> (r: Result<u32be, ConversionError>)
        ensures
            r is Ok <==> raw <= 0xffff_ffff,
            r matches Ok(v) ==> v.value() == raw,
    {
        Ok(u32be(raw))
    }

    /// The number this value holds.
    pub fn get(&self) -> (r: u32)
        ensures
            r == self.value(),
    {
        self.0
    }
}

impl core::ops::Deref for u32be {
    type Target = u32;

    fn deref(&self) -> (r: &u32)
        ensures
            *r == self.value(),
    {
        &self.0
    }
}

impl From<u32be> for u32 {
    fn from(value: u32be) -> (r: u32)
        ensures
            r == value.value(),
    {
        value.0
    }
}

impl vstd::std_specs::convert::FromSpecImpl<u32be> for u32 {
    open spec fn obeys_from_spec() -> bool {
        true
    }

    open spec fn from_spec(v: u32be) -> u32 {
        v.value()
    }
}

impl MIDIValue for u7 {
    open spec fn spec_encoding(&self) -> Seq<u8> {
        seq![self.value()]
    }

    open spec fn spec_decode(bytes: Seq<u8>) -> (Result<u7, DecoderError>, nat) {
        if bytes.len() == 0 {
            (Err(DecoderError::EOF), 0)
        } else if bytes[0] <= 0x7f {
            (Ok(u7::spec_from_raw(bytes[0])), 1)
        } else {
            (Err(DecoderError::InvariantViolation("Integer overflow")), 1)
        }
    }

    fn decode<B: DecoderBuffer>(buffer: &mut B) -> (r: Result<u7, DecoderError>) {
        match u7::try_from(buffer.next_byte()?) {
            Ok(value) => Ok(value),
            Err(_) => Err(DecoderError::InvariantViolation("Integer overflow")),
        }
    }

    fn encode<B: EncoderBuffer>(&self, buffer: &mut B) -> (r: Result<(), B::Error>) {
        buffer.write_byte(self.0)
    }

    fn encoding_len(&self) -> (n: usize) {
        1
    }
}

impl MIDIValue for u8 {
    open spec fn spec_encoding(&self) -> Seq<u8> {
        seq![*self]
    }

    open spec fn spec_decode(bytes: Seq<u8>) -> (Result<u8, DecoderError>, nat) {
        if bytes.len() == 0 {
            (Err(DecoderError::EOF), 0)
        } else {
            (Ok(bytes[0]), 1)
        }
    }

    fn decode<B: DecoderBuffer>(buffer: &mut B) -> (r: Result<u8, DecoderError>) {
        buffer.next_byte()
    }

    fn encode<B: EncoderBuffer>(&self, buffer: &mut B) -> (r: Result<(), B::Error>) {
        buffer.write_byte(*self)
    }

    fn encoding_len(&self) -> (n: usize) {
        1
    }
}

impl MIDIValue for u14le {
    /// Low seven bits first, then the next seven.
    open spec fn spec_encoding(&self) -> Seq<u8> {
        seq![(self.value() % 128) as u8, ((self.value() / 128) % 128) as u8]
    }

    open spec fn spec_decode(bytes: Seq<u8>) -> (Result<u14le, DecoderError>, nat) {
        if bytes.len() == 0 {
            (Err(DecoderError::EOF), 0)
        } else if bytes[0] > 0x7f {
            (Err(DecoderError::InvariantViolation("Integer overflow")), 1)
        } else if bytes.len() == 1 {
            (Err(DecoderError::EOF), 1)
        } else if bytes[1] > 0x7f {
            (Err(DecoderError::InvariantViolation("Integer overflow")), 2)
        } else {
            (Ok(u14le::spec_from_raw((bytes[1] * 128 + bytes[0]) as u16)), 2)
        }
    }

    fn decode<B: DecoderBuffer>(buffer: &mut B) -> (r: Result<u14le, DecoderError>) {
        let ghost bytes = buffer.remaining();
        let lsb = (*buffer.decode::<u7>()?) as u16;
        proof {
            assert(bytes.skip(1) == bytes.drop_first());
        }
        let m = *buffer.decode::<u7>()?;
        assert(m < 128 ==> (m as u16) << 7 == (m as u16) * 128) by (bit_vector);
        let msb = (m as u16) << 7;
        proof {
            assert(bytes.skip(1).skip(1) == bytes.skip(2));
        }
        Ok(Self(msb + lsb))
    }

    fn encode<B: EncoderBuffer>(&self, buffer: &mut B) -> (r: Result<(), B::Error>) {
        let v = self.0;
        assert((v as u8) % 128 == v % 128) by (bit_vector);
        assert(((v >> 7) as u8) % 128 == (v / 128) % 128) by (bit_vector);
        buffer.encode(&u7::new_lossy(self.0 as u8))?;
        buffer.encode(&u7::new_lossy((self.0 >> 7) as u8))?;
        Ok(())
    }

    fn encoding_len(&self) -> (n: usize) {
        2
    }
}

impl MIDIValue for u15le {
    /// Low byte first.
    open spec fn spec_encoding(&self) -> Seq<u8> {
        seq![(self.value() % 256) as u8, (self.value() / 256) as u8]
    }

    open spec fn spec_decode(bytes: Seq<u8>) -> (Result<u15le, DecoderError>, nat) {
        if bytes.len() < 2 {
            (Err(DecoderError::EOF), bytes.len())
        } else {
            (Ok(u15le::spec_from_raw((bytes[0] + bytes[1] * 256) as u16)), 2)
        }
    }

    fn decode<B: DecoderBuffer>(buffer: &mut B) -> (r: Result<u15le, DecoderError>) {
        let bytes = buffer.decode::<[u8; 2]>()?;
        let a = bytes[0];
        let b = bytes[1];
        Ok(Self(a as u16 + (b as u16) * 256))
    }

    fn encode<B: EncoderBuffer>(&self, buffer: &mut B) -> (r: Result<(), B::Error>) {
        let bytes = [(self.0 % 256) as u8, (self.0 / 256) as u8];
        assert(bytes@ == self.spec_encoding());
        buffer.write_bytes(&bytes)
    }

    fn encoding_len(&self) -> (n: usize) {
        2
    }
}

impl MIDIValue for u16le {
    /// Low byte first.
    open spec fn spec_encoding(&self) -> Seq<u8> {
        seq![(self.value() % 256) as u8, (self.value() / 256) as u8]
    }

    open spec fn spec_decode(bytes: Seq<u8>) -> (Result<u16le, DecoderError>, nat) {
        if bytes.len() < 2 {
            (Err(DecoderError::EOF), bytes.len())
        } else {
            (Ok(u16le::spec_from_raw((bytes[0] + bytes[1] * 256) as u16)), 2)
        }
    }

    fn decode<B: DecoderBuffer>(buffer: &mut B) -> (r: Result<u16le, DecoderError>) {
        let bytes = buffer.decode::<[u8; 2]>()?;
        let a = bytes[0];
        let b = bytes[1];
        Ok(Self(a as u16 + (b as u16) * 256))
    }

    fn encode<B: EncoderBuffer>(&self, buffer: &mut B) -> (r: Result<(), B::Error>) {
        let bytes = [(self.0 % 256) as u8, (self.0 / 256) as u8];
        assert(bytes@ == self.spec_encoding());
        buffer.write_bytes(&bytes)
    }

    fn encoding_len(&self) -> (n: usize) {
        2
    }
}

impl MIDIValue for u15be {
    /// High byte first.
    open spec fn spec_encoding(&self) -> Seq<u8> {
        seq![(self.value() / 256) as u8, (self.value() % 256) as u8]
    }

    open spec fn spec_decode(bytes: Seq<u8>) -> (Result<u15be, DecoderError>, nat) {
        if bytes.len() < 2 {
            (Err(DecoderError::EOF), bytes.len())
        } else {
            (Ok(u15be::spec_from_raw((bytes[0] * 256 + bytes[1]) as u16)), 2)
        }
    }

    fn decode<B: DecoderBuffer>(buffer: &mut B) -> (r: Result<u15be, DecoderError>) {
        let bytes = buffer.decode::<[u8; 2]>()?;
        let a = bytes[0];
        let b = bytes[1];
        Ok(Self((a as u16) * 256 + b as u16))
    }

    fn encode<B: EncoderBuffer>(&self, buffer: &mut B) -> (r: Result<(), B::Error>) {
        let bytes = [(self.0 / 256) as u8, (self.0 % 256) as u8];
        assert(bytes@ == self.spec_encoding());
        buffer.write_bytes(&bytes)
    }

    fn encoding_len(&self) -> (n: usize) {
        2
    }
}

impl MIDIValue for u16be {
    /// High byte first.
    open spec fn spec_encoding(&self) -> Seq<u8> {
        seq![(self.value() / 256) as u8, (self.value() % 256) as u8]
    }

    open spec fn spec_decode(bytes: Seq<u8>) -> (Result<u16be, DecoderError>, nat) {
        if bytes.len() < 2 {
            (Err(DecoderError::EOF), bytes.len())
        } else {
            (Ok(u16be::spec_from_raw((bytes[0] * 256 + bytes[1]) as u16)), 2)
        }
    }

    fn decode<B: DecoderBuffer>(buffer: &mut B) -> (r: Result<u16be, DecoderError>) {
        let bytes = buffer.decode::<[u8; 2]>()?;
        let a = bytes[0];
        let b = bytes[1];
        Ok(Self((a as u16) * 256 + b as u16))
    }

    fn encode<B: EncoderBuffer>(&self, buffer: &mut B) -> (r: Result<(), B::Error>) {
        let bytes = [(self.0 / 256) as u8, (self.0 % 256) as u8];
        assert(bytes@ == self.spec_encoding());
        buffer.write_bytes(&bytes)
    }

    fn encoding_len(&self) -> (n: usize) {
        2
    }
}

impl MIDIValue for u24be {
    /// The low three bytes, high byte first.
    open spec fn spec_encoding(&self) -> Seq<u8> {
        seq![
            ((self.value() / 65536) % 256) as u8,
            ((self.value() / 256) % 256) as u8,
            (self.value() % 256) as u8,
        ]
    }

    open spec fn spec_decode(bytes: Seq<u8>) -> (Result<u24be, DecoderError>, nat) {
        if bytes.len() < 3 {
            (Err(DecoderError::EOF), bytes.len())
        } else {
            (Ok(u24be::spec_from_raw((bytes[0] * 65536 + bytes[1] * 256 + bytes[2]) as u32)), 3)
        }
    }

    fn decode<B: DecoderBuffer>(buffer: &mut B) -> (r: Result<u24be, DecoderError>) {
        let bytes = buffer.decode::<[u8; 3]>()?;
        let a = bytes[0];
        let b = bytes[1];
        let c = bytes[2];
        Ok(Self((a as u32) * 65536 + (b as u32) * 256 + c as u32))
    }

    fn encode<B: EncoderBuffer>(&self, buffer: &mut B) -> (r: Result<(), B::Error>) {
        let v = self.0;
        let bytes = [((v / 65536) % 256) as u8, ((v / 256) % 256) as u8, (v % 256) as u8];
        assert(bytes@ == self.spec_encoding());
        buffer.write_bytes(&bytes)
    }

    fn encoding_len(&self) -> (n: usize) {
        3
    }
}

impl MIDIValue for u32be {
    /// High byte first.
    open spec fn spec_encoding(&self) -> Seq<u8> {
        seq![
            (self.value() / 16777216) as u8,
            ((self.value() / 65536) % 256) as u8,
            ((self.value() / 256) % 256) as u8,
            (self.value() % 256) as u8,
        ]
    }

    open spec fn spec_decode(bytes: Seq<u8>) -> (Result<u32be, DecoderError>, nat) {
        if bytes.len() < 4 {
            (Err(DecoderError::EOF), bytes.len())
        } else {
            (Ok(u32be::spec_from_raw(
                (bytes[0] * 16777216 + bytes[1] * 65536 + bytes[2] * 256 + bytes[3]) as u32,
            )), 4)
        }
    }

    fn decode<B: DecoderBuffer>(buffer: &mut B) -> (r: Result<u32be, DecoderError>) {
        let bytes = buffer.decode::<[u8; 4]>()?;
        let a = bytes[0];
        let b = bytes[1];
        let c = bytes[2];
        let d = bytes[3];
        Ok(Self((a as u32) * 16777216 + (b as u32) * 65536 + (c as u32) * 256 + d as u32))
    }

    fn encode<B: EncoderBuffer>(&self, buffer: &mut B) -> (r: Result<(), B::Error>) {
        let v = self.0;
        let bytes = [
            (v / 16777216) as u8,
            ((v / 65536) % 256) as u8,
            ((v / 256) % 256) as u8,
            (v % 256) as u8,
        ];
        assert(bytes@ == self.spec_encoding());
        buffer.write_bytes(&bytes)
    }

    fn encoding_len(&self) -> (n: usize) {
        4
    }
}

/// The `i`-th group of seven bits of `v`, counting from the least significant.
pub open spec fn varint_group(v: u32, i: nat) -> u8 {
    ((v as int / pow128(i)) % 128) as u8
}

pub open spec fn pow128(i: nat) -> int
    decreases i,
{
    if i == 0 {
        1
    } else {
        128 * pow128((i - 1) as nat)
    }
}

/// The bytes that the groups below `i` contribute, most significant first,
/// where `started` says whether a nonzero group was already emitted.
/// Leading zero groups are left out; every byte but the one of group 0
/// carries the continuation bit.
pub open spec fn varint_bytes_from(v: u32, i: nat, started: bool) -> Seq<u8>
    decreases i,
{
    if i == 0 {
        seq![]
    } else {
        let g = (i - 1) as nat;
        let byte = varint_group(v, g);
        if started || byte != 0 {
            seq![if g > 0 { (byte + 128) as u8 } else { byte }] + varint_bytes_from(v, g, true)
        } else {
            varint_bytes_from(v, g, false)
        }
    }
}

/// Reads a variable-length quantity from `bytes`, starting at index `i` with
/// the value `acc` accumulated so far.
pub open spec fn varint_decode_from(bytes: Seq<u8>, acc: int, i: nat) -> (
    Result<u28varint, DecoderError>,
    nat,
)
    decreases 4 - i,
{
    if i >= 4 {
        (Err(DecoderError::InvariantViolation("varint value overflow")), 4)
    } else if bytes.len() <= i {
        (Err(DecoderError::EOF), i)
    } else {
        let byte = bytes[i as int];
        let acc2 = acc * 128 + byte % 128;
        if byte < 128 {
            (Ok(u28varint::spec_from_raw(acc2 as u32)), i + 1)
        } else {
            varint_decode_from(bytes, acc2, i + 1)
        }
    }
}

impl u28varint {
    /// The significant groups of seven bits, most significant first.
    pub open spec fn spec_bytes(self) -> Seq<u8> {
        varint_bytes_from(self.value(), 4, false)
    }

    fn bytes(&self) -> (r: Vec<u8>)
        ensures
            r@ == self.spec_bytes(),
    {
        let value: u32 = self.0;
        let mut has_value = false;
        let mut out: Vec<u8> = Vec::new();
        let mut i: usize = 4;
        let mut divisor: u32 = 2097152;
        proof {
            reveal_with_fuel(pow128, 4);
        }
        while i > 0
            invariant
                i <= 4,
                i > 0 ==> divisor as int == pow128((i - 1) as nat),
                out@ + varint_bytes_from(value, i as nat, has_value) == varint_bytes_from(
                    value,
                    4,
                    false,
                ),
            decreases i,
        {
            proof {
                reveal_with_fuel(pow128, 4);
            }
            i = i - 1;
            let byte = ((value / divisor) % 128) as u8;
            if has_value || byte != 0 {
                has_value = true;
                let mask: u8 = if i > 0 {
                    0x80
                } else {
                    0
                };
                assert(byte < 128 ==> byte | 0x80u8 == byte + 128) by (bit_vector);
                assert(byte | 0u8 == byte) by (bit_vector);
                let ghost before = out@;
                out.push(byte | mask);
                proof {
                    assert(out@ == before + seq![byte | mask]);
                }
            }
            if i > 0 {
                divisor = divisor / 128;
            }
        }
        out
    }
}

impl MIDIValue for u28varint {
    /// Zero is the single byte 0; any other value is its significant
    /// seven-bit groups.
    open spec fn spec_encoding(&self) -> Seq<u8> {
        if self.value() == 0 {
            seq![0u8]
        } else {
            self.spec_bytes()
        }
    }

    open spec fn spec_decode(bytes: Seq<u8>) -> (Result<u28varint, DecoderError>, nat) {
        varint_decode_from(bytes, 0, 0)
    }

    fn decode<B: DecoderBuffer>(buffer: &mut B) -> (r: Result<u28varint, DecoderError>) {
        let ghost bytes = buffer.remaining();
        let mut value: u32 = 0;
        let mut i: usize = 0;
        while i < 4
            invariant
                i <= 4,
                bytes == old(buffer).remaining(),
                value < pow128(i as nat),
                buffer.remaining() == bytes.skip(i as int),
                i <= bytes.len(),
                varint_decode_from(bytes, value as int, i as nat) == varint_decode_from(
                    bytes,
                    0,
                    0,
                ),
            decreases 4 - i,
        {
            proof {
                reveal_with_fuel(pow128, 5);
            }
            proof {
                if bytes.len() <= i {
                    assert(bytes.skip(i as int).len() == 0);
                    assert(varint_decode_from(bytes, value as int, i as nat) == (
                        Err::<u28varint, DecoderError>(DecoderError::EOF),
                        i as nat,
                    ));
                }
            }
            let byte = buffer.next_byte()?;
            proof {
                assert(bytes.skip(i as int).drop_first() == bytes.skip(i + 1));
            }
            let low = u7::new_lossy(byte).get() as u32;
            assert(value < 2097152 && low < 128 ==> (value << 7) | low == value * 128 + low)
                by (bit_vector);
            value = (value << 7) | low;
            i = i + 1;
            assert(byte & 0x80 == 0 <==> byte < 128) by (bit_vector);
            if byte & 0x80 == 0 {
                return Ok(u28varint(value));
            }
        }
        Err(DecoderError::InvariantViolation("varint value overflow"))
    }

    fn encode<B: EncoderBuffer>(&self, buffer: &mut B) -> (r: Result<(), B::Error>) {
        if self.0 == 0 {
            return buffer.write_byte(0);
        }
        let bytes = self.bytes();
        let ghost start = buffer.written();
        let mut i: usize = 0;
        while i < bytes.len()
            invariant
                i <= bytes@.len(),
                buffer.written() == start + bytes@.subrange(0, i as int),
            decreases bytes@.len() - i,
        {
            buffer.write_byte(bytes[i])?;
            i = i + 1;
            assert(buffer.written() == start + bytes@.subrange(0, i as int));
        }
        assert(bytes@.subrange(0, bytes@.len() as int) == bytes@);
        Ok(())
    }

    fn encoding_len(&self) -> (n: usize) {
        proof {
            use_type_invariant(self);
            lemma_varint_nonzero_has_bytes(self.value());
        }
        let count = self.bytes().len();
        if count > 1 {
            count
        } else {
            1
        }
    }
}

/// A nonzero value of at most 28 bits has at least one significant group.
pub proof fn lemma_varint_nonzero_has_bytes(v: u32)
    requires
        v <= 0xfff_ffff,
    ensures
        v != 0 ==> varint_bytes_from(v, 4, false).len() >= 1,
        v == 0 ==> varint_bytes_from(v, 4, false).len() == 0,
{
    reveal_with_fuel(varint_bytes_from, 5);
    reveal_with_fuel(pow128, 5);
    assert(pow128(1) == 128 && pow128(2) == 16384 && pow128(3) == 2097152);
    if v != 0 {
        if varint_group(v, 3) == 0 && varint_group(v, 2) == 0 && varint_group(v, 1) == 0 {
            assert(v < 2097152);
            assert(v < 16384);
            assert(v < 128);
            assert(pow128(0) == 1);
            assert(v as int / 1 == v);
            assert(varint_group(v, 0) != 0);
        }
    }
}

/// Decoding the encoding of a 7-bit value, followed by anything, gives the value
/// back and takes exactly its encoding.
pub proof fn lemma_u7_round_trip(v: u7, rest: Seq<u8>)
    requires
        v.value() <= 0x7f,
    ensures
        u7::spec_decode(v.spec_encoding() + rest) == (
            Ok::<u7, DecoderError>(v),
            v.spec_encoding().len(),
        ),
{
}

/// Decoding the encoding of a byte, followed by anything, gives the byte back.
pub proof fn lemma_u8_round_trip(v: u8, rest: Seq<u8>)
    ensures
        u8::spec_decode(v.spec_encoding() + rest) == (
            Ok::<u8, DecoderError>(v),
            v.spec_encoding().len(),
        ),
{
}

/// Decoding the encoding of a 14-bit value, followed by anything, gives the
/// value back and takes exactly its encoding.
pub proof fn lemma_u14le_round_trip(v: u14le, rest: Seq<u8>)
    requires
        v.value() <= 0x3fff,
    ensures
        u14le::spec_decode(v.spec_encoding() + rest) == (
            Ok::<u14le, DecoderError>(v),
            v.spec_encoding().len(),
        ),
{
    let s = v.spec_encoding() + rest;
    assert(s[0] == (v.value() % 128) as u8);
    assert(s[1] == ((v.value() / 128) % 128) as u8);
}

/// Decoding the encoding of a `u15le`, followed by anything, gives the value back.
pub proof fn lemma_u15le_round_trip(v: u15le, rest: Seq<u8>)
    ensures
        u15le::spec_decode(v.spec_encoding() + rest) == (
            Ok::<u15le, DecoderError>(v),
            v.spec_encoding().len(),
        ),
{
    let s = v.spec_encoding() + rest;
    assert(s[0] == (v.value() % 256) as u8 && s[1] == (v.value() / 256) as u8);
}

/// Decoding the encoding of a `u15be`, followed by anything, gives the value back.
pub proof fn lemma_u15be_round_trip(v: u15be, rest: Seq<u8>)
    ensures
        u15be::spec_decode(v.spec_encoding() + rest) == (
            Ok::<u15be, DecoderError>(v),
            v.spec_encoding().len(),
        ),
{
    let s = v.spec_encoding() + rest;
    assert(s[0] == (v.value() / 256) as u8 && s[1] == (v.value() % 256) as u8);
}

/// Decoding the encoding of a `u16le`, followed by anything, gives the value back.
pub proof fn lemma_u16le_round_trip(v: u16le, rest: Seq<u8>)
    ensures
        u16le::spec_decode(v.spec_encoding() + rest) == (
            Ok::<u16le, DecoderError>(v),
            v.spec_encoding().len(),
        ),
{
    let s = v.spec_encoding() + rest;
    assert(s[0] == (v.value() % 256) as u8 && s[1] == (v.value() / 256) as u8);
}

/// Decoding the encoding of a `u16be`, followed by anything, gives the value back.
pub proof fn lemma_u16be_round_trip(v: u16be, rest: Seq<u8>)
    ensures
        u16be::spec_decode(v.spec_encoding() + rest) == (
            Ok::<u16be, DecoderError>(v),
            v.spec_encoding().len(),
        ),
{
    let s = v.spec_encoding() + rest;
    assert(s[0] == (v.value() / 256) as u8 && s[1] == (v.value() % 256) as u8);
}

/// Decoding the encoding of a 24-bit value, followed by anything, gives the
/// value back and takes exactly its encoding.
pub proof fn lemma_u24be_round_trip(v: u24be, rest: Seq<u8>)
    requires
        v.value() <= 0xff_ffff,
    ensures
        u24be::spec_decode(v.spec_encoding() + rest) == (
            Ok::<u24be, DecoderError>(v),
            v.spec_encoding().len(),
        ),
{
    let s = v.spec_encoding() + rest;
    let x = v.value();
    assert(s[0] == ((x / 65536) % 256) as u8);
    assert(s[1] == ((x / 256) % 256) as u8);
    assert(s[2] == (x % 256) as u8);
}

/// Decoding the encoding of a `u32be`, followed by anything, gives the value back.
pub proof fn lemma_u32be_round_trip(v: u32be, rest: Seq<u8>)
    ensures
        u32be::spec_decode(v.spec_encoding() + rest) == (
            Ok::<u32be, DecoderError>(v),
            v.spec_encoding().len(),
        ),
{
    let s = v.spec_encoding() + rest;
    let x = v.value();
    assert(s[0] == (x / 16777216) as u8);
    assert(s[1] == ((x / 65536) % 256) as u8);
    assert(s[2] == ((x / 256) % 256) as u8);
    assert(s[3] == (x % 256) as u8);
}

/// Decoding the encoding of a variable-length quantity, followed by anything,
/// gives the value back and takes exactly its encoding.
pub proof fn lemma_u28varint_round_trip(v: u28varint, rest: Seq<u8>)
    requires
        v.value() <= 0xfff_ffff,
    ensures
        u28varint::spec_decode(v.spec_encoding() + rest) == (
            Ok::<u28varint, DecoderError>(v),
            v.spec_encoding().len(),
        ),
{
    let x = v.value();
    let s = v.spec_encoding() + rest;
    reveal_with_fuel(varint_bytes_from, 5);
    reveal_with_fuel(varint_decode_from, 5);
    reveal_with_fuel(pow128, 5);
    assert(pow128(0) == 1 && pow128(1) == 128 && pow128(2) == 16384 && pow128(3) == 2097152);
    let g0 = varint_group(x, 0);
    let g1 = varint_group(x, 1);
    let g2 = varint_group(x, 2);
    let g3 = varint_group(x, 3);
    assert(x as int / 1 == x);
    if x < 128 {
        assert(g3 == 0 && g2 == 0 && g1 == 0);
        assert(s[0] == x);
    } else if x < 16384 {
        assert(g3 == 0 && g2 == 0 && g1 != 0);
        assert(s[0] == g1 + 128 && s[1] == g0);
        assert(x == g1 * 128 + g0);
    } else if x < 2097152 {
        assert(g3 == 0 && g2 != 0);
        assert(s[0] == g2 + 128 && s[1] == g1 + 128 && s[2] == g0);
        assert(x == (g2 * 128 + g1) * 128 + g0);
    } else {
        assert(g3 != 0);
        assert(s[0] == g3 + 128 && s[1] == g2 + 128 && s[2] == g1 + 128 && s[3] == g0);
        assert(x == ((g3 * 128 + g2) * 128 + g1) * 128 + g0);
    }
}

} // verus!
