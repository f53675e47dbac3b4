use core::marker::PhantomData;
use vstd::prelude::*;
use vstd::string::StringSliceAdditionalSpecFns;

verus! {

/// `n` zero bytes.
pub open spec fn zeros(n: nat) -> Seq<u8> {
    Seq::new(n, |i: int| 0u8)
}

/// `s` followed by one to four zero bytes, so that the whole is a multiple
/// of four bytes long.
pub open spec fn padded(s: Seq<u8>) -> Seq<u8> {
    s + zeros((4 - s.len() % 4) as nat)
}

/// A padded string ends on a four-byte boundary, with at least one zero byte
/// after the string.
pub proof fn lemma_padded_aligned(s: Seq<u8>)
    ensures
        padded(s).len() % 4 == 0,
        s.len() < padded(s).len() <= s.len() + 4,
        padded(s).take(s.len() as int) == s,
        padded(s)[s.len() as int] == 0,
{
    assert(padded(s).take(s.len() as int) =~= s);
}

/// The four bytes of `v`, most significant first.
pub open spec fn be32(v: u32) -> Seq<u8> {
    seq![
        (v / 0x100_0000) as u8,
        ((v / 0x1_0000) % 0x100) as u8,
        ((v / 0x100) % 0x100) as u8,
        (v % 0x100) as u8,
    ]
}

/// The four bytes of a number built from four bytes, most significant first,
/// are those bytes.
pub proof fn lemma_be32_of_bytes(a: u8, b: u8, c: u8, d: u8)
    ensures
        be32((a * 0x100_0000 + b * 0x1_0000 + c * 0x100 + d) as u32) == seq![a, b, c, d],
{
    let v = a * 0x100_0000 + b * 0x1_0000 + c * 0x100 + d;
    assert(v / 0x100_0000 == a) by (nonlinear_arith)
        requires
            v == a * 0x100_0000 + b * 0x1_0000 + c * 0x100 + d,
            a < 256,
            b < 256,
            c < 256,
            d < 256,
    ;
    assert((v / 0x1_0000) % 0x100 == b) by (nonlinear_arith)
        requires
            v == a * 0x100_0000 + b * 0x1_0000 + c * 0x100 + d,
            a < 256,
            b < 256,
            c < 256,
            d < 256,
    ;
    assert((v / 0x100) % 0x100 == c) by (nonlinear_arith)
        requires
            v == a * 0x100_0000 + b * 0x1_0000 + c * 0x100 + d,
            a < 256,
            b < 256,
            c < 256,
            d < 256,
    ;
    assert(v % 0x100 == d) by (nonlinear_arith)
        requires
            v == a * 0x100_0000 + b * 0x1_0000 + c * 0x100 + d,
            a < 256,
            b < 256,
            c < 256,
            d < 256,
    ;
    assert(be32(v as u32) =~= seq![a, b, c, d]);
}

/// Different numbers have different bytes.
pub proof fn lemma_be32_injective(a: u32, b: u32)
    requires
        be32(a) == be32(b),
    ensures
        a == b,
{
    let s = be32(a);
    assert(s[0] * 0x100_0000 + s[1] * 0x1_0000 + s[2] * 0x100 + s[3] == a) by (nonlinear_arith)
        requires
            s[0] == (a / 0x100_0000) as u8,
            s[1] == ((a / 0x1_0000) % 0x100) as u8,
            s[2] == ((a / 0x100) % 0x100) as u8,
            s[3] == (a % 0x100) as u8,
    ;
    assert(s[0] * 0x100_0000 + s[1] * 0x1_0000 + s[2] * 0x100 + s[3] == b) by (nonlinear_arith)
        requires
            s[0] == (b / 0x100_0000) as u8,
            s[1] == ((b / 0x1_0000) % 0x100) as u8,
            s[2] == ((b / 0x100) % 0x100) as u8,
            s[3] == (b % 0x100) as u8,
    ;
}

/// The 32-bit two's complement pattern of `v`.
pub open spec fn i32_bits(v: i32) -> u32 {
    if v >= 0 {
        v as u32
    } else {
        (v + 0x1_0000_0000) as u32
    }
}

/// The four bytes of `v` in two's complement, most significant first.
pub open spec fn i32_bytes(v: i32) -> Seq<u8> {
    be32(i32_bits(v))
}

/// Appends the four bytes of `v`, most significant first.
pub fn push_be32(buffer: &mut Vec<u8>, v: u32)
    ensures
        final(buffer)@ == old(buffer)@ + be32(v),
{
    buffer.push((v / 0x100_0000) as u8);
    buffer.push(((v / 0x1_0000) % 0x100) as u8);
    buffer.push(((v / 0x100) % 0x100) as u8);
    buffer.push((v % 0x100) as u8);
    assert(final(buffer)@ == old(buffer)@ + be32(v));
}

/// Appends the bytes of `bytes` followed by the zero bytes that pad them to
/// a multiple of four.
pub fn push_padded(buffer: &mut Vec<u8>, bytes: &[u8])
    ensures
        final(buffer)@ == old(buffer)@ + padded(bytes@),
{
    let ghost start = buffer@;
    let mut i: usize = 0;
    while i < bytes.len()
        invariant
            i <= bytes@.len(),
            buffer@ == start + bytes@.subrange(0, i as int),
        decreases bytes@.len() - i,
    {
        buffer.push(bytes[i]);
        i = i + 1;
        assert(buffer@ == start + bytes@.subrange(0, i as int));
    }
    assert(bytes@.subrange(0, bytes@.len() as int) == bytes@);
    let padding = 4 - (bytes.len() % 4);
    let mut j: usize = 0;
    while j < padding
        invariant
            j <= padding,
            padding == 4 - bytes@.len() % 4,
            buffer@ == start + bytes@ + zeros(j as nat),
        decreases padding - j,
    {
        buffer.push(0u8);
        j = j + 1;
        assert(buffer@ == start + bytes@ + zeros(j as nat));
    }
}

/// A value with an OSC encoding.
pub trait TypeEncoder {
    /// Whether this value can be encoded at all.
    spec fn spec_encodable(&self) -> bool;

    /// The bytes that encode this value.
    spec fn spec_encoding(&self) -> Seq<u8>;

    /// Appends the encoding of this value.
    fn encode_type(&self, buffer: &mut Vec<u8>)
        requires
            self.spec_encodable(),
        ensures
            final(buffer)@ == old(buffer)@ + self.spec_encoding(),
    ;
}

/// A value that stands for a list of OSC arguments, with their type tags.
pub trait Tagged {
    /// Whether the tags of this value can be written at all.
    spec fn spec_taggable(&self) -> bool;

    /// The type tags of the arguments this value stands for.
    spec fn spec_tags(&self) -> Seq<u8>;

    /// Appends the type tags.
    fn encode_tag(&self, buffer: &mut Vec<u8>)
        requires
            self.spec_taggable(),
        ensures
            final(buffer)@ == old(buffer)@ + self.spec_tags(),
    ;
}

/// The type tag of a single OSC argument.
#[derive(Clone, Copy, Debug, PartialEq, Eq, PartialOrd, Ord, Hash)]
pub enum Tag {
    Int32,
    Float32,
    String,
    Blob,
    Int64,
    Timetag,
    Double,
    Symbol,
    Char,
    RGBA,
    MIDI,
    True,
    False,
    Nil,
    Infinitum,
    ArrayOpen,
    ArrayClose,
}

impl Tag {
    /// The character that stands for this tag in a type tag string.
    pub open spec fn spec_byte(self) -> u8 {
        match self {
            Tag::Int32 => 0x69,
            Tag::Float32 => 0x66,
            Tag::String => 0x73,
            Tag::Blob => 0x62,
            Tag::Int64 => 0x68,
            Tag::Timetag => 0x74,
            Tag::Double => 0x64,
            Tag::Symbol => 0x53,
            Tag::Char => 0x63,
            Tag::RGBA => 0x72,
            Tag::MIDI => 0x6d,
            Tag::True => 0x54,
            Tag::False => 0x46,
            Tag::Nil => 0x4e,
            Tag::Infinitum => 0x49,
            Tag::ArrayOpen => 0x5b,
            Tag::ArrayClose => 0x5d,
        }
    }

    /// The character that stands for this tag in a type tag string.
    pub fn as_byte(self) -> (r: u8)
        ensures
            r == self.spec_byte(),
    {
        match self {
            Tag::Int32 => 0x69,
            Tag::Float32 => 0x66,
            Tag::String => 0x73,
            Tag::Blob => 0x62,
            Tag::Int64 => 0x68,
            Tag::Timetag => 0x74,
            Tag::Double => 0x64,
            Tag::Symbol => 0x53,
            Tag::Char => 0x63,
            Tag::RGBA => 0x72,
            Tag::MIDI => 0x6d,
            Tag::True => 0x54,
            Tag::False => 0x46,
            Tag::Nil => 0x4e,
            Tag::Infinitum => 0x49,
            Tag::ArrayOpen => 0x5b,
            Tag::ArrayClose => 0x5d,
        }
    }
}

/// Each tag is written as its character of the OSC 1.0 type tag string
/// (`i` for a 32-bit integer, `h` for a 64-bit one, and so on), so no two
/// tags are written alike; 64-bit integers are tagged `h` and 32-bit ones `i`.
pub proof fn lemma_tag_characters()
    ensures
        Tag::Int32.spec_byte() == 'i' as u8,
        Tag::Float32.spec_byte() == 'f' as u8,
        Tag::String.spec_byte() == 's' as u8,
        Tag::Blob.spec_byte() == 'b' as u8,
        Tag::Int64.spec_byte() == 'h' as u8,
        Tag::Timetag.spec_byte() == 't' as u8,
        Tag::Double.spec_byte() == 'd' as u8,
        Tag::Symbol.spec_byte() == 'S' as u8,
        Tag::Char.spec_byte() == 'c' as u8,
        Tag::RGBA.spec_byte() == 'r' as u8,
        Tag::MIDI.spec_byte() == 'm' as u8,
        Tag::True.spec_byte() == 'T' as u8,
        Tag::False.spec_byte() == 'F' as u8,
        Tag::Nil.spec_byte() == 'N' as u8,
        Tag::Infinitum.spec_byte() == 'I' as u8,
        Tag::ArrayOpen.spec_byte() == '[' as u8,
        Tag::ArrayClose.spec_byte() == ']' as u8,
        forall|a: Tag, b: Tag| #[trigger] a.spec_byte() == #[trigger] b.spec_byte() ==> a == b,
        forall|v: u64| #[trigger] v.spec_tags() == seq!['h' as u8],
        forall|v: i64| #[trigger] v.spec_tags() == seq!['h' as u8],
        forall|v: i32| #[trigger] v.spec_tags() == seq!['i' as u8],
        forall|v: u32| #[trigger] v.spec_tags() == seq!['i' as u8],
{
    assert forall|a: Tag, b: Tag| #[trigger] a.spec_byte() == #[trigger] b.spec_byte() implies a
        == b by {
        match a {
            Tag::Int32 => {},
            Tag::Float32 => {},
            Tag::String => {},
            Tag::Blob => {},
            Tag::Int64 => {},
            Tag::Timetag => {},
            Tag::Double => {},
            Tag::Symbol => {},
            Tag::Char => {},
            Tag::RGBA => {},
            Tag::MIDI => {},
            Tag::True => {},
            Tag::False => {},
            Tag::Nil => {},
            Tag::Infinitum => {},
            Tag::ArrayOpen => {},
            Tag::ArrayClose => {},
        }
    }
}

impl TypeEncoder for Tag {
    open spec fn spec_encodable(&self) -> bool {
        true
    }

    open spec fn spec_encoding(&self) -> Seq<u8> {
        seq![self.spec_byte()]
    }

    fn encode_type(&self, buffer: &mut Vec<u8>) {
        let byte = self.as_byte();
        buffer.push(byte);
        assert(buffer@ == old(buffer)@ + seq![byte]);
        assert(self.spec_encoding() == seq![byte]);
    }
}

impl TypeEncoder for u8 {
    open spec fn spec_encodable(&self) -> bool {
        true
    }

    open spec fn spec_encoding(&self) -> Seq<u8> {
        seq![*self]
    }

    fn encode_type(&self, buffer: &mut Vec<u8>) {
        buffer.push(*self);
        assert(buffer@ == old(buffer)@ + seq![*self]);
    }
}

impl TypeEncoder for i32 {
    open spec fn spec_encodable(&self) -> bool {
        true
    }

    open spec fn spec_encoding(&self) -> Seq<u8> {
        i32_bytes(*self)
    }

    fn encode_type(&self, buffer: &mut Vec<u8>) {
        let v = *self;
        assert(v < 0 ==> (v as u32) as int == v + 0x1_0000_0000) by (bit_vector);
        push_be32(buffer, v as u32);
    }
}

impl TypeEncoder for u32 {
    open spec fn spec_encodable(&self) -> bool {
        true
    }

    open spec fn spec_encoding(&self) -> Seq<u8> {
        be32(*self)
    }

    fn encode_type(&self, buffer: &mut Vec<u8>) {
        push_be32(buffer, *self);
    }
}

/// The single tag `tag`.
pub fn encode_single_tag(tag: Tag, buffer: &mut Vec<u8>)
    ensures
        final(buffer)@ == old(buffer)@ + seq![tag.spec_byte()],
{
    tag.encode_type(buffer);
}

impl Tagged for u8 {
    open spec fn spec_taggable(&self) -> bool {
        true
    }

    open spec fn spec_tags(&self) -> Seq<u8> {
        seq![Tag::Int32.spec_byte()]
    }

    fn encode_tag(&self, buffer: &mut Vec<u8>) {
        encode_single_tag(Tag::Int32, buffer);
        assert(self.spec_tags() == seq![Tag::Int32.spec_byte()]);
    }
}

impl Tagged for i8 {
    open spec fn spec_taggable(&self) -> bool {
        true
    }

    open spec fn spec_tags(&self) -> Seq<u8> {
        seq![Tag::Int32.spec_byte()]
    }

    fn encode_tag(&self, buffer: &mut Vec<u8>) {
        encode_single_tag(Tag::Int32, buffer);
        assert(self.spec_tags() == seq![Tag::Int32.spec_byte()]);
    }
}

impl Tagged for u16 {
    open spec fn spec_taggable(&self) -> bool {
        true
    }

    open spec fn spec_tags(&self) -> Seq<u8> {
        seq![Tag::Int32.spec_byte()]
    }

    fn encode_tag(&self, buffer: &mut Vec<u8>) {
        encode_single_tag(Tag::Int32, buffer);
        assert(self.spec_tags() == seq![Tag::Int32.spec_byte()]);
    }
}

impl Tagged for i16 {
    open spec fn spec_taggable(&self) -> bool {
        true
    }

    open spec fn spec_tags(&self) -> Seq<u8> {
        seq![Tag::Int32.spec_byte()]
    }

    fn encode_tag(&self, buffer: &mut Vec<u8>) {
        encode_single_tag(Tag::Int32, buffer);
        assert(self.spec_tags() == seq![Tag::Int32.spec_byte()]);
    }
}

impl Tagged for u32 {
    open spec fn spec_taggable(&self) -> bool {
        true
    }

    open spec fn spec_tags(&self) -> Seq<u8> {
        seq![Tag::Int32.spec_byte()]
    }

    fn encode_tag(&self, buffer: &mut Vec<u8>) {
        encode_single_tag(Tag::Int32, buffer);
        assert(self.spec_tags() == seq![Tag::Int32.spec_byte()]);
    }
}

impl Tagged for i32 {
    open spec fn spec_taggable(&self) -> bool {
        true
    }

    open spec fn spec_tags(&self) -> Seq<u8> {
        seq![Tag::Int32.spec_byte()]
    }

    fn encode_tag(&self, buffer: &mut Vec<u8>) {
        encode_single_tag(Tag::Int32, buffer);
        assert(self.spec_tags() == seq![Tag::Int32.spec_byte()]);
    }
}

impl Tagged for u64 {
    open spec fn spec_taggable(&self) -> bool {
        true
    }

    open spec fn spec_tags(&self) -> Seq<u8> {
        seq![Tag::Int64.spec_byte()]
    }

    fn encode_tag(&self, buffer: &mut Vec<u8>) {
        encode_single_tag(Tag::Int64, buffer);
        assert(self.spec_tags() == seq![Tag::Int64.spec_byte()]);
    }
}

impl Tagged for i64 {
    open spec fn spec_taggable(&self) -> bool {
        true
    }

    open spec fn spec_tags(&self) -> Seq<u8> {
        seq![Tag::Int64.spec_byte()]
    }

    fn encode_tag(&self, buffer: &mut Vec<u8>) {
        encode_single_tag(Tag::Int64, buffer);
        assert(self.spec_tags() == seq![Tag::Int64.spec_byte()]);
    }
}

impl Tagged for char {
    open spec fn spec_taggable(&self) -> bool {
        true
    }

    open spec fn spec_tags(&self) -> Seq<u8> {
        seq![Tag::Char.spec_byte()]
    }

    fn encode_tag(&self, buffer: &mut Vec<u8>) {
        encode_single_tag(Tag::Char, buffer);
        assert(self.spec_tags() == seq![Tag::Char.spec_byte()]);
    }
}

impl<'a> Tagged for &'a str {
    open spec fn spec_taggable(&self) -> bool {
        true
    }

    open spec fn spec_tags(&self) -> Seq<u8> {
        seq![Tag::String.spec_byte()]
    }

    fn encode_tag(&self, buffer: &mut Vec<u8>) {
        encode_single_tag(Tag::String, buffer);
        assert(self.spec_tags() == seq![Tag::String.spec_byte()]);
    }
}

impl Tagged for String {
    open spec fn spec_taggable(&self) -> bool {
        true
    }

    open spec fn spec_tags(&self) -> Seq<u8> {
        seq![Tag::String.spec_byte()]
    }

    fn encode_tag(&self, buffer: &mut Vec<u8>) {
        encode_single_tag(Tag::String, buffer);
        assert(self.spec_tags() == seq![Tag::String.spec_byte()]);
    }
}

impl<'a> Tagged for &'a [u8] {
    open spec fn spec_taggable(&self) -> bool {
        true
    }

    open spec fn spec_tags(&self) -> Seq<u8> {
        seq![Tag::Blob.spec_byte()]
    }

    fn encode_tag(&self, buffer: &mut Vec<u8>) {
        encode_single_tag(Tag::Blob, buffer);
        assert(self.spec_tags() == seq![Tag::Blob.spec_byte()]);
    }
}

impl Tagged for Vec<u8> {
    open spec fn spec_taggable(&self) -> bool {
        true
    }

    open spec fn spec_tags(&self) -> Seq<u8> {
        seq![Tag::Blob.spec_byte()]
    }

    fn encode_tag(&self, buffer: &mut Vec<u8>) {
        encode_single_tag(Tag::Blob, buffer);
        assert(self.spec_tags() == seq![Tag::Blob.spec_byte()]);
    }
}

impl<T: Tagged> Tagged for Option<T> {
    open spec fn spec_taggable(&self) -> bool {
        match self {
            Some(v) => v.spec_taggable(),
            None => true,
        }
    }

    open spec fn spec_tags(&self) -> Seq<u8> {
        match self {
            Some(v) => v.spec_tags(),
            None => seq![],
        }
    }

    fn encode_tag(&self, buffer: &mut Vec<u8>) {
        if let Some(value) = self {
            value.encode_tag(buffer)
        } else {
            assert(buffer@ == old(buffer)@ + Seq::<u8>::empty());
        }
    }
}

impl<T: TypeEncoder> TypeEncoder for Option<T> {
    open spec fn spec_encodable(&self) -> bool {
        match self {
            Some(v) => v.spec_encodable(),
            None => true,
        }
    }

    open spec fn spec_encoding(&self) -> Seq<u8> {
        match self {
            Some(v) => v.spec_encoding(),
            None => seq![],
        }
    }

    fn encode_type(&self, buffer: &mut Vec<u8>) {
        if let Some(value) = self {
            value.encode_type(buffer)
        } else {
            assert(buffer@ == old(buffer)@ + Seq::<u8>::empty());
        }
    }
}

impl Tagged for () {
    open spec fn spec_taggable(&self) -> bool {
        true
    }

    open spec fn spec_tags(&self) -> Seq<u8> {
        seq![]
    }

    fn encode_tag(&self, buffer: &mut Vec<u8>) {
        assert(buffer@ == old(buffer)@ + Seq::<u8>::empty());
    }
}

impl TypeEncoder for () {
    open spec fn spec_encodable(&self) -> bool {
        true
    }

    open spec fn spec_encoding(&self) -> Seq<u8> {
        seq![]
    }

    fn encode_type(&self, buffer: &mut Vec<u8>) {
        assert(buffer@ == old(buffer)@ + Seq::<u8>::empty());
    }
}

/// A pair of argument lists stands for the first followed by the second.
impl<A: Tagged, B: Tagged> Tagged for (A, B) {
    open spec fn spec_taggable(&self) -> bool {
        self.0.spec_taggable() && self.1.spec_taggable()
    }

    open spec fn spec_tags(&self) -> Seq<u8> {
        self.0.spec_tags() + self.1.spec_tags()
    }

    fn encode_tag(&self, buffer: &mut Vec<u8>) {
        self.0.encode_tag(buffer);
        self.1.encode_tag(buffer);
        assert(buffer@ == old(buffer)@ + self.spec_tags());
    }
}

impl<A: TypeEncoder, B: TypeEncoder> TypeEncoder for (A, B) {
    open spec fn spec_encodable(&self) -> bool {
        self.0.spec_encodable() && self.1.spec_encodable()
    }

    open spec fn spec_encoding(&self) -> Seq<u8> {
        self.0.spec_encoding() + self.1.spec_encoding()
    }

    fn encode_type(&self, buffer: &mut Vec<u8>) {
        self.0.encode_type(buffer);
        self.1.encode_type(buffer);
        assert(buffer@ == old(buffer)@ + self.spec_encoding());
    }
}

/// Encodes a value followed by the zero bytes that pad it to a multiple of
/// four.
#[derive(Clone, Copy, Debug, PartialEq, PartialOrd, Eq, Ord, Hash)]
pub struct Padding;

impl Padding {
    pub fn encode_into<T: TypeEncoder>(self, value: &T, buffer: &mut Vec<u8>)
        requires
            value.spec_encodable(),
        ensures
            final(buffer)@ == old(buffer)@ + padded(value.spec_encoding()),
    {
        let start = buffer.len();
        value.encode_type(buffer);
        let len = buffer.len() - start;
        let padding = 4 - (len % 4);
        let mut j: usize = 0;
        while j < padding
            invariant
                j <= padding,
                padding == 4 - value.spec_encoding().len() % 4,
                buffer@ == old(buffer)@ + value.spec_encoding() + zeros(j as nat),
            decreases padding - j,
        {
            buffer.push(0u8);
            j = j + 1;
            assert(buffer@ == old(buffer)@ + value.spec_encoding() + zeros(j as nat));
        }
    }
}

/// An OSC string: its bytes, then one to four zero bytes.
#[derive(Clone, Copy, Debug, PartialEq, PartialOrd, Eq, Ord, Hash)]
pub struct Str<'a>(pub &'a str);

impl<'a> Tagged for Str<'a> {
    open spec fn spec_taggable(&self) -> bool {
        true
    }

    open spec fn spec_tags(&self) -> Seq<u8> {
        seq![Tag::String.spec_byte()]
    }

    fn encode_tag(&self, buffer: &mut Vec<u8>) {
        self.0.encode_tag(buffer)
    }
}

impl<'a> TypeEncoder for Str<'a> {
    open spec fn spec_encodable(&self) -> bool {
        true
    }

    open spec fn spec_encoding(&self) -> Seq<u8> {
        padded(self.0.spec_bytes())
    }

    fn encode_type(&self, buffer: &mut Vec<u8>) {
        let r: &[u8] = self.0.as_bytes();
        push_padded(buffer, r);
    }
}

/// An OSC blob: its length as a 32-bit integer, then its bytes, then one to
/// four zero bytes.
#[derive(Clone, Copy, Debug, PartialEq, PartialOrd, Eq, Ord, Hash)]
pub struct Blob<'a>(pub &'a [u8]);

impl<'a> Tagged for Blob<'a> {
    open spec fn spec_taggable(&self) -> bool {
        true
    }

    open spec fn spec_tags(&self) -> Seq<u8> {
        seq![Tag::Blob.spec_byte()]
    }

    fn encode_tag(&self, buffer: &mut Vec<u8>) {
        self.0.encode_tag(buffer)
    }
}

impl<'a> TypeEncoder for Blob<'a> {
    open spec fn spec_encodable(&self) -> bool {
        true
    }

    open spec fn spec_encoding(&self) -> Seq<u8> {
        i32_bytes(self.0@.len() as i32) + padded(self.0@)
    }

    fn encode_type(&self, buffer: &mut Vec<u8>) {
        let r: &[u8] = self.0;
        (r.len() as i32).encode_type(buffer);
        push_padded(buffer, r);
    }
}

/// An OSC address pattern: a string that starts with a forward slash.
#[derive(Clone, Copy, Debug, PartialEq, PartialOrd, Ord, Eq, Hash)]
pub struct Address<'a>(Str<'a>);

/// The string given as an address does not start with a forward slash.
#[derive(Clone, Copy, Debug, PartialEq, PartialOrd, Ord, Eq, Hash)]
pub struct AddressError;

impl AddressError {
    /// What went wrong, in words.
    pub fn message(&self) -> (r: &'static str)
        ensures
            r@ == "OSC Addresses must start with a '/' (forward slash)"@,
    {
        "OSC Addresses must start with a '/' (forward slash)"
    }
}

impl<'a> Address<'a> {
    /// The bytes of the address.
    pub closed spec fn spec_bytes(self) -> Seq<u8> {
        self.0.0.spec_bytes()
    }

    /// `value` as an address, where it starts with a forward slash.
    pub fn new(value: &'a str) -> (r: Result<Address<'a>, AddressError>)
        ensures
            r is Ok <==> value.spec_bytes().len() > 0 && value.spec_bytes()[0] == 0x2f,
            r matches Ok(a) ==> a.spec_bytes() == value.spec_bytes(),
    {
        let bytes = value.as_bytes();
        if bytes.len() == 0 || bytes[0] != 0x2f {
            return Err(AddressError);
        }
        Ok(Self(Str(value)))
    }
}

impl<'a> TypeEncoder for Address<'a> {
    open spec fn spec_encodable(&self) -> bool {
        true
    }

    open spec fn spec_encoding(&self) -> Seq<u8> {
        padded(self.spec_bytes())
    }

    fn encode_type(&self, buffer: &mut Vec<u8>) {
        self.0.encode_type(buffer)
    }
}

/// The type tag string of an argument list: a comma, then the tags.
pub struct ArgTags<'a, T>(pub &'a T);

impl<'a, T: Tagged> TypeEncoder for ArgTags<'a, T> {
    open spec fn spec_encodable(&self) -> bool {
        self.0.spec_taggable()
    }

    open spec fn spec_encoding(&self) -> Seq<u8> {
        seq![0x2cu8] + self.0.spec_tags()
    }

    fn encode_type(&self, buffer: &mut Vec<u8>) {
        buffer.push(0x2c);
        self.0.encode_tag(buffer);
        assert(buffer@ == old(buffer)@ + self.spec_encoding());
    }
}

/// An OSC message: an address and a list of arguments.
#[derive(Clone, Copy, Debug, PartialEq, PartialOrd, Ord, Eq, Hash)]
pub struct Packet<Address, Arguments> {
    pub address: Address,
    pub arguments: Arguments,
}

/// The bytes of a message: the address, the padded type tag string, then
/// the arguments.
pub open spec fn message_bytes(address: Seq<u8>, tags: Seq<u8>, arguments: Seq<u8>) -> Seq<u8> {
    address + padded(seq![0x2cu8] + tags) + arguments
}

impl<Adr: TypeEncoder, Args: Tagged + TypeEncoder> TypeEncoder for Packet<Adr, Args> {
    open spec fn spec_encodable(&self) -> bool {
        self.address.spec_encodable() && self.arguments.spec_taggable()
            && self.arguments.spec_encodable()
    }

    open spec fn spec_encoding(&self) -> Seq<u8> {
        message_bytes(
            self.address.spec_encoding(),
            self.arguments.spec_tags(),
            self.arguments.spec_encoding(),
        )
    }

    fn encode_type(&self, buffer: &mut Vec<u8>) {
        self.address.encode_type(buffer);
        let types = ArgTags(&self.arguments);
        Padding.encode_into(&types, buffer);
        self.arguments.encode_type(buffer);
        assert(buffer@ == old(buffer)@ + self.spec_encoding());
    }
}

/// A 32-bit float argument, held as its IEEE 754 bit pattern.
#[derive(Clone, Copy, Debug, PartialEq, Eq, PartialOrd, Ord, Hash)]
pub struct FloatBits(pub u32);

impl Tagged for FloatBits {
    open spec fn spec_taggable(&self) -> bool {
        true
    }

    open spec fn spec_tags(&self) -> Seq<u8> {
        seq![Tag::Float32.spec_byte()]
    }

    fn encode_tag(&self, buffer: &mut Vec<u8>) {
        encode_single_tag(Tag::Float32, buffer);
        assert(self.spec_tags() == seq![Tag::Float32.spec_byte()]);
    }
}

impl TypeEncoder for FloatBits {
    open spec fn spec_encodable(&self) -> bool {
        true
    }

    open spec fn spec_encoding(&self) -> Seq<u8> {
        be32(self.0)
    }

    fn encode_type(&self, buffer: &mut Vec<u8>) {
        push_be32(buffer, self.0);
    }
}

/// An OSC time tag: seconds since 1900 and a fraction of a second in units
/// of 2^-32 seconds, both big-endian.
#[derive(Clone, Copy, Default, PartialEq, PartialOrd, Eq, Ord, Hash, Debug)]
pub struct Timetag([u8; 8]);

impl Timetag {
    /// The eight bytes of the time tag.
    pub closed spec fn spec_bytes(self) -> Seq<u8> {
        self.0@
    }

    /// A time tag is eight bytes long.
    pub proof fn lemma_len(self)
        ensures
            self.spec_bytes().len() == 8,
    {
    }

    /// The time tag of `secs` whole seconds and `frac` units of 2^-32 seconds.
    pub fn from_parts(secs: u32, frac: u32) -> (r: Timetag)
        ensures
            r.spec_bytes() == be32(secs) + be32(frac),
    {
        let mut out = [0u8; 8];
        out[0] = (secs / 0x100_0000) as u8;
        out[1] = ((secs / 0x1_0000) % 0x100) as u8;
        out[2] = ((secs / 0x100) % 0x100) as u8;
        out[3] = (secs % 0x100) as u8;
        out[4] = (frac / 0x100_0000) as u8;
        out[5] = ((frac / 0x1_0000) % 0x100) as u8;
        out[6] = ((frac / 0x100) % 0x100) as u8;
        out[7] = (frac % 0x100) as u8;
        assert(out@ == be32(secs) + be32(frac));
        Self(out)
    }

    /// The whole seconds and the fraction of a second that the bytes hold.
    pub fn parts(self) -> (r: (u32, u32))
        ensures
            be32(r.0) + be32(r.1) == self.spec_bytes(),
    {
        let b = self.0;
        let secs = (b[0] as u32) * 0x100_0000 + (b[1] as u32) * 0x1_0000 + (b[2] as u32) * 0x100
            + b[3] as u32;
        let frac = (b[4] as u32) * 0x100_0000 + (b[5] as u32) * 0x1_0000 + (b[6] as u32) * 0x100
            + b[7] as u32;
        proof {
            lemma_be32_of_bytes(b[0], b[1], b[2], b[3]);
            lemma_be32_of_bytes(b[4], b[5], b[6], b[7]);
            assert(be32(secs) + be32(frac) == b@);
        }
        (secs, frac)
    }

    /// Taking apart a time tag built from seconds and a fraction gives them
    /// back: `parts` undoes `from_parts`.
    pub proof fn lemma_parts_round_trip(secs: u32, frac: u32, tag: Timetag, parts: (u32, u32))
        requires
            tag.spec_bytes() == be32(secs) + be32(frac),
            be32(parts.0) + be32(parts.1) == tag.spec_bytes(),
        ensures
            parts == (secs, frac),
    {
        let b = tag.spec_bytes();
        assert(be32(parts.0) == b.take(4));
        assert(be32(secs) == b.take(4));
        assert(be32(parts.1) == b.skip(4));
        assert(be32(frac) == b.skip(4));
        lemma_be32_injective(parts.0, secs);
        lemma_be32_injective(parts.1, frac);
    }

    /// The eight bytes of the time tag.
    pub fn as_ref(&self) -> (r: &[u8; 8])
        ensures
            r@ == self.spec_bytes(),
    {
        &self.0
    }
}

impl Tagged for Timetag {
    open spec fn spec_taggable(&self) -> bool {
        true
    }

    open spec fn spec_tags(&self) -> Seq<u8> {
        seq![Tag::Timetag.spec_byte()]
    }

    fn encode_tag(&self, buffer: &mut Vec<u8>) {
        encode_single_tag(Tag::Timetag, buffer);
        assert(self.spec_tags() == seq![Tag::Timetag.spec_byte()]);
    }
}

impl TypeEncoder for Timetag {
    open spec fn spec_encodable(&self) -> bool {
        true
    }

    open spec fn spec_encoding(&self) -> Seq<u8> {
        self.spec_bytes()
    }

    fn encode_type(&self, buffer: &mut Vec<u8>) {
        let mut i: usize = 0;
        while i < 8
            invariant
                i <= 8,
                buffer@ == old(buffer)@ + self.0@.subrange(0, i as int),
            decreases 8 - i,
        {
            buffer.push(self.0[i]);
            i = i + 1;
            assert(buffer@ == old(buffer)@ + self.0@.subrange(0, i as int));
        }
        assert(self.0@.subrange(0, 8) == self.0@);
    }
}

/// The concatenated tags of a list of values.
pub open spec fn flat_tags<T: Tagged>(values: Seq<T>) -> Seq<u8>
    decreases values.len(),
{
    if values.len() == 0 {
        seq![]
    } else {
        flat_tags(values.drop_last()) + values.last().spec_tags()
    }
}

/// The concatenated encodings of a list of values.
pub open spec fn flat_encoding<T: TypeEncoder>(values: Seq<T>) -> Seq<u8>
    decreases values.len(),
{
    if values.len() == 0 {
        seq![]
    } else {
        flat_encoding(values.drop_last()) + values.last().spec_encoding()
    }
}

/// A list of values, each standing for its own arguments, one after another.
#[derive(Clone, Copy, Debug, PartialEq, PartialOrd, Eq, Ord, Hash)]
pub struct Flatten<'a, T>(pub &'a [T]);

impl<'a, T: Tagged> Tagged for Flatten<'a, T> {
    open spec fn spec_taggable(&self) -> bool {
        forall|i: int| 0 <= i < self.0@.len() ==> (#[trigger] self.0@[i]).spec_taggable()
    }

    open spec fn spec_tags(&self) -> Seq<u8> {
        flat_tags(self.0@)
    }

    fn encode_tag(&self, buffer: &mut Vec<u8>) {
        let mut i: usize = 0;
        while i < self.0.len()
            invariant
                i <= self.0@.len(),
                forall|k: int| 0 <= k < self.0@.len() ==> (#[trigger] self.0@[k]).spec_taggable(),
                buffer@ == old(buffer)@ + flat_tags(self.0@.take(i as int)),
            decreases self.0@.len() - i,
        {
            self.0[i].encode_tag(buffer);
            assert(self.0@.take(i + 1).drop_last() == self.0@.take(i as int));
            i = i + 1;
        }
        assert(self.0@.take(self.0@.len() as int) == self.0@);
    }
}

impl<'a, T: TypeEncoder> TypeEncoder for Flatten<'a, T> {
    open spec fn spec_encodable(&self) -> bool {
        forall|i: int| 0 <= i < self.0@.len() ==> (#[trigger] self.0@[i]).spec_encodable()
    }

    open spec fn spec_encoding(&self) -> Seq<u8> {
        flat_encoding(self.0@)
    }

    fn encode_type(&self, buffer: &mut Vec<u8>) {
        let mut i: usize = 0;
        while i < self.0.len()
            invariant
                i <= self.0@.len(),
                forall|k: int| 0 <= k < self.0@.len() ==> (#[trigger] self.0@[k]).spec_encodable(),
                buffer@ == old(buffer)@ + flat_encoding(self.0@.take(i as int)),
            decreases self.0@.len() - i,
        {
            self.0[i].encode_type(buffer);
            assert(self.0@.take(i + 1).drop_last() == self.0@.take(i as int));
            i = i + 1;
        }
        assert(self.0@.take(self.0@.len() as int) == self.0@);
    }
}

/// A value that has a number of elements.
pub trait LenOf {
    spec fn spec_len_of(&self) -> nat;

    fn len(&self) -> (r: usize)
        ensures
            r == self.spec_len_of(),
    ;
}

impl<'a, T> LenOf for Flatten<'a, T> {
    open spec fn spec_len_of(&self) -> nat {
        self.0@.len()
    }

    fn len(&self) -> (r: usize) {
        self.0.len()
    }
}

impl<'a, T> LenOf for &'a [T] {
    open spec fn spec_len_of(&self) -> nat {
        (*self)@.len()
    }

    fn len(&self) -> (r: usize) {
        <[T]>::len(self)
    }
}

/// A list preceded by its number of elements, written as an `L`.
#[derive(Debug)]
pub struct LenPrefix<L, T>(PhantomData<L>, T);

impl<L, T> LenPrefix<L, T> {
    pub closed spec fn spec_inner(self) -> T {
        self.1
    }

    /// The prefixed list holding `value`.
    pub closed spec fn spec_new(value: T) -> Self {
        LenPrefix(PhantomData, value)
    }

    pub fn new(value: T) -> (r: Self)
        ensures
            r == Self::spec_new(value),
            r.spec_inner() == value,
    {
        Self(PhantomData, value)
    }
}

impl<T: Tagged + LenOf> Tagged for LenPrefix<i32, T> {
    open spec fn spec_taggable(&self) -> bool {
        self.spec_inner().spec_len_of() <= i32::MAX && self.spec_inner().spec_taggable()
    }

    open spec fn spec_tags(&self) -> Seq<u8> {
        seq![Tag::Int32.spec_byte()] + self.spec_inner().spec_tags()
    }

    fn encode_tag(&self, buffer: &mut Vec<u8>) {
        let len = self.1.len();
        let len = len as i32;
        len.encode_tag(buffer);
        self.1.encode_tag(buffer);
    }
}

impl<T: TypeEncoder + LenOf> TypeEncoder for LenPrefix<i32, T> {
    open spec fn spec_encodable(&self) -> bool {
        self.spec_inner().spec_len_of() <= i32::MAX && self.spec_inner().spec_encodable()
    }

    open spec fn spec_encoding(&self) -> Seq<u8> {
        i32_bytes(self.spec_inner().spec_len_of() as i32) + self.spec_inner().spec_encoding()
    }

    fn encode_type(&self, buffer: &mut Vec<u8>) {
        let len = self.1.len();
        let len = len as i32;
        len.encode_type(buffer);
        self.1.encode_type(buffer);
    }
}

} // verus!
