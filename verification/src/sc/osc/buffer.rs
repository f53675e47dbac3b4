use crate::osc::types::{Flatten, LenPrefix, Packet, Str, Tagged, TypeEncoder};
use crate::sc::osc::{bool_encoder, bool_value};
use crate::osc::types::FloatBits;
use vstd::prelude::*;

verus! {

/// A buffer.
#[derive(Clone, Copy, Debug, PartialEq, Eq)]
pub struct Id(pub i32);

impl Tagged for Id {
    open spec fn spec_taggable(&self) -> bool {
        true
    }

    open spec fn spec_tags(&self) -> Seq<u8> {
        self.0.spec_tags()
    }

    fn encode_tag(&self, buffer: &mut Vec<u8>) {
        self.0.encode_tag(buffer)
    }
}

impl TypeEncoder for Id {
    open spec fn spec_encodable(&self) -> bool {
        true
    }

    open spec fn spec_encoding(&self) -> Seq<u8> {
        self.0.spec_encoding()
    }

    fn encode_type(&self, buffer: &mut Vec<u8>) {
        self.0.encode_type(buffer)
    }
}

/// Allocate a buffer of `len` frames and `channels` channels.
#[derive(Clone, Copy, Debug, PartialEq, Eq)]
pub struct Alloc {
    pub id: Id,
    pub len: i32,
    pub channels: i32,
}

impl Alloc {
    /// The message this command is sent as.
    pub open spec fn spec_packet(self) -> Packet<Str<'static>, (Id, (i32, (i32, ())))> {
        Packet { address: Str("/b_alloc"), arguments: (self.id, (self.len, (self.channels, ()))) }
    }
}

impl TypeEncoder for Alloc {
    open spec fn spec_encodable(&self) -> bool {
        self.spec_packet().spec_encodable()
    }

    open spec fn spec_encoding(&self) -> Seq<u8> {
        self.spec_packet().spec_encoding()
    }

    fn encode_type(&self, buffer: &mut Vec<u8>) {
        let packet = Packet { address: Str("/b_alloc"), arguments: (self.id, (self.len, (self.channels, ()))) };
        assert(packet == self.spec_packet());
        packet.encode_type(buffer)
    }
}

/// Allocate a buffer and read a sound file into it.
#[derive(Clone, Copy, Debug, PartialEq, Eq)]
pub struct AllocRead<'a> {
    pub id: Id,
    pub path: &'a str,
    pub offset: i32,
    pub len: i32,
}

impl<'a> AllocRead<'a> {
    /// The message this command is sent as.
    pub open spec fn spec_packet(self) -> Packet<Str<'static>, (Id, (Str<'a>, (i32, (i32, ()))))> {
        Packet { address: Str("/b_allocRead"), arguments: (self.id, (Str(self.path), (self.offset, (self.len, ())))) }
    }
}

impl<'a> TypeEncoder for AllocRead<'a> {
    open spec fn spec_encodable(&self) -> bool {
        self.spec_packet().spec_encodable()
    }

    open spec fn spec_encoding(&self) -> Seq<u8> {
        self.spec_packet().spec_encoding()
    }

    fn encode_type(&self, buffer: &mut Vec<u8>) {
        let packet = Packet { address: Str("/b_allocRead"), arguments: (self.id, (Str(self.path), (self.offset, (self.len, ())))) };
        assert(packet == self.spec_packet());
        packet.encode_type(buffer)
    }
}

/// Allocate a buffer and read some channels of a sound file into it.
#[derive(Clone, Copy, Debug, PartialEq, Eq)]
pub struct AllocReadChannel<'a> {
    pub id: Id,
    pub path: &'a str,
    pub offset: i32,
    pub len: i32,
    pub channels: &'a [i32],
}

impl<'a> AllocReadChannel<'a> {
    /// The message this command is sent as.
    pub open spec fn spec_packet(self) -> Packet<Str<'static>, (Id, (Str<'a>, (i32, (i32, (Flatten<'a, i32>, ())))))> {
        Packet { address: Str("/b_allocReadChannel"), arguments: (self.id, (Str(self.path), (self.offset, (self.len, (Flatten(self.channels), ()))))) }
    }
}

impl<'a> TypeEncoder for AllocReadChannel<'a> {
    open spec fn spec_encodable(&self) -> bool {
        self.spec_packet().spec_encodable()
    }

    open spec fn spec_encoding(&self) -> Seq<u8> {
        self.spec_packet().spec_encoding()
    }

    fn encode_type(&self, buffer: &mut Vec<u8>) {
        let packet = Packet { address: Str("/b_allocReadChannel"), arguments: (self.id, (Str(self.path), (self.offset, (self.len, (Flatten(self.channels), ()))))) };
        assert(packet == self.spec_packet());
        packet.encode_type(buffer)
    }
}

/// Read a sound file into an allocated buffer.
#[derive(Clone, Copy, Debug, PartialEq, Eq)]
pub struct Read<'a> {
    pub id: Id,
    pub path: &'a str,
    pub offset: i32,
    pub len: i32,
    pub buffer_offset: i32,
    pub leave_file_open: bool,
}

impl<'a> Read<'a> {
    /// The message this command is sent as.
    pub open spec fn spec_packet(self) -> Packet<Str<'static>, (Id, (Str<'a>, (i32, (i32, (i32, (i32, ()))))))> {
        Packet { address: Str("/b_read"), arguments: (self.id, (Str(self.path), (self.offset, (self.len, (self.buffer_offset, (bool_value(self.leave_file_open), ())))))) }
    }
}

impl<'a> TypeEncoder for Read<'a> {
    open spec fn spec_encodable(&self) -> bool {
        self.spec_packet().spec_encodable()
    }

    open spec fn spec_encoding(&self) -> Seq<u8> {
        self.spec_packet().spec_encoding()
    }

    fn encode_type(&self, buffer: &mut Vec<u8>) {
        let packet = Packet { address: Str("/b_read"), arguments: (self.id, (Str(self.path), (self.offset, (self.len, (self.buffer_offset, (bool_encoder(self.leave_file_open), ())))))) };
        assert(packet == self.spec_packet());
        packet.encode_type(buffer)
    }
}

/// Read some channels of a sound file into an allocated buffer.
#[derive(Clone, Copy, Debug, PartialEq, Eq)]
pub struct ReadChannel<'a> {
    pub id: Id,
    pub path: &'a str,
    pub offset: i32,
    pub len: i32,
    pub buffer_offset: i32,
    pub leave_file_open: bool,
    pub channels: &'a [i32],
}

impl<'a> ReadChannel<'a> {
    /// The message this command is sent as.
    pub open spec fn spec_packet(self) -> Packet<Str<'static>, (Id, (Str<'a>, (i32, (i32, (i32, (i32, (Flatten<'a, i32>, ())))))))> {
        Packet { address: Str("/b_readChannel"), arguments: (self.id, (Str(self.path), (self.offset, (self.len, (self.buffer_offset, (bool_value(self.leave_file_open), (Flatten(self.channels), ()))))))) }
    }
}

impl<'a> TypeEncoder for ReadChannel<'a> {
    open spec fn spec_encodable(&self) -> bool {
        self.spec_packet().spec_encodable()
    }

    open spec fn spec_encoding(&self) -> Seq<u8> {
        self.spec_packet().spec_encoding()
    }

    fn encode_type(&self, buffer: &mut Vec<u8>) {
        let packet = Packet { address: Str("/b_readChannel"), arguments: (self.id, (Str(self.path), (self.offset, (self.len, (self.buffer_offset, (bool_encoder(self.leave_file_open), (Flatten(self.channels), ()))))))) };
        assert(packet == self.spec_packet());
        packet.encode_type(buffer)
    }
}

/// Free a buffer.
#[derive(Clone, Copy, Debug, PartialEq, Eq)]
pub struct Free {
    pub id: Id,
}

impl Free {
    /// The message this command is sent as.
    pub open spec fn spec_packet(self) -> Packet<Str<'static>, (Id, ())> {
        Packet { address: Str("/b_free"), arguments: (self.id, ()) }
    }
}

impl TypeEncoder for Free {
    open spec fn spec_encodable(&self) -> bool {
        self.spec_packet().spec_encodable()
    }

    open spec fn spec_encoding(&self) -> Seq<u8> {
        self.spec_packet().spec_encoding()
    }

    fn encode_type(&self, buffer: &mut Vec<u8>) {
        let packet = Packet { address: Str("/b_free"), arguments: (self.id, ()) };
        assert(packet == self.spec_packet());
        packet.encode_type(buffer)
    }
}

/// Zero the samples of a buffer.
#[derive(Clone, Copy, Debug, PartialEq, Eq)]
pub struct Zero {
    pub id: Id,
}

impl Zero {
    /// The message this command is sent as.
    pub open spec fn spec_packet(self) -> Packet<Str<'static>, (Id, ())> {
        Packet { address: Str("/b_zero"), arguments: (self.id, ()) }
    }
}

impl TypeEncoder for Zero {
    open spec fn spec_encodable(&self) -> bool {
        self.spec_packet().spec_encodable()
    }

    open spec fn spec_encoding(&self) -> Seq<u8> {
        self.spec_packet().spec_encoding()
    }

    fn encode_type(&self, buffer: &mut Vec<u8>) {
        let packet = Packet { address: Str("/b_zero"), arguments: (self.id, ()) };
        assert(packet == self.spec_packet());
        packet.encode_type(buffer)
    }
}

/// Set samples of a buffer: pairs of sample index and value.
#[derive(Clone, Copy, Debug, PartialEq, Eq)]
pub struct SetSamples<'a> {
    pub id: Id,
    pub values: &'a [(i32, FloatBits)],
}

impl<'a> SetSamples<'a> {
    /// The message this command is sent as.
    pub open spec fn spec_packet(self) -> Packet<Str<'static>, (Id, (Flatten<'a, (i32, FloatBits)>, ()))> {
        Packet { address: Str("/b_set"), arguments: (self.id, (Flatten(self.values), ())) }
    }
}

impl<'a> TypeEncoder for SetSamples<'a> {
    open spec fn spec_encodable(&self) -> bool {
        self.spec_packet().spec_encodable()
    }

    open spec fn spec_encoding(&self) -> Seq<u8> {
        self.spec_packet().spec_encoding()
    }

    fn encode_type(&self, buffer: &mut Vec<u8>) {
        let packet = Packet { address: Str("/b_set"), arguments: (self.id, (Flatten(self.values), ())) };
        assert(packet == self.spec_packet());
        packet.encode_type(buffer)
    }
}

/// Set ranges of samples of a buffer.
#[derive(Clone, Copy, Debug, PartialEq, Eq)]
pub struct SetN<'a> {
    pub id: Id,
    pub ranges: &'a [SetNRange<'a>],
}

impl<'a> SetN<'a> {
    /// The message this command is sent as.
    pub open spec fn spec_packet(self) -> Packet<Str<'static>, (Id, (Flatten<'a, SetNRange<'a>>, ()))> {
        Packet { address: Str("/b_setm"), arguments: (self.id, (Flatten(self.ranges), ())) }
    }
}

impl<'a> TypeEncoder for SetN<'a> {
    open spec fn spec_encodable(&self) -> bool {
        self.spec_packet().spec_encodable()
    }

    open spec fn spec_encoding(&self) -> Seq<u8> {
        self.spec_packet().spec_encoding()
    }

    fn encode_type(&self, buffer: &mut Vec<u8>) {
        let packet = Packet { address: Str("/b_setm"), arguments: (self.id, (Flatten(self.ranges), ())) };
        assert(packet == self.spec_packet());
        packet.encode_type(buffer)
    }
}

/// One range of a `SetN`: the first sample, then the values.
#[derive(Clone, Copy, Debug, PartialEq, Eq)]
pub struct SetNRange<'a> {
    pub offset: i32,
    pub values: &'a [FloatBits],
}

impl<'a> SetNRange<'a> {
    /// The arguments this value stands for.
    pub open spec fn spec_arguments(self) -> (i32, (LenPrefix<i32, Flatten<'a, FloatBits>>, ())) {
        (self.offset, (LenPrefix::<i32, Flatten<'a, FloatBits>>::spec_new(Flatten(self.values)), ()))
    }
}

impl<'a> Tagged for SetNRange<'a> {
    open spec fn spec_taggable(&self) -> bool {
        self.spec_arguments().spec_taggable()
    }

    open spec fn spec_tags(&self) -> Seq<u8> {
        self.spec_arguments().spec_tags()
    }

    fn encode_tag(&self, buffer: &mut Vec<u8>) {
        let arguments = (self.offset, (LenPrefix::<i32, Flatten<'a, FloatBits>>::new(Flatten(self.values)), ()));
        assert(arguments == self.spec_arguments());
        arguments.encode_tag(buffer)
    }
}

impl<'a> TypeEncoder for SetNRange<'a> {
    open spec fn spec_encodable(&self) -> bool {
        self.spec_arguments().spec_encodable()
    }

    open spec fn spec_encoding(&self) -> Seq<u8> {
        self.spec_arguments().spec_encoding()
    }

    fn encode_type(&self, buffer: &mut Vec<u8>) {
        let arguments = (self.offset, (LenPrefix::<i32, Flatten<'a, FloatBits>>::new(Flatten(self.values)), ()));
        assert(arguments == self.spec_arguments());
        arguments.encode_type(buffer)
    }
}

/// Fill ranges of samples of a buffer with single values.
#[derive(Clone, Copy, Debug, PartialEq, Eq)]
pub struct Fill<'a> {
    pub id: Id,
    pub ranges: &'a [FillRange],
}

impl<'a> Fill<'a> {
    /// The message this command is sent as.
    pub open spec fn spec_packet(self) -> Packet<Str<'static>, (Id, (Flatten<'a, FillRange>, ()))> {
        Packet { address: Str("/b_fill"), arguments: (self.id, (Flatten(self.ranges), ())) }
    }
}

impl<'a> TypeEncoder for Fill<'a> {
    open spec fn spec_encodable(&self) -> bool {
        self.spec_packet().spec_encodable()
    }

    open spec fn spec_encoding(&self) -> Seq<u8> {
        self.spec_packet().spec_encoding()
    }

    fn encode_type(&self, buffer: &mut Vec<u8>) {
        let packet = Packet { address: Str("/b_fill"), arguments: (self.id, (Flatten(self.ranges), ())) };
        assert(packet == self.spec_packet());
        packet.encode_type(buffer)
    }
}

/// One range of a `Fill`: the first sample, the number of samples, the value.
#[derive(Clone, Copy, Debug, PartialEq, Eq)]
pub struct FillRange {
    pub offset: i32,
    pub len: i32,
    pub value: FloatBits,
}

impl FillRange {
    /// The arguments this value stands for.
    pub open spec fn spec_arguments(self) -> (i32, (i32, (FloatBits, ()))) {
        (self.offset, (self.len, (self.value, ())))
    }
}

impl Tagged for FillRange {
    open spec fn spec_taggable(&self) -> bool {
        self.spec_arguments().spec_taggable()
    }

    open spec fn spec_tags(&self) -> Seq<u8> {
        self.spec_arguments().spec_tags()
    }

    fn encode_tag(&self, buffer: &mut Vec<u8>) {
        let arguments = (self.offset, (self.len, (self.value, ())));
        assert(arguments == self.spec_arguments());
        arguments.encode_tag(buffer)
    }
}

impl TypeEncoder for FillRange {
    open spec fn spec_encodable(&self) -> bool {
        self.spec_arguments().spec_encodable()
    }

    open spec fn spec_encoding(&self) -> Seq<u8> {
        self.spec_arguments().spec_encoding()
    }

    fn encode_type(&self, buffer: &mut Vec<u8>) {
        let arguments = (self.offset, (self.len, (self.value, ())));
        assert(arguments == self.spec_arguments());
        arguments.encode_type(buffer)
    }
}

/// Close the sound file of a buffer.
#[derive(Clone, Copy, Debug, PartialEq, Eq)]
pub struct Close {
    pub id: Id,
}

impl Close {
    /// The message this command is sent as.
    pub open spec fn spec_packet(self) -> Packet<Str<'static>, (Id, ())> {
        Packet { address: Str("/b_close"), arguments: (self.id, ()) }
    }
}

impl TypeEncoder for Close {
    open spec fn spec_encodable(&self) -> bool {
        self.spec_packet().spec_encodable()
    }

    open spec fn spec_encoding(&self) -> Seq<u8> {
        self.spec_packet().spec_encoding()
    }

    fn encode_type(&self, buffer: &mut Vec<u8>) {
        let packet = Packet { address: Str("/b_close"), arguments: (self.id, ()) };
        assert(packet == self.spec_packet());
        packet.encode_type(buffer)
    }
}

} // verus!
