use crate::osc::types::{Blob, Packet, Str, TypeEncoder};
use vstd::prelude::*;

verus! {

/// Receive a synth definition file.
#[derive(Clone, Copy, Debug, PartialEq, Eq)]
pub struct Receive<'a> {
    pub buffer: &'a [u8],
}

impl<'a> Receive<'a> {
    /// The message this command is sent as.
    pub open spec fn spec_packet(self) -> Packet<Str<'static>, (Blob<'a>, ())> {
        Packet { address: Str("/d_recv"), arguments: (Blob(self.buffer), ()) }
    }
}

impl<'a> TypeEncoder for Receive<'a> {
    open spec fn spec_encodable(&self) -> bool {
        self.spec_packet().spec_encodable()
    }

    open spec fn spec_encoding(&self) -> Seq<u8> {
        self.spec_packet().spec_encoding()
    }

    fn encode_type(&self, buffer: &mut Vec<u8>) {
        let packet = Packet { address: Str("/d_recv"), arguments: (Blob(self.buffer), ()) };
        assert(packet == self.spec_packet());
        packet.encode_type(buffer)
    }
}

/// Load synth definition.
#[derive(Clone, Copy, Debug, PartialEq, Eq)]
pub struct Load<'a> {
    pub path: &'a str,
}

impl<'a> Load<'a> {
    /// The message this command is sent as.
    pub open spec fn spec_packet(self) -> Packet<Str<'static>, (Str<'a>, ())> {
        Packet { address: Str("/d_load"), arguments: (Str(self.path), ()) }
    }
}

impl<'a> TypeEncoder for Load<'a> {
    open spec fn spec_encodable(&self) -> bool {
        self.spec_packet().spec_encodable()
    }

    open spec fn spec_encoding(&self) -> Seq<u8> {
        self.spec_packet().spec_encoding()
    }

    fn encode_type(&self, buffer: &mut Vec<u8>) {
        let packet = Packet { address: Str("/d_load"), arguments: (Str(self.path), ()) };
        assert(packet == self.spec_packet());
        packet.encode_type(buffer)
    }
}

/// Load a directory of synth definitions.
#[derive(Clone, Copy, Debug, PartialEq, Eq)]
pub struct LoadDir<'a> {
    pub path: &'a str,
}

impl<'a> LoadDir<'a> {
    /// The message this command is sent as.
    pub open spec fn spec_packet(self) -> Packet<Str<'static>, (Str<'a>, ())> {
        Packet { address: Str("/d_loadDir"), arguments: (Str(self.path), ()) }
    }
}

impl<'a> TypeEncoder for LoadDir<'a> {
    open spec fn spec_encodable(&self) -> bool {
        self.spec_packet().spec_encodable()
    }

    open spec fn spec_encoding(&self) -> Seq<u8> {
        self.spec_packet().spec_encoding()
    }

    fn encode_type(&self, buffer: &mut Vec<u8>) {
        let packet = Packet { address: Str("/d_loadDir"), arguments: (Str(self.path), ()) };
        assert(packet == self.spec_packet());
        packet.encode_type(buffer)
    }
}

/// Delete synth definition.
#[derive(Clone, Copy, Debug, PartialEq, Eq)]
pub struct Free<'a> {
    pub name: &'a str,
}

impl<'a> Free<'a> {
    /// The message this command is sent as.
    pub open spec fn spec_packet(self) -> Packet<Str<'static>, (Str<'a>, ())> {
        Packet { address: Str("/d_free"), arguments: (Str(self.name), ()) }
    }
}

impl<'a> TypeEncoder for Free<'a> {
    open spec fn spec_encodable(&self) -> bool {
        self.spec_packet().spec_encodable()
    }

    open spec fn spec_encoding(&self) -> Seq<u8> {
        self.spec_packet().spec_encoding()
    }

    fn encode_type(&self, buffer: &mut Vec<u8>) {
        let packet = Packet { address: Str("/d_free"), arguments: (Str(self.name), ()) };
        assert(packet == self.spec_packet());
        packet.encode_type(buffer)
    }
}

} // verus!
