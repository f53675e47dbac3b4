use crate::osc::types::{Packet, Str, TypeEncoder};
use vstd::prelude::*;

verus! {

/// End a non-real-time rendering.
#[derive(Clone, Copy, Debug, PartialEq, Eq)]
pub struct End;

impl End {
    /// The message this command is sent as.
    pub open spec fn spec_packet(self) -> Packet<Str<'static>, ()> {
        Packet { address: Str("/nrt_end"), arguments: () }
    }
}

impl TypeEncoder for End {
    open spec fn spec_encodable(&self) -> bool {
        self.spec_packet().spec_encodable()
    }

    open spec fn spec_encoding(&self) -> Seq<u8> {
        self.spec_packet().spec_encoding()
    }

    fn encode_type(&self, buffer: &mut Vec<u8>) {
        let packet = Packet { address: Str("/nrt_end"), arguments: () };
        assert(packet == self.spec_packet());
        packet.encode_type(buffer)
    }
}

} // verus!
