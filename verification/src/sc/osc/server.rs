use crate::osc::types::{Packet, Str, Tagged, TypeEncoder};
use crate::sc::osc::{bool_encoder, bool_value};
use vstd::prelude::*;

verus! {

/// Quit program. Exits the synthesis server.
#[derive(Clone, Copy, Debug, PartialEq, Eq)]
pub struct Quit;

impl Quit {
    /// The message this command is sent as.
    pub open spec fn spec_packet(self) -> Packet<Str<'static>, ()> {
        Packet { address: Str("/quit"), arguments: () }
    }
}

impl TypeEncoder for Quit {
    open spec fn spec_encodable(&self) -> bool {
        self.spec_packet().spec_encodable()
    }

    open spec fn spec_encoding(&self) -> Seq<u8> {
        self.spec_packet().spec_encoding()
    }

    fn encode_type(&self, buffer: &mut Vec<u8>) {
        let packet = Packet { address: Str("/quit"), arguments: () };
        assert(packet == self.spec_packet());
        packet.encode_type(buffer)
    }
}

/// Register to receive notifications from server
#[derive(Clone, Copy, Debug, PartialEq, Eq)]
pub struct Notify {
    pub enabled: bool,
    pub client_id: Option<i32>,
}

impl Notify {
    /// The message this command is sent as.
    pub open spec fn spec_packet(self) -> Packet<Str<'static>, (i32, (Option<i32>, ()))> {
        Packet { address: Str("/notify"), arguments: (bool_value(self.enabled), (self.client_id, ())) }
    }
}

impl TypeEncoder for Notify {
    open spec fn spec_encodable(&self) -> bool {
        self.spec_packet().spec_encodable()
    }

    open spec fn spec_encoding(&self) -> Seq<u8> {
        self.spec_packet().spec_encoding()
    }

    fn encode_type(&self, buffer: &mut Vec<u8>) {
        let packet = Packet { address: Str("/notify"), arguments: (bool_encoder(self.enabled), (self.client_id, ())) };
        assert(packet == self.spec_packet());
        packet.encode_type(buffer)
    }
}

/// Query the status.
///
/// Replies to sender with a /status.reply message
#[derive(Clone, Copy, Debug, PartialEq, Eq)]
pub struct Status;

impl Status {
    /// The message this command is sent as.
    pub open spec fn spec_packet(self) -> Packet<Str<'static>, ()> {
        Packet { address: Str("/status"), arguments: () }
    }
}

impl TypeEncoder for Status {
    open spec fn spec_encodable(&self) -> bool {
        self.spec_packet().spec_encodable()
    }

    open spec fn spec_encoding(&self) -> Seq<u8> {
        self.spec_packet().spec_encoding()
    }

    fn encode_type(&self, buffer: &mut Vec<u8>) {
        let packet = Packet { address: Str("/status"), arguments: () };
        assert(packet == self.spec_packet());
        packet.encode_type(buffer)
    }
}

/// Notify when async commands have completed.
#[derive(Clone, Copy, Debug, PartialEq, Eq)]
pub struct Sync;

impl Sync {
    /// The message this command is sent as.
    pub open spec fn spec_packet(self) -> Packet<Str<'static>, ()> {
        Packet { address: Str("/sync"), arguments: () }
    }
}

impl TypeEncoder for Sync {
    open spec fn spec_encodable(&self) -> bool {
        self.spec_packet().spec_encodable()
    }

    open spec fn spec_encoding(&self) -> Seq<u8> {
        self.spec_packet().spec_encoding()
    }

    fn encode_type(&self, buffer: &mut Vec<u8>) {
        let packet = Packet { address: Str("/sync"), arguments: () };
        assert(packet == self.spec_packet());
        packet.encode_type(buffer)
    }
}

/// Clear all scheduled bundles. Removes all bundles from the scheduling queue.
#[derive(Clone, Copy, Debug, PartialEq, Eq)]
pub struct ClearScheduled;

impl ClearScheduled {
    /// The message this command is sent as.
    pub open spec fn spec_packet(self) -> Packet<Str<'static>, ()> {
        Packet { address: Str("/clearSched"), arguments: () }
    }
}

impl TypeEncoder for ClearScheduled {
    open spec fn spec_encodable(&self) -> bool {
        self.spec_packet().spec_encodable()
    }

    open spec fn spec_encoding(&self) -> Seq<u8> {
        self.spec_packet().spec_encoding()
    }

    fn encode_type(&self, buffer: &mut Vec<u8>) {
        let packet = Packet { address: Str("/clearSched"), arguments: () };
        assert(packet == self.spec_packet());
        packet.encode_type(buffer)
    }
}

/// Enable/disable error message posting.
#[derive(Clone, Copy, Debug, PartialEq, Eq)]
pub struct Error {
    pub mode: ErrorMode,
}

impl Error {
    /// The message this command is sent as.
    pub open spec fn spec_packet(self) -> Packet<Str<'static>, (ErrorMode, ())> {
        Packet { address: Str("/error"), arguments: (self.mode, ()) }
    }
}

impl TypeEncoder for Error {
    open spec fn spec_encodable(&self) -> bool {
        self.spec_packet().spec_encodable()
    }

    open spec fn spec_encoding(&self) -> Seq<u8> {
        self.spec_packet().spec_encoding()
    }

    fn encode_type(&self, buffer: &mut Vec<u8>) {
        let packet = Packet { address: Str("/error"), arguments: (self.mode, ()) };
        assert(packet == self.spec_packet());
        packet.encode_type(buffer)
    }
}

/// Whether the server posts error messages.
#[derive(Clone, Copy, Debug, PartialEq, Eq)]
pub enum ErrorMode {
    Disabled,
    Enabled,
    LocalDisabled,
    LocalEnabled,
}

impl ErrorMode {
    /// The number that stands for this value on the wire.
    pub open spec fn spec_value(self) -> i32 {
        match self {
            ErrorMode::Disabled => 0i32,
            ErrorMode::Enabled => 1i32,
            ErrorMode::LocalDisabled => -1i32,
            ErrorMode::LocalEnabled => -2i32,
        }
    }

    /// The number that stands for this value on the wire.
    pub fn as_i32(self) -> (r: i32)
        ensures
            r == self.spec_value(),
    {
        match self {
            ErrorMode::Disabled => 0i32,
            ErrorMode::Enabled => 1i32,
            ErrorMode::LocalDisabled => -1i32,
            ErrorMode::LocalEnabled => -2i32,
        }
    }
}

impl TypeEncoder for ErrorMode {
    open spec fn spec_encodable(&self) -> bool {
        true
    }

    open spec fn spec_encoding(&self) -> Seq<u8> {
        self.spec_value().spec_encoding()
    }

    fn encode_type(&self, buffer: &mut Vec<u8>) {
        self.as_i32().encode_type(buffer)
    }
}

impl Tagged for ErrorMode {
    open spec fn spec_taggable(&self) -> bool {
        true
    }

    open spec fn spec_tags(&self) -> Seq<u8> {
        self.spec_value().spec_tags()
    }

    fn encode_tag(&self, buffer: &mut Vec<u8>) {
        self.as_i32().encode_tag(buffer)
    }
}

/// Query the SuperCollider version. Replies to sender with a /version.reply message
#[derive(Clone, Copy, Debug, PartialEq, Eq)]
pub struct Version;

impl Version {
    /// The message this command is sent as.
    pub open spec fn spec_packet(self) -> Packet<Str<'static>, ()> {
        Packet { address: Str("/version"), arguments: () }
    }
}

impl TypeEncoder for Version {
    open spec fn spec_encodable(&self) -> bool {
        self.spec_packet().spec_encodable()
    }

    open spec fn spec_encoding(&self) -> Seq<u8> {
        self.spec_packet().spec_encoding()
    }

    fn encode_type(&self, buffer: &mut Vec<u8>) {
        let packet = Packet { address: Str("/version"), arguments: () };
        assert(packet == self.spec_packet());
        packet.encode_type(buffer)
    }
}

} // verus!
