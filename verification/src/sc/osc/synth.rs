use crate::osc::types::{Flatten, Packet, Str, TypeEncoder};
use crate::sc::osc::{control, group, node};
use vstd::prelude::*;

verus! {

/// Create a new synth.
///
/// Create a new synth from a synth definition, give it an ID, and add it to the tree of nodes.
#[derive(Clone, Copy, Debug, PartialEq)]
pub struct New<'a> {
    pub name: &'a str,
    pub id: node::Id,
    pub action: group::Action,
    pub target: node::Id,
    pub values: &'a [(control::Id<'a>, control::Value)],
    pub busses: &'a [(control::Id<'a>, control::Bus)],
}

impl<'a> New<'a> {
    /// The message this command is sent as.
    pub open spec fn spec_packet(self) -> Packet<Str<'static>, (Str<'a>, (node::Id, (group::Action, (node::Id, (Flatten<'a, (control::Id<'a>, control::Value)>, (Flatten<'a, (control::Id<'a>, control::Bus)>, ()))))))> {
        Packet { address: Str("/s_new"), arguments: (Str(self.name), (self.id, (self.action, (self.target, (Flatten(self.values), (Flatten(self.busses), ())))))) }
    }
}

impl<'a> TypeEncoder for New<'a> {
    open spec fn spec_encodable(&self) -> bool {
        self.spec_packet().spec_encodable()
    }

    open spec fn spec_encoding(&self) -> Seq<u8> {
        self.spec_packet().spec_encoding()
    }

    fn encode_type(&self, buffer: &mut Vec<u8>) {
        let packet = Packet { address: Str("/s_new"), arguments: (Str(self.name), (self.id, (self.action, (self.target, (Flatten(self.values), (Flatten(self.busses), ())))))) };
        assert(packet == self.spec_packet());
        packet.encode_type(buffer)
    }
}

/// Create a new synth, skipping the control values that are `None`.
#[derive(Clone, Copy, Debug, PartialEq)]
pub struct NewOptional<'a> {
    pub name: &'a str,
    pub id: node::Id,
    pub action: group::Action,
    pub target: node::Id,
    pub values: &'a [Option<(control::Id<'a>, control::Value)>],
}

impl<'a> NewOptional<'a> {
    /// The message this command is sent as.
    pub open spec fn spec_packet(self) -> Packet<Str<'static>, (Str<'a>, (node::Id, (group::Action, (node::Id, (Flatten<'a, Option<(control::Id<'a>, control::Value)>>, ())))))> {
        Packet { address: Str("/s_new"), arguments: (Str(self.name), (self.id, (self.action, (self.target, (Flatten(self.values), ()))))) }
    }
}

impl<'a> TypeEncoder for NewOptional<'a> {
    open spec fn spec_encodable(&self) -> bool {
        self.spec_packet().spec_encodable()
    }

    open spec fn spec_encoding(&self) -> Seq<u8> {
        self.spec_packet().spec_encoding()
    }

    fn encode_type(&self, buffer: &mut Vec<u8>) {
        let packet = Packet { address: Str("/s_new"), arguments: (Str(self.name), (self.id, (self.action, (self.target, (Flatten(self.values), ()))))) };
        assert(packet == self.spec_packet());
        packet.encode_type(buffer)
    }
}

} // verus!
