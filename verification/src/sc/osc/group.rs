use crate::osc::types::{Packet, Str, Tagged, TypeEncoder};
use crate::sc::osc::node;
use vstd::prelude::*;

verus! {

/// A group.
#[derive(Clone, Copy, Debug, PartialEq, Eq)]
pub struct Id(pub i32);

impl Tagged for Id {
    open spec fn spec_taggable(&self) -> bool {
        true
    }

    open spec fn spec_tags(&self) -> Seq<u8> {
        self.0.spec_tags()
    }

    fn encode_tag(&self, buffer: &mut Vec<u8>) {
        self.0.encode_tag(buffer)
    }
}

impl TypeEncoder for Id {
    open spec fn spec_encodable(&self) -> bool {
        true
    }

    open spec fn spec_encoding(&self) -> Seq<u8> {
        self.0.spec_encoding()
    }

    fn encode_type(&self, buffer: &mut Vec<u8>) {
        self.0.encode_type(buffer)
    }
}

/// Create a new group.
///
/// Create a new group and add it to the tree of nodes.
#[derive(Clone, Copy, Debug, PartialEq, Eq)]
pub struct New {
    pub id: Id,
    pub action: Action,
    pub target: node::Id,
}

impl New {
    /// The message this command is sent as.
    pub open spec fn spec_packet(self) -> Packet<Str<'static>, (Id, (Action, (node::Id, ())))> {
        Packet { address: Str("/g_new"), arguments: (self.id, (self.action, (self.target, ()))) }
    }
}

impl TypeEncoder for New {
    open spec fn spec_encodable(&self) -> bool {
        self.spec_packet().spec_encodable()
    }

    open spec fn spec_encoding(&self) -> Seq<u8> {
        self.spec_packet().spec_encoding()
    }

    fn encode_type(&self, buffer: &mut Vec<u8>) {
        let packet = Packet { address: Str("/g_new"), arguments: (self.id, (self.action, (self.target, ()))) };
        assert(packet == self.spec_packet());
        packet.encode_type(buffer)
    }
}

/// Where a new node is added, relative to its target.
#[derive(Clone, Copy, Debug, PartialEq, Eq)]
pub enum Action {
    /// construct the node order at the head of the group specified by the add target ID.
    Head,
    /// construct the node order at the tail of the group specified by the add target ID.
    Tail,
    /// construct the node order just before the node specified by the add target ID.
    Before,
    /// construct the node order just after the node specified by the add target ID.
    After,
    /// the new node replaces the node specified by the add target ID. The target node is freed.
    Replace,
}

impl Action {
    /// The number that stands for this value on the wire.
    pub open spec fn spec_value(self) -> i32 {
        match self {
            Action::Head => 0i32,
            Action::Tail => 1i32,
            Action::Before => 2i32,
            Action::After => 3i32,
            Action::Replace => 4i32,
        }
    }

    /// The number that stands for this value on the wire.
    pub fn as_i32(self) -> (r: i32)
        ensures
            r == self.spec_value(),
    {
        match self {
            Action::Head => 0i32,
            Action::Tail => 1i32,
            Action::Before => 2i32,
            Action::After => 3i32,
            Action::Replace => 4i32,
        }
    }
}

impl TypeEncoder for Action {
    open spec fn spec_encodable(&self) -> bool {
        true
    }

    open spec fn spec_encoding(&self) -> Seq<u8> {
        self.spec_value().spec_encoding()
    }

    fn encode_type(&self, buffer: &mut Vec<u8>) {
        self.as_i32().encode_type(buffer)
    }
}

impl Tagged for Action {
    open spec fn spec_taggable(&self) -> bool {
        true
    }

    open spec fn spec_tags(&self) -> Seq<u8> {
        self.spec_value().spec_tags()
    }

    fn encode_tag(&self, buffer: &mut Vec<u8>) {
        self.as_i32().encode_tag(buffer)
    }
}

impl Default for Action {
    fn default() -> (r: Self)
        ensures
            r == Action::Tail,
    {
        Action::Tail
    }
}

/// Create a new parallel group.
///
/// Create a new parallel group and add it to the tree of nodes. Parallel groups are relaxed groups, their child nodes are evaluated in unspecified order.
#[derive(Clone, Copy, Debug, PartialEq, Eq)]
pub struct PNew {
    pub id: Id,
    pub action: Action,
    pub target: node::Id,
}

impl PNew {
    /// The message this command is sent as.
    pub open spec fn spec_packet(self) -> Packet<Str<'static>, (Id, (Action, (node::Id, ())))> {
        Packet { address: Str("/p_new"), arguments: (self.id, (self.action, (self.target, ()))) }
    }
}

impl TypeEncoder for PNew {
    open spec fn spec_encodable(&self) -> bool {
        self.spec_packet().spec_encodable()
    }

    open spec fn spec_encoding(&self) -> Seq<u8> {
        self.spec_packet().spec_encoding()
    }

    fn encode_type(&self, buffer: &mut Vec<u8>) {
        let packet = Packet { address: Str("/p_new"), arguments: (self.id, (self.action, (self.target, ()))) };
        assert(packet == self.spec_packet());
        packet.encode_type(buffer)
    }
}

/// Add node to head of group.
///
/// Adds the node to the head (first to be executed) of the group.
#[derive(Clone, Copy, Debug, PartialEq, Eq)]
pub struct Head {
    pub id: Id,
    pub node: node::Id,
}

impl Head {
    /// The message this command is sent as.
    pub open spec fn spec_packet(self) -> Packet<Str<'static>, (Id, (node::Id, ()))> {
        Packet { address: Str("/g_head"), arguments: (self.id, (self.node, ())) }
    }
}

impl TypeEncoder for Head {
    open spec fn spec_encodable(&self) -> bool {
        self.spec_packet().spec_encodable()
    }

    open spec fn spec_encoding(&self) -> Seq<u8> {
        self.spec_packet().spec_encoding()
    }

    fn encode_type(&self, buffer: &mut Vec<u8>) {
        let packet = Packet { address: Str("/g_head"), arguments: (self.id, (self.node, ())) };
        assert(packet == self.spec_packet());
        packet.encode_type(buffer)
    }
}

/// Add node to tail of group.
///
/// Adds the node to the tail (last to be executed) of the group.
#[derive(Clone, Copy, Debug, PartialEq, Eq)]
pub struct Tail {
    pub id: Id,
    pub node: node::Id,
}

impl Tail {
    /// The message this command is sent as.
    pub open spec fn spec_packet(self) -> Packet<Str<'static>, (Id, (node::Id, ()))> {
        Packet { address: Str("/g_tail"), arguments: (self.id, (self.node, ())) }
    }
}

impl TypeEncoder for Tail {
    open spec fn spec_encodable(&self) -> bool {
        self.spec_packet().spec_encodable()
    }

    open spec fn spec_encoding(&self) -> Seq<u8> {
        self.spec_packet().spec_encoding()
    }

    fn encode_type(&self, buffer: &mut Vec<u8>) {
        let packet = Packet { address: Str("/g_tail"), arguments: (self.id, (self.node, ())) };
        assert(packet == self.spec_packet());
        packet.encode_type(buffer)
    }
}

/// Delete all nodes in a group.
///
/// Frees all nodes in the group.
#[derive(Clone, Copy, Debug, PartialEq, Eq)]
pub struct FreeAll {
    pub id: Id,
}

impl FreeAll {
    /// The message this command is sent as.
    pub open spec fn spec_packet(self) -> Packet<Str<'static>, (Id, ())> {
        Packet { address: Str("/g_freeAll"), arguments: (self.id, ()) }
    }
}

impl TypeEncoder for FreeAll {
    open spec fn spec_encodable(&self) -> bool {
        self.spec_packet().spec_encodable()
    }

    open spec fn spec_encoding(&self) -> Seq<u8> {
        self.spec_packet().spec_encoding()
    }

    fn encode_type(&self, buffer: &mut Vec<u8>) {
        let packet = Packet { address: Str("/g_freeAll"), arguments: (self.id, ()) };
        assert(packet == self.spec_packet());
        packet.encode_type(buffer)
    }
}

/// Free all synths in this group and all its sub-groups.
///
/// Traverses all groups below this group and frees all the synths. Sub-groups are not freed.
#[derive(Clone, Copy, Debug, PartialEq, Eq)]
pub struct DeepFree {
    pub id: Id,
}

impl DeepFree {
    /// The message this command is sent as.
    pub open spec fn spec_packet(self) -> Packet<Str<'static>, (Id, ())> {
        Packet { address: Str("/g_deepFree"), arguments: (self.id, ()) }
    }
}

impl TypeEncoder for DeepFree {
    open spec fn spec_encodable(&self) -> bool {
        self.spec_packet().spec_encodable()
    }

    open spec fn spec_encoding(&self) -> Seq<u8> {
        self.spec_packet().spec_encoding()
    }

    fn encode_type(&self, buffer: &mut Vec<u8>) {
        let packet = Packet { address: Str("/g_deepFree"), arguments: (self.id, ()) };
        assert(packet == self.spec_packet());
        packet.encode_type(buffer)
    }
}

} // verus!
