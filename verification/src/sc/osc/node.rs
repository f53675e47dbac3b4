use crate::osc::types::{Flatten, LenPrefix, Packet, Str, Tagged, TypeEncoder};
use crate::sc::osc::{bool_encoder, bool_value};
use crate::sc::osc::control;
use vstd::prelude::*;

verus! {

/// A node.
#[derive(Clone, Copy, Debug, PartialEq, Eq)]
pub struct Id(pub i32);

impl Tagged for Id {
    open spec fn spec_taggable(&self) -> bool {
        true
    }

    open spec fn spec_tags(&self) -> Seq<u8> {
        self.0.spec_tags()
    }

    fn encode_tag(&self, buffer: &mut Vec<u8>) {
        self.0.encode_tag(buffer)
    }
}

impl TypeEncoder for Id {
    open spec fn spec_encodable(&self) -> bool {
        true
    }

    open spec fn spec_encoding(&self) -> Seq<u8> {
        self.0.spec_encoding()
    }

    fn encode_type(&self, buffer: &mut Vec<u8>) {
        self.0.encode_type(buffer)
    }
}

/// Delete a node.
///
/// Stops a node abruptly, removes it from its group,
/// and frees its memory. A list of node IDs may be
/// specified. Using this method can cause a click
/// if the node is not silent at the time it is freed.
#[derive(Clone, Copy, Debug, PartialEq, Eq)]
pub struct Free {
    pub id: Id,
}

impl Free {
    /// The message this command is sent as.
    pub open spec fn spec_packet(self) -> Packet<Str<'static>, (Id, ())> {
        Packet { address: Str("/n_free"), arguments: (self.id, ()) }
    }
}

impl TypeEncoder for Free {
    open spec fn spec_encodable(&self) -> bool {
        self.spec_packet().spec_encodable()
    }

    open spec fn spec_encoding(&self) -> Seq<u8> {
        self.spec_packet().spec_encoding()
    }

    fn encode_type(&self, buffer: &mut Vec<u8>) {
        let packet = Packet { address: Str("/n_free"), arguments: (self.id, ()) };
        assert(packet == self.spec_packet());
        packet.encode_type(buffer)
    }
}

/// Turn node on or off.
///
/// Using this method to start and stop nodes can cause a click if the node is not silent at the time run flag is toggled.
#[derive(Clone, Copy, Debug, PartialEq, Eq)]
pub struct Run {
    pub id: Id,
    pub enabled: bool,
}

impl Run {
    /// The message this command is sent as.
    pub open spec fn spec_packet(self) -> Packet<Str<'static>, (Id, (i32, ()))> {
        Packet { address: Str("/n_run"), arguments: (self.id, (bool_value(self.enabled), ())) }
    }
}

impl TypeEncoder for Run {
    open spec fn spec_encodable(&self) -> bool {
        self.spec_packet().spec_encodable()
    }

    open spec fn spec_encoding(&self) -> Seq<u8> {
        self.spec_packet().spec_encoding()
    }

    fn encode_type(&self, buffer: &mut Vec<u8>) {
        let packet = Packet { address: Str("/n_run"), arguments: (self.id, (bool_encoder(self.enabled), ())) };
        assert(packet == self.spec_packet());
        packet.encode_type(buffer)
    }
}

/// Set a node's control value.
///
/// Takes a pair of control indices and values and sets the controls to those values. If the node is a group, then it sets the controls of every node in the group.
#[derive(Clone, Copy, Debug, PartialEq)]
pub struct SetControls<'a> {
    pub id: Id,
    pub controls: &'a [(control::Id<'a>, control::Value)],
}

impl<'a> SetControls<'a> {
    /// The message this command is sent as.
    pub open spec fn spec_packet(self) -> Packet<Str<'static>, (Id, (Flatten<'a, (control::Id<'a>, control::Value)>, ()))> {
        Packet { address: Str("/n_set"), arguments: (self.id, (Flatten(self.controls), ())) }
    }
}

impl<'a> TypeEncoder for SetControls<'a> {
    open spec fn spec_encodable(&self) -> bool {
        self.spec_packet().spec_encodable()
    }

    open spec fn spec_encoding(&self) -> Seq<u8> {
        self.spec_packet().spec_encoding()
    }

    fn encode_type(&self, buffer: &mut Vec<u8>) {
        let packet = Packet { address: Str("/n_set"), arguments: (self.id, (Flatten(self.controls), ())) };
        assert(packet == self.spec_packet());
        packet.encode_type(buffer)
    }
}

/// Set a node's control values, skipping the entries that are `None`.
#[derive(Clone, Copy, Debug, PartialEq)]
pub struct SetOptional<'a> {
    pub id: Id,
    pub controls: &'a [Option<(control::Id<'a>, control::Value)>],
}

impl<'a> SetOptional<'a> {
    /// The message this command is sent as.
    pub open spec fn spec_packet(self) -> Packet<Str<'static>, (Id, (Flatten<'a, Option<(control::Id<'a>, control::Value)>>, ()))> {
        Packet { address: Str("/n_set"), arguments: (self.id, (Flatten(self.controls), ())) }
    }
}

impl<'a> TypeEncoder for SetOptional<'a> {
    open spec fn spec_encodable(&self) -> bool {
        self.spec_packet().spec_encodable()
    }

    open spec fn spec_encoding(&self) -> Seq<u8> {
        self.spec_packet().spec_encoding()
    }

    fn encode_type(&self, buffer: &mut Vec<u8>) {
        let packet = Packet { address: Str("/n_set"), arguments: (self.id, (Flatten(self.controls), ())) };
        assert(packet == self.spec_packet());
        packet.encode_type(buffer)
    }
}

/// Set a range of a node's control values.
///
/// Set contiguous ranges of control indices to sets of values. For each range, the starting control index is given followed by the number of controls to change, followed by the values. If the node is a group, then it sets the controls of every node in the group.
#[derive(Clone, Copy, Debug, PartialEq)]
pub struct SetN<'a> {
    pub id: Id,
    pub ranges: &'a [SetNRange<'a>],
}

impl<'a> SetN<'a> {
    /// The message this command is sent as.
    pub open spec fn spec_packet(self) -> Packet<Str<'static>, (Id, (Flatten<'a, SetNRange<'a>>, ()))> {
        Packet { address: Str("/n_setn"), arguments: (self.id, (Flatten(self.ranges), ())) }
    }
}

impl<'a> TypeEncoder for SetN<'a> {
    open spec fn spec_encodable(&self) -> bool {
        self.spec_packet().spec_encodable()
    }

    open spec fn spec_encoding(&self) -> Seq<u8> {
        self.spec_packet().spec_encoding()
    }

    fn encode_type(&self, buffer: &mut Vec<u8>) {
        let packet = Packet { address: Str("/n_setn"), arguments: (self.id, (Flatten(self.ranges), ())) };
        assert(packet == self.spec_packet());
        packet.encode_type(buffer)
    }
}

/// One range of a `SetN`: the first control, then the values.
#[derive(Clone, Copy, Debug, PartialEq)]
pub struct SetNRange<'a> {
    pub id: control::Id<'a>,
    pub values: &'a [control::Value],
}

impl<'a> SetNRange<'a> {
    /// The arguments this value stands for.
    pub open spec fn spec_arguments(self) -> (control::Id<'a>, (LenPrefix<i32, Flatten<'a, control::Value>>, ())) {
        (self.id, (LenPrefix::<i32, Flatten<'a, control::Value>>::spec_new(Flatten(self.values)), ()))
    }
}

impl<'a> Tagged for SetNRange<'a> {
    open spec fn spec_taggable(&self) -> bool {
        self.spec_arguments().spec_taggable()
    }

    open spec fn spec_tags(&self) -> Seq<u8> {
        self.spec_arguments().spec_tags()
    }

    fn encode_tag(&self, buffer: &mut Vec<u8>) {
        let arguments = (self.id, (LenPrefix::<i32, Flatten<'a, control::Value>>::new(Flatten(self.values)), ()));
        assert(arguments == self.spec_arguments());
        arguments.encode_tag(buffer)
    }
}

impl<'a> TypeEncoder for SetNRange<'a> {
    open spec fn spec_encodable(&self) -> bool {
        self.spec_arguments().spec_encodable()
    }

    open spec fn spec_encoding(&self) -> Seq<u8> {
        self.spec_arguments().spec_encoding()
    }

    fn encode_type(&self, buffer: &mut Vec<u8>) {
        let arguments = (self.id, (LenPrefix::<i32, Flatten<'a, control::Value>>::new(Flatten(self.values)), ()));
        assert(arguments == self.spec_arguments());
        arguments.encode_type(buffer)
    }
}

/// Fill ranges of a node's control values.
///
/// Set contiguous ranges of control indices to single values. For each range, the starting control index is given followed by the number of controls to change, followed by the value to fill. If the node is a group, then it sets the controls of every node in the group.
#[derive(Clone, Copy, Debug, PartialEq)]
pub struct Fill<'a> {
    pub id: Id,
    pub ranges: &'a [FillRange<'a>],
}

impl<'a> Fill<'a> {
    /// The message this command is sent as.
    pub open spec fn spec_packet(self) -> Packet<Str<'static>, (Id, (Flatten<'a, FillRange<'a>>, ()))> {
        Packet { address: Str("/n_fill"), arguments: (self.id, (Flatten(self.ranges), ())) }
    }
}

impl<'a> TypeEncoder for Fill<'a> {
    open spec fn spec_encodable(&self) -> bool {
        self.spec_packet().spec_encodable()
    }

    open spec fn spec_encoding(&self) -> Seq<u8> {
        self.spec_packet().spec_encoding()
    }

    fn encode_type(&self, buffer: &mut Vec<u8>) {
        let packet = Packet { address: Str("/n_fill"), arguments: (self.id, (Flatten(self.ranges), ())) };
        assert(packet == self.spec_packet());
        packet.encode_type(buffer)
    }
}

/// One range of a `Fill`: the first control, the number of controls, the value.
#[derive(Clone, Copy, Debug, PartialEq)]
pub struct FillRange<'a> {
    pub id: control::Id<'a>,
    pub count: i32,
    pub value: control::Value,
}

impl<'a> FillRange<'a> {
    /// The arguments this value stands for.
    pub open spec fn spec_arguments(self) -> (control::Id<'a>, (i32, (control::Value, ()))) {
        (self.id, (self.count, (self.value, ())))
    }
}

impl<'a> Tagged for FillRange<'a> {
    open spec fn spec_taggable(&self) -> bool {
        self.spec_arguments().spec_taggable()
    }

    open spec fn spec_tags(&self) -> Seq<u8> {
        self.spec_arguments().spec_tags()
    }

    fn encode_tag(&self, buffer: &mut Vec<u8>) {
        let arguments = (self.id, (self.count, (self.value, ())));
        assert(arguments == self.spec_arguments());
        arguments.encode_tag(buffer)
    }
}

impl<'a> TypeEncoder for FillRange<'a> {
    open spec fn spec_encodable(&self) -> bool {
        self.spec_arguments().spec_encodable()
    }

    open spec fn spec_encoding(&self) -> Seq<u8> {
        self.spec_arguments().spec_encoding()
    }

    fn encode_type(&self, buffer: &mut Vec<u8>) {
        let arguments = (self.id, (self.count, (self.value, ())));
        assert(arguments == self.spec_arguments());
        arguments.encode_type(buffer)
    }
}

/// Map a node's controls to read from a control bus.
///
/// Takes a list of pairs of control names or indices and bus indices and causes those controls to be read continuously from a global control bus. If the node is a group, then it maps the controls of every node in the group. If the control bus index is -1 then any current mapping is undone. Any n_set, n_setn and n_fill command will also unmap the control.
#[derive(Clone, Copy, Debug, PartialEq, Eq)]
pub struct MapControls<'a> {
    pub id: Id,
    pub controls: &'a [(control::Id<'a>, control::Bus)],
}

impl<'a> MapControls<'a> {
    /// The message this command is sent as.
    pub open spec fn spec_packet(self) -> Packet<Str<'static>, (Id, (Flatten<'a, (control::Id<'a>, control::Bus)>, ()))> {
        Packet { address: Str("/n_map"), arguments: (self.id, (Flatten(self.controls), ())) }
    }
}

impl<'a> TypeEncoder for MapControls<'a> {
    open spec fn spec_encodable(&self) -> bool {
        self.spec_packet().spec_encodable()
    }

    open spec fn spec_encoding(&self) -> Seq<u8> {
        self.spec_packet().spec_encoding()
    }

    fn encode_type(&self, buffer: &mut Vec<u8>) {
        let packet = Packet { address: Str("/n_map"), arguments: (self.id, (Flatten(self.controls), ())) };
        assert(packet == self.spec_packet());
        packet.encode_type(buffer)
    }
}

/// Map a node's controls to read from buses.
///
/// Takes a list of triplets of control names or indices, bus indices, and number of controls to map and causes those controls to be mapped sequentially to buses. If the node is a group, then it maps the controls of every node in the group. If the control bus index is -1 then any current mapping is undone. Any n_set, n_setn and n_fill command will also unmap the control.
#[derive(Clone, Copy, Debug, PartialEq, Eq)]
pub struct MapN<'a> {
    pub id: Id,
    pub controls: &'a [MapControl<'a>],
}

impl<'a> MapN<'a> {
    /// The message this command is sent as.
    pub open spec fn spec_packet(self) -> Packet<Str<'static>, (Id, (Flatten<'a, MapControl<'a>>, ()))> {
        Packet { address: Str("/n_mapn"), arguments: (self.id, (Flatten(self.controls), ())) }
    }
}

impl<'a> TypeEncoder for MapN<'a> {
    open spec fn spec_encodable(&self) -> bool {
        self.spec_packet().spec_encodable()
    }

    open spec fn spec_encoding(&self) -> Seq<u8> {
        self.spec_packet().spec_encoding()
    }

    fn encode_type(&self, buffer: &mut Vec<u8>) {
        let packet = Packet { address: Str("/n_mapn"), arguments: (self.id, (Flatten(self.controls), ())) };
        assert(packet == self.spec_packet());
        packet.encode_type(buffer)
    }
}

/// One mapping of a `MapN` or `MapAN`: the first control, the bus, the number of controls.
#[derive(Clone, Copy, Debug, PartialEq, Eq)]
pub struct MapControl<'a> {
    pub id: control::Id<'a>,
    pub bus: control::Bus,
    pub count: i32,
}

impl<'a> MapControl<'a> {
    /// The arguments this value stands for.
    pub open spec fn spec_arguments(self) -> (control::Id<'a>, (control::Bus, (i32, ()))) {
        (self.id, (self.bus, (self.count, ())))
    }
}

impl<'a> Tagged for MapControl<'a> {
    open spec fn spec_taggable(&self) -> bool {
        self.spec_arguments().spec_taggable()
    }

    open spec fn spec_tags(&self) -> Seq<u8> {
        self.spec_arguments().spec_tags()
    }

    fn encode_tag(&self, buffer: &mut Vec<u8>) {
        let arguments = (self.id, (self.bus, (self.count, ())));
        assert(arguments == self.spec_arguments());
        arguments.encode_tag(buffer)
    }
}

impl<'a> TypeEncoder for MapControl<'a> {
    open spec fn spec_encodable(&self) -> bool {
        self.spec_arguments().spec_encodable()
    }

    open spec fn spec_encoding(&self) -> Seq<u8> {
        self.spec_arguments().spec_encoding()
    }

    fn encode_type(&self, buffer: &mut Vec<u8>) {
        let arguments = (self.id, (self.bus, (self.count, ())));
        assert(arguments == self.spec_arguments());
        arguments.encode_type(buffer)
    }
}

/// Map a node's controls to read from an audio bus.
///
/// Takes a list of pairs of control names or indices and audio bus indices and causes those controls to be read continuously from a global audio bus. If the node is a group, then it maps the controls of every node in the group. If the audio bus index is -1 then any current mapping is undone. Any n_set, n_setn and n_fill command will also unmap the control. For the full audio rate signal, the argument must have its rate set to \\ar.
#[derive(Clone, Copy, Debug, PartialEq, Eq)]
pub struct MapA<'a> {
    pub id: Id,
    pub controls: &'a [(control::Id<'a>, control::Bus)],
}

impl<'a> MapA<'a> {
    /// The message this command is sent as.
    pub open spec fn spec_packet(self) -> Packet<Str<'static>, (Id, (Flatten<'a, (control::Id<'a>, control::Bus)>, ()))> {
        Packet { address: Str("/n_mapa"), arguments: (self.id, (Flatten(self.controls), ())) }
    }
}

impl<'a> TypeEncoder for MapA<'a> {
    open spec fn spec_encodable(&self) -> bool {
        self.spec_packet().spec_encodable()
    }

    open spec fn spec_encoding(&self) -> Seq<u8> {
        self.spec_packet().spec_encoding()
    }

    fn encode_type(&self, buffer: &mut Vec<u8>) {
        let packet = Packet { address: Str("/n_mapa"), arguments: (self.id, (Flatten(self.controls), ())) };
        assert(packet == self.spec_packet());
        packet.encode_type(buffer)
    }
}

/// Map a node's controls to read from audio buses.
///
/// Takes a list of triplets of control names or indices, audio bus indices, and number of controls to map and causes those controls to be mapped sequentially to buses. If the node is a group, then it maps the controls of every node in the group. If the audio bus index is -1 then any current mapping is undone. Any n_set, n_setn and n_fill command will also unmap the control. For the full audio rate signal, the argument must have its rate set to \\ar.
#[derive(Clone, Copy, Debug, PartialEq, Eq)]
pub struct MapAN<'a> {
    pub id: Id,
    pub controls: &'a [MapControl<'a>],
}

impl<'a> MapAN<'a> {
    /// The message this command is sent as.
    pub open spec fn spec_packet(self) -> Packet<Str<'static>, (Id, (Flatten<'a, MapControl<'a>>, ()))> {
        Packet { address: Str("/n_mapan"), arguments: (self.id, (Flatten(self.controls), ())) }
    }
}

impl<'a> TypeEncoder for MapAN<'a> {
    open spec fn spec_encodable(&self) -> bool {
        self.spec_packet().spec_encodable()
    }

    open spec fn spec_encoding(&self) -> Seq<u8> {
        self.spec_packet().spec_encoding()
    }

    fn encode_type(&self, buffer: &mut Vec<u8>) {
        let packet = Packet { address: Str("/n_mapan"), arguments: (self.id, (Flatten(self.controls), ())) };
        assert(packet == self.spec_packet());
        packet.encode_type(buffer)
    }
}

/// Place a node before another.
#[derive(Clone, Copy, Debug, PartialEq, Eq)]
pub struct Before {
    /// the ID of the node to place
    pub subject: Id,
    /// the ID of the node before which the above is placed
    pub target: Id,
}

impl Before {
    /// The message this command is sent as.
    pub open spec fn spec_packet(self) -> Packet<Str<'static>, (Id, (Id, ()))> {
        Packet { address: Str("/n_before"), arguments: (self.subject, (self.target, ())) }
    }
}

impl TypeEncoder for Before {
    open spec fn spec_encodable(&self) -> bool {
        self.spec_packet().spec_encodable()
    }

    open spec fn spec_encoding(&self) -> Seq<u8> {
        self.spec_packet().spec_encoding()
    }

    fn encode_type(&self, buffer: &mut Vec<u8>) {
        let packet = Packet { address: Str("/n_before"), arguments: (self.subject, (self.target, ())) };
        assert(packet == self.spec_packet());
        packet.encode_type(buffer)
    }
}

/// Place a node after another.
#[derive(Clone, Copy, Debug, PartialEq, Eq)]
pub struct After {
    /// the ID of the node to place
    pub subject: Id,
    /// the ID of the node after which the above is placed
    pub target: Id,
}

impl After {
    /// The message this command is sent as.
    pub open spec fn spec_packet(self) -> Packet<Str<'static>, (Id, (Id, ()))> {
        Packet { address: Str("/n_after"), arguments: (self.subject, (self.target, ())) }
    }
}

impl TypeEncoder for After {
    open spec fn spec_encodable(&self) -> bool {
        self.spec_packet().spec_encodable()
    }

    open spec fn spec_encoding(&self) -> Seq<u8> {
        self.spec_packet().spec_encoding()
    }

    fn encode_type(&self, buffer: &mut Vec<u8>) {
        let packet = Packet { address: Str("/n_after"), arguments: (self.subject, (self.target, ())) };
        assert(packet == self.spec_packet());
        packet.encode_type(buffer)
    }
}

/// Get info about a node.
#[derive(Clone, Copy, Debug, PartialEq, Eq)]
pub struct Query {
    pub id: Id,
}

impl Query {
    /// The message this command is sent as.
    pub open spec fn spec_packet(self) -> Packet<Str<'static>, (Id, ())> {
        Packet { address: Str("/n_query"), arguments: (self.id, ()) }
    }
}

impl TypeEncoder for Query {
    open spec fn spec_encodable(&self) -> bool {
        self.spec_packet().spec_encodable()
    }

    open spec fn spec_encoding(&self) -> Seq<u8> {
        self.spec_packet().spec_encoding()
    }

    fn encode_type(&self, buffer: &mut Vec<u8>) {
        let packet = Packet { address: Str("/n_query"), arguments: (self.id, ()) };
        assert(packet == self.spec_packet());
        packet.encode_type(buffer)
    }
}

/// Trace a node.
#[derive(Clone, Copy, Debug, PartialEq, Eq)]
pub struct Trace {
    pub id: Id,
}

impl Trace {
    /// The message this command is sent as.
    pub open spec fn spec_packet(self) -> Packet<Str<'static>, (Id, ())> {
        Packet { address: Str("/n_trace"), arguments: (self.id, ()) }
    }
}

impl TypeEncoder for Trace {
    open spec fn spec_encodable(&self) -> bool {
        self.spec_packet().spec_encodable()
    }

    open spec fn spec_encoding(&self) -> Seq<u8> {
        self.spec_packet().spec_encoding()
    }

    fn encode_type(&self, buffer: &mut Vec<u8>) {
        let packet = Packet { address: Str("/n_trace"), arguments: (self.id, ()) };
        assert(packet == self.spec_packet());
        packet.encode_type(buffer)
    }
}

/// Move and order a list of nodes
#[derive(Clone, Copy, Debug, PartialEq, Eq)]
pub struct Order<'a> {
    pub action: Action,
    pub target: Id,
    pub ids: &'a [Id],
}

impl<'a> Order<'a> {
    /// The message this command is sent as.
    pub open spec fn spec_packet(self) -> Packet<Str<'static>, (Action, (Id, (Flatten<'a, Id>, ())))> {
        Packet { address: Str("/n_order"), arguments: (self.action, (self.target, (Flatten(self.ids), ()))) }
    }
}

impl<'a> TypeEncoder for Order<'a> {
    open spec fn spec_encodable(&self) -> bool {
        self.spec_packet().spec_encodable()
    }

    open spec fn spec_encoding(&self) -> Seq<u8> {
        self.spec_packet().spec_encoding()
    }

    fn encode_type(&self, buffer: &mut Vec<u8>) {
        let packet = Packet { address: Str("/n_order"), arguments: (self.action, (self.target, (Flatten(self.ids), ()))) };
        assert(packet == self.spec_packet());
        packet.encode_type(buffer)
    }
}

/// Where `Order` puts the nodes.
#[derive(Clone, Copy, Debug, PartialEq, Eq)]
pub enum Action {
    /// construct the node order at the head of the group specified by the add target ID.
    Head,
    /// construct the node order at the tail of the group specified by the add target ID.
    Tail,
    /// construct the node order just before the node specified by the add target ID.
    Before,
    /// construct the node order just after the node specified by the add target ID.
    After,
}

impl Action {
    /// The number that stands for this value on the wire.
    pub open spec fn spec_value(self) -> i32 {
        match self {
            Action::Head => 0i32,
            Action::Tail => 1i32,
            Action::Before => 2i32,
            Action::After => 3i32,
        }
    }

    /// The number that stands for this value on the wire.
    pub fn as_i32(self) -> (r: i32)
        ensures
            r == self.spec_value(),
    {
        match self {
            Action::Head => 0i32,
            Action::Tail => 1i32,
            Action::Before => 2i32,
            Action::After => 3i32,
        }
    }
}

impl TypeEncoder for Action {
    open spec fn spec_encodable(&self) -> bool {
        true
    }

    open spec fn spec_encoding(&self) -> Seq<u8> {
        self.spec_value().spec_encoding()
    }

    fn encode_type(&self, buffer: &mut Vec<u8>) {
        self.as_i32().encode_type(buffer)
    }
}

impl Tagged for Action {
    open spec fn spec_taggable(&self) -> bool {
        true
    }

    open spec fn spec_tags(&self) -> Seq<u8> {
        self.spec_value().spec_tags()
    }

    fn encode_tag(&self, buffer: &mut Vec<u8>) {
        self.as_i32().encode_tag(buffer)
    }
}

} // verus!
