//! The parts of the synth definition builder that do not run the graph
//! compiler: descriptions of compiled definitions, the values that flow
//! between unit generators and the numbering of their outputs.
use crate::osc::types::FloatBits;
use crate::sc::osc::control;
use crate::sc::synthdef::{
    definition_encodable, enc_container, Container, ContainerModel, Definition, DefinitionModel,
    Input, ParamName, ParamNameModel, UGen, UGenModel, Version,
};
use vstd::prelude::*;
use vstd::utf8::encode_utf8;

verus! {

/// A compiled synth definition: its name and the bytes of the synth
/// definition file that holds it.
pub struct SynthDesc {
    name: String,
    desc: Vec<u8>,
}

/// A reference to a compiled synth definition that lives for the whole
/// program.
#[derive(Clone, Copy)]
pub struct SynthDescRef {
    name: &'static str,
    desc: &'static [u8],
}

impl SynthDescRef {
    pub closed spec fn spec_name(&self) -> Seq<char> {
        self.name@
    }

    pub closed spec fn spec_desc(&self) -> Seq<u8> {
        self.desc@
    }
}

/// The model of the one definition that a description is built from.
pub open spec fn described_definition(
    name: Seq<char>,
    consts: Seq<u32>,
    params: Seq<(String, u32)>,
    ugens: Seq<UGenModel>,
) -> DefinitionModel {
    DefinitionModel {
        name,
        consts,
        params: params.map_values(|p: (String, u32)| p.1),
        param_names: Seq::new(
            params.len(),
            |i: int| ParamNameModel { name: params[i].0@, index: i as i32 },
        ),
        ugens,
        variants: Seq::empty(),
    }
}

impl SynthDesc {
    pub closed spec fn spec_name(&self) -> Seq<char> {
        self.name@
    }

    pub closed spec fn spec_desc(&self) -> Seq<u8> {
        self.desc@
    }

    /// Builds the description of a compiled definition: its parameters are
    /// numbered in order, each with its name and default (the bit pattern of
    /// a 32-bit float); the definition has no variants and is written alone
    /// in a version 2 file.
    pub fn build(name: &str, consts: Vec<u32>, params: &Vec<(String, u32)>, ugens: Vec<UGen>) -> (r: Self)
        requires
            encode_utf8(name@).len() <= 255,
            forall|i: int| 0 <= i < params.len() ==> encode_utf8(#[trigger] params@[i].0@).len() <= 255,
            forall|i: int| 0 <= i < ugens.len() ==> encode_utf8(#[trigger] ugens@[i].name@).len() <= 255,
        ensures
            r.spec_name() == name@,
            r.spec_desc() == enc_container(
                ContainerModel {
                    version: Version::V2,
                    defs: seq![
                        described_definition(
                            name@,
                            consts@,
                            params@,
                            ugens@.map_values(|u: UGen| u@),
                        ),
                    ],
                },
            ),
    {
        let mut defaults: Vec<u32> = Vec::new();
        let mut param_names: Vec<ParamName> = Vec::new();
        let mut i: usize = 0;
        while i < params.len()
            invariant
                i <= params@.len(),
                defaults@ == params@.take(i as int).map_values(|p: (String, u32)| p.1),
                param_names@.len() == i,
                forall|k: int|
                    0 <= k < i ==> (#[trigger] param_names@[k])@ == (ParamNameModel {
                        name: params@[k].0@,
                        index: k as i32,
                    }),
            decreases params@.len() - i,
        {
            defaults.push(params[i].1);
            param_names.push(ParamName { name: params[i].0.clone(), index: i as i32 });
            assert(params@.take(i + 1).map_values(|p: (String, u32)| p.1) =~= params@.take(
                i as int,
            ).map_values(|p: (String, u32)| p.1).push(params@[i as int].1));
            i = i + 1;
        }
        let ghost ugen_models = ugens@.map_values(|u: UGen| u@);
        let definition = Definition {
            name: name.to_owned(),
            consts,
            params: defaults,
            param_names,
            ugens,
            variants: Vec::new(),
        };
        let ghost d = described_definition(name@, consts@, params@, ugen_models);
        proof {
            assert(params@.take(params@.len() as int) == params@);
            assert(definition@.param_names =~= d.param_names);
            assert(definition@.variants =~= d.variants);
            assert(definition@ == d);
            assert forall|k: int| 0 <= k < d.ugens.len() implies encode_utf8(
                #[trigger] d.ugens[k].name,
            ).len() <= 255 by {
                assert(d.ugens[k] == definition.ugens@[k]@);
            }
            assert forall|k: int| 0 <= k < d.param_names.len() implies encode_utf8(
                #[trigger] d.param_names[k].name,
            ).len() <= 255 by {
                assert(d.param_names[k].name == params@[k].0@);
            }
            assert(definition_encodable(d));
        }
        let mut defs: Vec<Definition> = Vec::new();
        defs.push(definition);
        let container = Container { version: Version::V2, defs };
        proof {
            assert(container@.defs =~= seq![d]);
        }
        let desc = container.to_bytes();
        SynthDesc { name: name.to_owned(), desc }
    }

    /// A reference to this description.
    pub fn as_ref(&'static self) -> (r: SynthDescRef)
        ensures
            r.spec_name() == self.spec_name(),
            r.spec_desc() == self.spec_desc(),
    {
        SynthDescRef { name: self.name.as_str(), desc: self.desc.as_slice() }
    }
}

/// A synth definition with parameters of type `Params`.
pub struct SynthDef<Params> {
    desc: SynthDescRef,
    params: core::marker::PhantomData<Params>,
}

impl<Params> SynthDef<Params> {
    pub closed spec fn spec_desc(&self) -> SynthDescRef {
        self.desc
    }

    pub fn new(desc: SynthDescRef) -> (r: Self)
        ensures
            r.spec_desc() == desc,
    {
        Self { desc, params: core::marker::PhantomData }
    }

    pub fn name(&self) -> (r: &'static str)
        ensures
            r@ == self.spec_desc().spec_name(),
    {
        self.desc.name
    }

    pub fn desc(&self) -> (r: &'static [u8])
        ensures
            r@ == self.spec_desc().spec_desc(),
    {
        self.desc.desc
    }
}

/// A reference to a synth definition compiled elsewhere.
pub fn external_synthdef(name: &'static str, desc: &'static [u8]) -> (r: SynthDescRef)
    ensures
        r.spec_name() == name@,
        r.spec_desc() == desc@,
{
    SynthDescRef { name, desc }
}

/// What is known of a unit generator for optimisation.
#[derive(Clone, Copy, Debug)]
pub struct UgenMeta {
    /// Is this UGen free from side-effects (e.g. writing to a buffer, bus, etc)
    pub is_pure: bool,
    /// Does calling this UGen with the same arguments produce the same result?
    pub is_deterministic: bool,
}

impl Default for UgenMeta {
    fn default() -> (r: Self)
        ensures
            r.is_pure && r.is_deterministic,
    {
        Self { is_pure: true, is_deterministic: true }
    }
}

/// A parameter of a synth definition, by index.
#[derive(Clone, Copy, Debug, PartialEq, Eq)]
pub struct Parameter(pub u32);

impl Parameter {
    pub fn new(idx: u32) -> (r: Self)
        ensures
            r.0 == idx,
    {
        Self(idx)
    }
}

/// An output of a unit generator: the output's index, then the unit
/// generator's.
#[derive(Clone, Copy, Debug, PartialEq, Eq)]
pub struct Output(pub u32, pub u32);

impl Output {
    pub fn new(ugen: u32, output: u32) -> (r: Self)
        ensures
            r == Output(output, ugen),
    {
        Self(output, ugen)
    }
}

/// The input that reads a parameter: parameters are the outputs of the
/// first unit generator, which holds the controls. The index is taken as
/// the file format's signed number.
pub open spec fn spec_parameter_input(p: Parameter) -> Input {
    Input::UGen { index: 0, output: p.0 as i32 }
}

/// The input that reads an output of a unit generator.
pub open spec fn spec_output_input(o: Output) -> Input {
    Input::UGen { index: o.1 as i32, output: o.0 as i32 }
}

impl From<Parameter> for Input {
    fn from(value: Parameter) -> (r: Input)
        ensures
            r == spec_parameter_input(value),
    {
        Input::UGen { index: 0, output: value.0 as i32 }
    }
}

impl vstd::std_specs::convert::FromSpecImpl<Parameter> for Input {
    open spec fn obeys_from_spec() -> bool {
        true
    }

    open spec fn from_spec(v: Parameter) -> Input {
        spec_parameter_input(v)
    }
}

impl From<Output> for Input {
    fn from(value: Output) -> (r: Input)
        ensures
            r == spec_output_input(value),
    {
        Input::UGen { index: value.1 as i32, output: value.0 as i32 }
    }
}

impl vstd::std_specs::convert::FromSpecImpl<Output> for Input {
    open spec fn obeys_from_spec() -> bool {
        true
    }

    open spec fn from_spec(v: Output) -> Input {
        spec_output_input(v)
    }
}

/// What a value stands for: a constant (the bit pattern of a 32-bit float),
/// a parameter or the output of a unit generator.
#[derive(Clone, Copy, Debug, PartialEq, Eq)]
pub enum Variant {
    Const(u32),
    Parameter(Parameter),
    Output(Output),
}

/// A value flowing into a unit generator, packed into two words: the first
/// is `u32::MAX` for a constant, `u32::MAX - 1` for a parameter and the
/// output index otherwise.
#[derive(Clone, Copy, Debug, PartialEq, Eq)]
pub struct Value(pub u32, pub u32);

/// The packing of a variant.
pub open spec fn spec_as_value(v: Variant) -> Value {
    match v {
        Variant::Const(bits) => Value(u32::MAX, bits),
        Variant::Parameter(p) => Value((u32::MAX - 1) as u32, p.0),
        Variant::Output(o) => Value(o.0, o.1),
    }
}

/// The variant that a packed value stands for.
pub open spec fn spec_as_variant(v: Value) -> Variant {
    if v.0 == u32::MAX - 1 {
        Variant::Parameter(Parameter(v.1))
    } else if v.0 == u32::MAX {
        Variant::Const(v.1)
    } else {
        Variant::Output(Output(v.0, v.1))
    }
}

impl Variant {
    pub fn as_value(self) -> (r: Value)
        ensures
            r == spec_as_value(self),
    {
        match self {
            Variant::Const(bits) => Value(u32::MAX, bits),
            Variant::Parameter(p) => Value(u32::MAX - 1, p.0),
            Variant::Output(o) => Value(o.0, o.1),
        }
    }
}

impl From<Parameter> for Value {
    fn from(value: Parameter) -> (r: Value)
        ensures
            r == spec_as_value(Variant::Parameter(value)),
    {
        Value::from_parameter(value)
    }
}

impl vstd::std_specs::convert::FromSpecImpl<Parameter> for Value {
    open spec fn obeys_from_spec() -> bool {
        true
    }

    open spec fn from_spec(v: Parameter) -> Value {
        spec_as_value(Variant::Parameter(v))
    }
}

impl Value {
    /// A constant, given as the bit pattern of a 32-bit float.
    pub fn from_f32_bits(bits: u32) -> (r: Self)
        ensures
            r == spec_as_value(Variant::Const(bits)),
    {
        Variant::Const(bits).as_value()
    }

    pub fn from_parameter(value: Parameter) -> (r: Self)
        ensures
            r == spec_as_value(Variant::Parameter(value)),
    {
        Variant::Parameter(value).as_value()
    }

    pub fn from_parameter_id(value: u32) -> (r: Self)
        ensures
            r == spec_as_value(Variant::Parameter(Parameter(value))),
    {
        Variant::Parameter(Parameter(value)).as_value()
    }

    pub fn from_output(value: Output) -> (r: Self)
        ensures
            r == spec_as_value(Variant::Output(value)),
    {
        Variant::Output(value).as_value()
    }

    pub fn as_variant(self) -> (r: Variant)
        ensures
            r == spec_as_variant(self),
    {
        if self.0 == u32::MAX - 1 {
            Variant::Parameter(Parameter(self.1))
        } else if self.0 == u32::MAX {
            Variant::Const(self.1)
        } else {
            Variant::Output(Output(self.0, self.1))
        }
    }

    /// The value as a control value of a server command: only constants
    /// have one.
    pub fn as_osc(self) -> (r: Option<control::Value>)
        ensures
            r == match spec_as_variant(self) {
                Variant::Const(bits) => Some(control::Value::Float(FloatBits(bits))),
                _ => None::<control::Value>,
            },
    {
        match self.as_variant() {
            Variant::Const(bits) => Some(control::Value::Float(FloatBits(bits))),
            _ => None,
        }
    }
}

/// Packing a variant and reading it back gives the variant, except for an
/// output whose index is one of the two markers `u32::MAX - 1` and
/// `u32::MAX`.
pub proof fn lemma_value_round_trip(v: Variant)
    requires
        v matches Variant::Output(o) ==> o.0 < u32::MAX - 1,
    ensures
        spec_as_variant(spec_as_value(v)) == v,
{
}

/// Numbers the outputs of a unit generator as its outputs are taken.
pub struct OutputBuilder {
    ugen: u32,
    output: u32,
    count: u32,
}

impl OutputBuilder {
    pub closed spec fn spec_ugen(&self) -> u32 {
        self.ugen
    }

    pub closed spec fn spec_output(&self) -> u32 {
        self.output
    }

    pub closed spec fn spec_count(&self) -> u32 {
        self.count
    }

    /// A builder for the `count` outputs of unit generator `ugen`, none of
    /// them taken yet.
    pub fn new(ugen: u32, count: u32) -> (r: Self)
        ensures
            r.spec_ugen() == ugen,
            r.spec_output() == 0,
            r.spec_count() == count,
    {
        OutputBuilder { ugen, output: 0, count }
    }

    /// The number of outputs of the unit generator.
    pub fn count(&self) -> (r: usize)
        ensures
            r == self.spec_count(),
    {
        self.count as usize
    }

    /// Takes the next output.
    pub fn output(&mut self) -> (r: Value)
        requires
            old(self).spec_output() < u32::MAX,
        ensures
            r == spec_as_value(Variant::Output(Output(old(self).spec_output(), old(self).spec_ugen()))),
            final(self).spec_output() == old(self).spec_output() + 1,
            final(self).spec_ugen() == old(self).spec_ugen(),
            final(self).spec_count() == old(self).spec_count(),
    {
        let id = self.output;
        self.output = self.output + 1;
        Value::from_output(Output::new(self.ugen, id))
    }
}

/// What a unit generator's outputs are taken as.
pub trait OutputSpec: Sized {
    fn output(builder: &mut OutputBuilder) -> Self
        requires
            old(builder).spec_output() < u32::MAX,
    ;
}

impl OutputSpec for () {
    fn output(builder: &mut OutputBuilder) -> Self {
    }
}

impl OutputSpec for Value {
    /// The next output of the builder.
    fn output(builder: &mut OutputBuilder) -> (r: Self)
        ensures
            r == spec_as_value(Variant::Output(Output(old(builder).spec_output(), old(builder).spec_ugen()))),
            final(builder).spec_output() == old(builder).spec_output() + 1,
            final(builder).spec_ugen() == old(builder).spec_ugen(),
            final(builder).spec_count() == old(builder).spec_count(),
    {
        builder.output()
    }
}

} // verus!
