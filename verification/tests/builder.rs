use euphony::sc::builder::{
    external_synthdef, Output, OutputBuilder, OutputSpec, Parameter, SynthDef, SynthDesc,
    UgenMeta, Value, Variant,
};
use euphony::sc::osc::control;
use euphony::osc::types::FloatBits;
use euphony::sc::synthdef::{CalculationRate, Container, Input, UGen, Version};

#[test]
fn value_size_test() {
    assert_eq!(core::mem::size_of::<Value>(), 8);
}

#[test]
fn value_packing() {
    let c = Value::from_f32_bits(1.5f32.to_bits());
    assert_eq!(c, Value(u32::MAX, 1.5f32.to_bits()));
    assert_eq!(c.as_variant(), Variant::Const(1.5f32.to_bits()));
    assert_eq!(c.as_osc(), Some(control::Value::Float(FloatBits(1.5f32.to_bits()))));

    let p = Value::from_parameter(Parameter::new(3));
    assert_eq!(p, Value(u32::MAX - 1, 3));
    assert_eq!(p.as_variant(), Variant::Parameter(Parameter(3)));
    assert_eq!(Value::from_parameter_id(3), p);
    assert_eq!(p.as_osc(), None);

    let o = Value::from_output(Output::new(4, 1));
    assert_eq!(o, Value(1, 4));
    assert_eq!(o.as_variant(), Variant::Output(Output(1, 4)));
    assert_eq!(Variant::Output(Output(1, 4)).as_value(), o);
}

#[test]
fn output_numbering() {
    let mut builder = OutputBuilder::new(7, 2);
    assert_eq!(builder.count(), 2);
    let a = builder.output();
    let b: Value = OutputSpec::output(&mut builder);
    assert_eq!(a, Value(0, 7));
    assert_eq!(b, Value(1, 7));
    let () = OutputSpec::output(&mut builder);
}

#[test]
fn ugen_meta_default() {
    let m = UgenMeta::default();
    assert!(m.is_pure);
    assert!(m.is_deterministic);
}

#[test]
fn build_description() {
    let params = vec![("amp".to_string(), 0.5f32.to_bits()), ("freq".to_string(), 440.0f32.to_bits())];
    let ugens = vec![UGen {
        name: "Control".to_string(),
        rate: CalculationRate::Control,
        ins: vec![Input::Constant { index: 0 }],
        outs: vec![CalculationRate::Control, CalculationRate::Control],
        special_index: 0,
    }];
    let desc = SynthDesc::build("tone", vec![1.0f32.to_bits()], &params, ugens.clone());
    let desc: &'static SynthDesc = Box::leak(Box::new(desc));
    let r = desc.as_ref();
    let def: SynthDef<()> = SynthDef::new(r);
    assert_eq!(def.name(), "tone");
    let (container, used) = Container::decode(def.desc()).unwrap();
    assert_eq!(used, def.desc().len());
    assert_eq!(container.version, Version::V2);
    assert_eq!(container.defs.len(), 1);
    let d = &container.defs[0];
    assert_eq!(d.name, "tone");
    assert_eq!(d.consts, vec![1.0f32.to_bits()]);
    assert_eq!(d.params, vec![0.5f32.to_bits(), 440.0f32.to_bits()]);
    assert_eq!(d.param_names[1].name, "freq");
    assert_eq!(d.param_names[1].index, 1);
    assert_eq!(d.ugens, ugens);
    assert!(d.variants.is_empty());
}

#[test]
fn external_description() {
    let r = external_synthdef("ext", &[1, 2, 3]);
    let def: SynthDef<u8> = SynthDef::new(r);
    assert_eq!(def.name(), "ext");
    assert_eq!(def.desc(), &[1, 2, 3]);
}

#[test]
fn parameter_input_test() {
    assert_eq!(
        Input::from(Parameter::new(3)),
        Input::UGen { index: 0, output: 3 }
    );
    assert_eq!(Value::from(Parameter::new(3)).as_osc(), None);
    assert_eq!(
        Input::from(Output::new(4, 1)),
        Input::UGen { index: 4, output: 1 }
    );
}
