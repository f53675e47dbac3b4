use euphony::sc::builder::UgenMeta;
use euphony::sc::compiler::{optimize, ConstIds};
use euphony::sc::synthdef::{CalculationRate, Input, UGen};

fn ugen(name: &str, ins: Vec<Input>) -> UGen {
    UGen {
        name: name.to_string(),
        rate: CalculationRate::Audio,
        ins,
        outs: vec![CalculationRate::Audio],
        special_index: 0,
    }
}

fn meta(is_pure: bool) -> UgenMeta {
    UgenMeta { is_pure, is_deterministic: true }
}

#[test]
fn removes_unused_and_renumbers() {
    let prev = vec![1.0f32.to_bits(), 440.0f32.to_bits(), 0.0f32.to_bits()];
    let ugens = vec![
        ugen("Control", vec![]),
        ugen("SinOsc", vec![Input::Constant { index: 1 }, Input::Constant { index: 2 }]),
        ugen("Unused", vec![Input::UGen { index: 1, output: 0 }]),
        ugen("Out", vec![Input::UGen { index: 1, output: 0 }, Input::Constant { index: 0 }]),
    ];
    let uses = vec![0, 2, 0, 0];
    let metas = vec![meta(false), meta(true), meta(true), meta(false)];
    let (consts, out) = optimize(&prev, ugens, uses, &metas);
    assert_eq!(consts, vec![440.0f32.to_bits(), 0.0f32.to_bits(), 1.0f32.to_bits()]);
    assert_eq!(out.len(), 3);
    assert_eq!(out[0].name, "Control");
    assert_eq!(out[1].ins, vec![Input::Constant { index: 0 }, Input::Constant { index: 1 }]);
    assert_eq!(out[2].name, "Out");
    assert_eq!(out[2].ins, vec![Input::UGen { index: 1, output: 0 }, Input::Constant { index: 2 }]);
}

#[test]
fn removal_cascades() {
    // a chain of pure unit generators that ends unused goes entirely
    let prev = vec![5.0f32.to_bits()];
    let ugens = vec![
        ugen("A", vec![Input::Constant { index: 0 }]),
        ugen("B", vec![Input::UGen { index: 0, output: 0 }]),
        ugen("C", vec![Input::UGen { index: 1, output: 0 }]),
    ];
    let (consts, out) = optimize(&prev, ugens, vec![1, 1, 0], &vec![meta(true); 3]);
    assert!(out.is_empty());
    assert!(consts.is_empty());
}

#[test]
fn constants_are_shared() {
    let mut ids = ConstIds::new();
    assert_eq!(ids.get(7), 0);
    assert_eq!(ids.get(9), 1);
    assert_eq!(ids.get(7), 0);
    assert_eq!(ids.into_values(), vec![7, 9]);
}
