use euphony::sc::synthdef::{CalculationRate, Definition, Input, ParamName, UGen};

fn ugen(name: &str, ins: Vec<Input>, outs: usize, special_index: i16) -> UGen {
    UGen {
        name: name.to_string(),
        rate: CalculationRate::Audio,
        ins,
        outs: vec![CalculationRate::Audio; outs],
        special_index,
    }
}

#[test]
fn dot_test() {
    let def = Definition {
        name: "sine".to_string(),
        consts: vec![0.0f32.to_bits(), 440.0f32.to_bits()],
        params: vec![0.5f32.to_bits(), 1.0f32.to_bits()],
        param_names: vec![ParamName { name: "amp".to_string(), index: 0 }],
        ugens: vec![
            ugen("Control", vec![], 2, 0),
            ugen("SinOsc", vec![Input::Constant { index: 1 }, Input::UGen { index: 0, output: 1 }], 1, 0),
            ugen("BinaryOpGen", vec![Input::UGen { index: 1, output: 0 }], 1, 2),
            ugen("UnaryOpGen", vec![], 1, -3),
        ],
        variants: vec![],
    };
    let labels = vec!["0.5".to_string(), "1".to_string()];
    let consts = vec!["0".to_string(), "440".to_string()];
    let out = String::from_utf8(def.dot(&labels, &consts)).unwrap();
    let expected = "digraph G {
  label = \"sine\";
  rankdir=\"LR\";
  subgraph cluster_params {
    label = \"params\";
    output_0_0 [label = \"amp (0.5)\"];
    output_0_1 [label = \"1\"];
  }
  subgraph cluster_ugens_1 {
    label = \"SinOsc\";
    input_0_1 [label = \"input_0 = 440\"];
    input_1_1 [label = \"input_1\"];
    output_0_1 -> input_1_1;
    output_1_0 [label = \"output_0\"];
  }
  subgraph cluster_ugens_2 {
    label = \"Multiply\";
    input_2_0 [label = \"input_0\"];
    output_1_0 -> input_2_0;
    output_2_0 [label = \"output_0\"];
  }
  subgraph cluster_ugens_3 {
    label = \"UnaryOpUGen (-3)\";
    output_3_0 [label = \"output_0\"];
  }
}
";
    assert_eq!(out, expected);
}

#[test]
fn dot_without_params_test() {
    let def = Definition {
        name: "empty".to_string(),
        consts: vec![],
        params: vec![],
        param_names: vec![],
        ugens: vec![],
        variants: vec![],
    };
    let out = String::from_utf8(def.dot(&vec![], &vec![])).unwrap();
    assert_eq!(out, "digraph G {\n  label = \"empty\";\n  rankdir=\"LR\";\n}\n");
}
