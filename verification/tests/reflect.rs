use euphony::node::reflect::{nodes_file, Input, Node};

fn node(name: &str, impl_path: &str, id: u64) -> Node {
    Node {
        name: name.to_string(),
        module: vec!["osc".to_string()],
        impl_path: impl_path.to_string(),
        id,
        inputs: vec![Input {
            name: "frequency".to_string(),
            id: 0,
            trigger: false,
            default: 440.0f64.to_bits(),
        }],
        docs: String::new(),
    }
}

#[test]
fn nodes_file_test() {
    let nodes = vec![
        node("Sine", "euphony_dsp::osc", 12),
        node("Say \"hi\"", "dsp::binary::math", 3),
    ];
    let out = String::from_utf8(nodes_file(&nodes)).unwrap();
    let expected = "#![deny(unreachable_patterns)]

#[rustfmt::skip]
use euphony_node::{BoxProcessor, Error, ParameterValue as Value};

#[rustfmt::skip]
#[inline]
pub fn load(processor: u64) -> Option<BoxProcessor> {
    match processor {
        12 => Some(crate::osc::Sine::spawn()),
        3 => Some(crate::binary::math::Say \"hi\"::spawn()),
        _ => None,
    }
}

#[rustfmt::skip]
#[inline]
pub fn name(processor: u64) -> Option<&'static str> {
    match processor {
        12 => Some(\"Sine\"),
        3 => Some(\"Say \\\"hi\\\"\"),
        _ => None,
    }
}

#[rustfmt::skip]
#[inline]
pub fn validate_parameter(processor: u64, parameter: u64, value: Value) -> Result<(), Error> {
    match processor {
        12 => crate::osc::Sine::validate_parameter(parameter, value),
        3 => crate::binary::math::Say \"hi\"::validate_parameter(parameter, value),
        _ => unreachable!(\"processor ({}) param ({}) doesn't exist\", processor, parameter)
    }
}
";
    assert_eq!(out, expected);
}

#[test]
fn nodes_file_empty_test() {
    let out = String::from_utf8(nodes_file(&vec![])).unwrap();
    assert!(out.contains("    match processor {\n        _ => None,"));
    assert!(out.ends_with("parameter)\n    }\n}\n"));
}
