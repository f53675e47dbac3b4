use euphony::sc::expand::{InputInfo, Inputs};
use euphony::sc::synthdef::{CalculationRate, Input};

fn out(index: i32, output: i32, rate: CalculationRate) -> InputInfo {
    InputInfo { input: Input::UGen { index, output }, rate }
}

fn inputs_of(infos: &[InputInfo]) -> Vec<(Input, CalculationRate)> {
    infos.iter().map(|i| (i.input, i.rate)).collect()
}

#[test]
fn expand_test() {
    // generator 0 was instantiated twice, generator 1 once
    let ranges = vec![0..2, 2..3];
    let outputs = vec![
        vec![out(0, 0, CalculationRate::Audio)],
        vec![out(1, 0, CalculationRate::Control)],
        vec![out(2, 0, CalculationRate::Audio), out(2, 1, CalculationRate::Scalar)],
    ];
    let inputs = Inputs::new(
        vec![
            vec![Input::UGen { index: 0, output: 0 }],
            vec![Input::Constant { index: 5 }],
            vec![Input::UGen { index: 1, output: 1 }, Input::Constant { index: 7 }],
        ],
        &ranges,
        &outputs,
    );
    let expand = inputs.expand();
    assert_eq!(expand.len(), 2);
    assert!(!expand.is_empty());
    assert_eq!(
        inputs_of(&expand.expansion(0)),
        vec![
            (Input::UGen { index: 0, output: 0 }, CalculationRate::Audio),
            (Input::Constant { index: 5 }, CalculationRate::Scalar),
            (Input::UGen { index: 2, output: 1 }, CalculationRate::Scalar),
        ]
    );
    assert_eq!(
        inputs_of(&expand.expansion(1)),
        vec![
            (Input::UGen { index: 1, output: 0 }, CalculationRate::Control),
            (Input::Constant { index: 5 }, CalculationRate::Scalar),
            (Input::Constant { index: 7 }, CalculationRate::Scalar),
        ]
    );
}

#[test]
fn expand_empty_input_test() {
    let ranges = vec![0..0];
    let outputs: Vec<Vec<InputInfo>> = vec![];
    let inputs = Inputs::new(
        vec![vec![Input::Constant { index: 0 }], vec![Input::UGen { index: 0, output: 3 }]],
        &ranges,
        &outputs,
    );
    let expand = inputs.expand();
    assert_eq!(expand.len(), 0);
    assert!(expand.is_empty());
    let none = Inputs::new(vec![], &ranges, &outputs);
    assert_eq!(none.expand().len(), 0);
}
