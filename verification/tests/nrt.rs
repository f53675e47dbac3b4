use euphony::node::SampleType;
use euphony::nrt::Render;

#[test]
fn render_arguments() {
    let render = Render { commands: "score.osc", input: None, output: "out.wav", channels: 2 };
    assert_eq!(
        render.arguments(),
        vec!["-N", "score.osc", "_", "out.wav", "48000", "WAV", "int24", "-o", "2"]
    );
    let render = Render { commands: "c", input: Some("in.wav"), output: "o", channels: 16 };
    assert_eq!(render.arguments()[2], "in.wav");
    assert_eq!(render.arguments()[8], "16");
}

#[test]
fn sample_type_inputs() {
    assert_eq!(SampleType::Pcm.as_u8(), 0);
    assert_eq!(SampleType::Radius.as_u8(), 3);
    assert!(SampleType::Azimuth < SampleType::Inclination);
}
