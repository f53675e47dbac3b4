use euphony::sc::synthdef::{decode_pstring, encode_pstring};
use euphony::sc::synthdef::{
    BinaryOp, CalculationRate, Container, DecodeError, Definition, EncodeError, Input, ParamName, UGen,
    UnaryOp, Variant, Version,
};

fn sine_definition() -> Definition {
    Definition {
        name: "sine".to_string(),
        consts: vec![0.0f32.to_bits(), 440.0f32.to_bits()],
        params: vec![0.5f32.to_bits()],
        param_names: vec![ParamName { name: "amp".to_string(), index: 0 }],
        ugens: vec![
            UGen {
                name: "Control".to_string(),
                rate: CalculationRate::Control,
                ins: vec![],
                outs: vec![CalculationRate::Control],
                special_index: 0,
            },
            UGen {
                name: "SinOsc".to_string(),
                rate: CalculationRate::Audio,
                ins: vec![Input::Constant { index: 1 }, Input::Constant { index: 0 }],
                outs: vec![CalculationRate::Audio],
                special_index: 0,
            },
            UGen {
                name: "BinaryOpUGen".to_string(),
                rate: CalculationRate::Audio,
                ins: vec![Input::UGen { index: 1, output: 0 }, Input::UGen { index: 0, output: 0 }],
                outs: vec![CalculationRate::Audio],
                special_index: 2,
            },
        ],
        variants: vec![],
    }
}

#[test]
fn container_round_trip_v2() {
    let container = Container { version: Version::V2, defs: vec![sine_definition()] };
    let bytes = container.encode().unwrap();
    let (decoded, used) = Container::decode(&bytes).unwrap();
    assert_eq!(decoded, container);
    assert_eq!(used, bytes.len());
}

#[test]
fn container_round_trip_v1() {
    let container = Container { version: Version::V1, defs: vec![sine_definition(), sine_definition()] };
    let bytes = container.encode().unwrap();
    let (decoded, used) = Container::decode(&bytes).unwrap();
    assert_eq!(decoded, container);
    assert_eq!(used, bytes.len());
}

#[test]
fn container_exact_bytes() {
    let def = Definition {
        name: "a".to_string(),
        consts: vec![],
        params: vec![],
        param_names: vec![],
        ugens: vec![],
        variants: vec![],
    };
    let container = Container { version: Version::V2, defs: vec![def] };
    let bytes = container.encode().unwrap();
    let mut expected: Vec<u8> = b"SCgf".to_vec();
    expected.extend_from_slice(&[0, 0, 0, 2]); // version
    expected.extend_from_slice(&[0, 1]); // one definition
    expected.extend_from_slice(&[1, b'a']); // name
    expected.extend_from_slice(&[0, 0, 0, 0]); // constants
    expected.extend_from_slice(&[0, 0, 0, 0]); // parameters
    expected.extend_from_slice(&[0, 0, 0, 0]); // parameter names
    expected.extend_from_slice(&[0, 0, 0, 0]); // unit generators
    expected.extend_from_slice(&[0, 0]); // variants
    assert_eq!(bytes, expected);

    let v1 = Container { version: Version::V1, defs: container.defs.clone() }.encode().unwrap();
    let mut expected: Vec<u8> = b"SCgf".to_vec();
    expected.extend_from_slice(&[0, 0, 0, 1, 0, 1, 1, b'a', 0, 0, 0, 0, 0, 0, 0, 0, 0, 0]);
    assert_eq!(v1, expected);
}

#[test]
fn container_errors() {
    assert_eq!(Container::decode(b"SCg"), Err(DecodeError::UnexpectedEnd));
    assert_eq!(
        Container::decode(b"SCgg\0\0\0\x02\0\0"),
        Err(DecodeError::InvalidValue("invalid container ID"))
    );
    assert_eq!(
        Container::decode(b"SCgf\0\0\0\x03\0\0"),
        Err(DecodeError::InvalidValue("invalid version"))
    );
    assert_eq!(Container::decode(b"SCgf\0\0\0\x02\0\x01"), Err(DecodeError::UnexpectedEnd));
    // a name that is not UTF-8
    assert_eq!(
        Container::decode(b"SCgf\0\0\0\x02\0\x01\x01\xff"),
        Err(DecodeError::InvalidValue("invalid string encoding"))
    );
    // a negative count of definitions reads as none
    assert_eq!(
        Container::decode(b"SCgf\0\0\0\x02\xff\xff"),
        Ok((Container { version: Version::V2, defs: vec![] }, 10))
    );
}

#[test]
fn calculation_rates() {
    assert_eq!(CalculationRate::decode(&[0]), Ok((CalculationRate::Scalar, 1)));
    assert_eq!(CalculationRate::decode(&[2]), Ok((CalculationRate::Audio, 1)));
    assert_eq!(
        CalculationRate::decode(&[3]),
        Err(DecodeError::InvalidValue("invalid calculation rate"))
    );
    assert_eq!(CalculationRate::Demand.encode(), vec![3]);
    assert_eq!(CalculationRate::decode(&[]), Err(DecodeError::UnexpectedEnd));
}

#[test]
fn inputs_and_versions() {
    assert_eq!(
        Input::decode(&[0xff, 0xff, 0xff, 0xff, 0, 0, 0, 5]),
        Ok((Input::Constant { index: 5 }, 8))
    );
    assert_eq!(Input::decode(&[0, 0, 0, 3, 0, 0, 0, 1]), Ok((Input::UGen { index: 3, output: 1 }, 8)));
    assert_eq!(Version::decode(&[0, 0, 0, 1]), Ok((Version::V1, 4)));
    assert_eq!(Version::decode(&[0, 0, 0, 0]), Err(DecodeError::InvalidValue("invalid version")));
    assert_eq!(Version::V2.as_i32(), 2);
}

#[test]
fn variants_are_read_without_count() {
    // a definition with one parameter and one variant: the variant is read as
    // its name and then one value, with no count in front
    let mut bytes: Vec<u8> = vec![1, b'd'];
    bytes.extend_from_slice(&[0, 0, 0, 0]); // constants
    bytes.extend_from_slice(&[0, 0, 0, 1, 0x3f, 0x80, 0, 0]); // one parameter: 1.0
    bytes.extend_from_slice(&[0, 0, 0, 0]); // parameter names
    bytes.extend_from_slice(&[0, 0, 0, 0]); // unit generators
    bytes.extend_from_slice(&[0, 1, 1, b'v', 0x40, 0, 0, 0]); // one variant: 2.0
    let (def, used) = Definition::decode(&bytes).unwrap();
    assert_eq!(used, bytes.len());
    assert_eq!(def.variants, vec![Variant { name: "v".to_string(), params: vec![2.0f32.to_bits()] }]);
    assert_eq!(def.params, vec![1.0f32.to_bits()]);
}

#[test]
fn param_name_decode() {
    let bytes = [3, b'a', b'm', b'p', 0, 0, 0, 7];
    let (p, used) = ParamName::decode(&bytes).unwrap();
    assert_eq!(p, ParamName { name: "amp".to_string(), index: 7 });
    assert_eq!(used, 8);
}

#[test]
fn ugen_decode() {
    let def = sine_definition();
    let bytes = def.encode(Version::V2).unwrap();
    let (decoded, _) = Definition::decode(&bytes).unwrap();
    assert_eq!(decoded, def);
    let ugen_bytes: Vec<u8> = vec![1, b'u', 2, 0, 0, 0, 0, 0, 0, 0, 1, 0, 9, 1];
    let (u, used) = UGen::decode(&ugen_bytes).unwrap();
    assert_eq!(used, ugen_bytes.len());
    assert_eq!(
        u,
        UGen {
            name: "u".to_string(),
            rate: CalculationRate::Audio,
            ins: vec![],
            outs: vec![CalculationRate::Control],
            special_index: 9,
        }
    );
}

#[test]
fn operator_codes() {
    assert_eq!(UnaryOp::from_i16(0), Some(UnaryOp::Neg));
    assert_eq!(UnaryOp::from_i16(53), Some(UnaryOp::SCurve));
    assert_eq!(UnaryOp::from_i16(54), None);
    assert_eq!(UnaryOp::MidiCps.as_i16(), 17);
    assert_eq!(BinaryOp::from_i16(2), Some(BinaryOp::Multiply));
    assert_eq!(BinaryOp::from_i16(35), None);
    assert_eq!(BinaryOp::from_i16(36), Some(BinaryOp::SqrSum));
    assert_eq!(BinaryOp::ExpRand.as_i16(), 48);
    assert_eq!(BinaryOp::from_i16(-1), None);
}

#[test]
fn long_name_encode_error_test() {
    let mut def = sine_definition();
    def.ugens[1].name = "x".repeat(256);
    assert_eq!(
        def.encode(Version::V2),
        Err(EncodeError::InvalidValue("string exceeds maximum limit"))
    );
    let container = Container { version: Version::V2, defs: vec![sine_definition(), def] };
    assert_eq!(
        container.encode(),
        Err(EncodeError::InvalidValue("string exceeds maximum limit"))
    );
    let mut ok = sine_definition();
    ok.name = "y".repeat(255);
    assert!(ok.encode(Version::V1).is_ok());
}

#[test]
fn pstring_test() {
    let mut buffer = vec![9u8];
    assert_eq!(encode_pstring("héllo", &mut buffer), Ok(()));
    assert_eq!(buffer, vec![9, 6, b'h', 0xc3, 0xa9, b'l', b'l', b'o']);
    buffer.extend_from_slice(&[1, 2]);
    assert_eq!(decode_pstring(&buffer[1..]), Ok(("héllo".to_string(), 7)));
    assert_eq!(decode_pstring(&[3, b'a']), Err(DecodeError::UnexpectedEnd));
    assert_eq!(decode_pstring(&[]), Err(DecodeError::UnexpectedEnd));
    assert_eq!(
        decode_pstring(&[1, 0xff]),
        Err(DecodeError::InvalidValue("invalid string encoding"))
    );
    let long = "z".repeat(256);
    let mut out = vec![];
    assert_eq!(
        encode_pstring(&long, &mut out),
        Err(EncodeError::InvalidValue("string exceeds maximum limit"))
    );
    assert!(out.is_empty());
}
