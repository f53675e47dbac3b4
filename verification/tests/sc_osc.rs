use euphony::osc::types::{FloatBits, TypeEncoder};
use euphony::sc::osc::{buffer, control, node, server, synthdef};
use rosc::{OscPacket, OscType};

fn encode<T: TypeEncoder>(value: &T) -> Vec<u8> {
    let mut buf: Vec<u8> = vec![];
    value.encode_type(&mut buf);
    buf
}

fn decode(bytes: &[u8]) -> (String, Vec<OscType>) {
    match rosc::decoder::decode_udp(bytes).unwrap().1 {
        OscPacket::Message(msg) => (msg.addr, msg.args),
        OscPacket::Bundle(_) => panic!("expected a message"),
    }
}

fn check<T: TypeEncoder>(value: &T, addr: &str, args: Vec<OscType>) {
    let (a, b) = decode(&encode(value));
    assert_eq!(a, addr);
    assert_eq!(b, args);
}

#[test]
fn quit_test() {
    assert_eq!(encode(&server::Quit), b"/quit\0\0\0,\0\0\0".to_vec());
    check(&server::Quit, "/quit", vec![]);
}

#[test]
fn status_test() {
    check(&server::Status, "/status", vec![]);
}

#[test]
fn sync_test() {
    check(&server::Sync, "/sync", vec![]);
}

#[test]
fn clear_sched_test() {
    check(&server::ClearScheduled, "/clearSched", vec![]);
}

#[test]
fn error_test() {
    check(
        &server::Error { mode: server::ErrorMode::Disabled },
        "/error",
        vec![OscType::Int(0)],
    );
    check(
        &server::Error { mode: server::ErrorMode::Enabled },
        "/error",
        vec![OscType::Int(1)],
    );
}

#[test]
fn version_test() {
    check(&server::Version, "/version", vec![]);
}

#[test]
fn receive_test() {
    let buffers: [&[u8]; 6] = [&[], &[1], &[1, 2], &[1, 2, 3], &[1, 2, 3, 4], &[1, 2, 3, 4, 5]];
    for b in buffers.iter() {
        check(
            &synthdef::Receive { buffer: b },
            "/d_recv",
            vec![OscType::Blob(b.to_vec())],
        );
    }
}

#[test]
fn load_test() {
    check(
        &synthdef::Load { path: "path/to/def" },
        "/d_load",
        vec![OscType::String("path/to/def".to_string())],
    );
}

#[test]
fn load_dir_test() {
    check(
        &synthdef::LoadDir { path: "path/to/dir" },
        "/d_loadDir",
        vec![OscType::String("path/to/dir".to_string())],
    );
}

#[test]
fn free_test() {
    check(
        &synthdef::Free { name: "my synthdef" },
        "/d_free",
        vec![OscType::String("my synthdef".to_string())],
    );
}

#[test]
fn osc_free_test() {
    check(&node::Free { id: node::Id(2) }, "/n_free", vec![OscType::Int(2)]);
}

#[test]
fn run_test() {
    check(
        &node::Run { id: node::Id(2), enabled: true },
        "/n_run",
        vec![OscType::Int(2), OscType::Int(1)],
    );
    check(
        &node::Run { id: node::Id(2), enabled: false },
        "/n_run",
        vec![OscType::Int(2), OscType::Int(0)],
    );
}

#[test]
fn set_test() {
    check(
        &node::SetControls {
            id: node::Id(2),
            controls: &[
                (control::Id::Index(1), control::Value::Float(FloatBits(3.14f32.to_bits()))),
                (control::Id::Name("controla"), control::Value::Int(123)),
            ],
        },
        "/n_set",
        vec![
            OscType::Int(2),
            OscType::Int(1),
            OscType::Float(3.14),
            OscType::String("controla".to_string()),
            OscType::Int(123),
        ],
    );
}

#[test]
fn setn_test() {
    check(
        &node::SetN {
            id: node::Id(2),
            ranges: &[node::SetNRange {
                id: control::Id::Index(1),
                values: &[
                    control::Value::Float(FloatBits(3.14f32.to_bits())),
                    control::Value::Int(123),
                ],
            }],
        },
        "/n_setn",
        vec![
            OscType::Int(2),
            OscType::Int(1),
            OscType::Int(2),
            OscType::Float(3.14),
            OscType::Int(123),
        ],
    );
}

#[test]
fn fill_test() {
    check(
        &node::Fill {
            id: node::Id(2),
            ranges: &[node::FillRange {
                id: control::Id::Index(1),
                count: 3,
                value: control::Value::Float(FloatBits(3.24f32.to_bits())),
            }],
        },
        "/n_fill",
        vec![OscType::Int(2), OscType::Int(1), OscType::Int(3), OscType::Float(3.24)],
    );
}

#[test]
fn osc_map_test() {
    check(
        &node::MapControls {
            id: node::Id(2),
            controls: &[(control::Id::Index(1), control::Bus(2))],
        },
        "/n_map",
        vec![OscType::Int(2), OscType::Int(1), OscType::Int(2)],
    );
}

#[test]
fn alloc_test() {
    check(
        &buffer::Alloc { id: buffer::Id(1), len: 123, channels: 456 },
        "/b_alloc",
        vec![OscType::Int(1), OscType::Int(123), OscType::Int(456)],
    );
}

#[test]
fn alloc_read_test() {
    check(
        &buffer::AllocRead { id: buffer::Id(1), path: "path/to/buffer", offset: 123, len: 456 },
        "/b_allocRead",
        vec![
            OscType::Int(1),
            OscType::String("path/to/buffer".to_string()),
            OscType::Int(123),
            OscType::Int(456),
        ],
    );
}

#[test]
fn alloc_read_channel_test() {
    check(
        &buffer::AllocReadChannel {
            id: buffer::Id(1),
            path: "path/to/buffer",
            offset: 123,
            len: 456,
            channels: &[1, 2, 3, 4, 5],
        },
        "/b_allocReadChannel",
        vec![
            OscType::Int(1),
            OscType::String("path/to/buffer".to_string()),
            OscType::Int(123),
            OscType::Int(456),
            OscType::Int(1),
            OscType::Int(2),
            OscType::Int(3),
            OscType::Int(4),
            OscType::Int(5),
        ],
    );
}

#[test]
fn notify_test() {
    check(
        &server::Notify { enabled: true, client_id: Some(7) },
        "/notify",
        vec![OscType::Int(1), OscType::Int(7)],
    );
    check(&server::Notify { enabled: false, client_id: None }, "/notify", vec![OscType::Int(0)]);
}
