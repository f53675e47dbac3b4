use euphony::nrt::bundle::Bundle as ScoreBundle;
use euphony::nrt::score::{event_id, record, write_entry, write_score};
use euphony::osc::bundle::Bundle;
use euphony::osc::types::Timetag;
use euphony::sc::osc::{buffer, node, server};

fn expected_quit() -> Vec<u8> {
    b"/quit\0\0\0,\0\0\0".to_vec()
}

#[test]
fn osc_bundle_bytes() {
    let mut bundle = Bundle::new(Timetag::from_parts(1, 2));
    assert!(bundle.is_empty());
    bundle.write(&server::Quit);
    bundle.write(&node::Free { id: node::Id(3) });
    let bytes = bundle.finish().unwrap();

    let mut expected: Vec<u8> = b"#bundle\0".to_vec();
    expected.extend_from_slice(&[0, 0, 0, 1, 0, 0, 0, 2]);
    expected.extend_from_slice(&[0, 0, 0, 12]);
    expected.extend_from_slice(&expected_quit());
    expected.extend_from_slice(&[0, 0, 0, 16]);
    expected.extend_from_slice(b"/n_free\0,i\0\0\0\0\0\x03");
    assert_eq!(&bytes[..], &expected[..]);

    assert!(Bundle::default().finish().is_none());
}

#[test]
fn score_bundle_has_length() {
    let mut bundle = ScoreBundle::new(Timetag::from_parts(0, 0));
    bundle.write(&server::Quit);
    let bytes = bundle.finish().unwrap();
    let mut expected: Vec<u8> = vec![0, 0, 0, 32];
    expected.extend_from_slice(b"#bundle\0");
    expected.extend_from_slice(&[0; 8]);
    expected.extend_from_slice(&[0, 0, 0, 12]);
    expected.extend_from_slice(&expected_quit());
    assert_eq!(&bytes[..], &expected[..]);
    assert_eq!(bytes.len(), 36);
    assert!(ScoreBundle::default().finish().is_none());
}

#[test]
fn score_entries() {
    let id = event_id(Timetag::from_parts(5, 6), 7);
    assert_eq!(id, [0, 0, 0, 5, 0, 0, 0, 6, 0, 0, 0, 7]);

    let rec = record(&server::Quit);
    assert_eq!(rec, [vec![0, 0, 0, 12], expected_quit()].concat());

    let mut out: Vec<u8> = vec![];
    let n = write_entry(&mut out, &[9; 8], &rec);
    assert_eq!(n, 36);
    assert_eq!(&out[..4], &[0, 0, 0, 32]);
    assert_eq!(&out[4..12], b"#bundle\0");
    assert_eq!(&out[12..20], &[9; 8]);
    assert_eq!(&out[20..], &rec[..]);
}

#[test]
fn score_order() {
    let synths = vec![vec![1u8, 2, 3]];
    let buffers = vec![buffer::AllocRead { id: buffer::Id(1), path: "a", offset: 0, len: 4 }];
    let events = vec![(event_id(Timetag::from_parts(3, 0), 0), record(&server::Sync))];
    let mut out: Vec<u8> = vec![];
    let n = write_score(&mut out, &synths, &buffers, &events);
    assert_eq!(n, out.len());

    // the synth definition at time zero
    assert_eq!(&out[0..4], &[0, 0, 0, 19]);
    assert_eq!(&out[12..20], &[0; 8]);
    assert_eq!(&out[20..23], &[1, 2, 3]);
    // then the buffer at time zero
    let buffer_record = record(&buffers[0]);
    let at = 23;
    assert_eq!(&out[at + 12..at + 20], &[0; 8]);
    assert_eq!(&out[at + 20..at + 20 + buffer_record.len()], &buffer_record[..]);
    // then the event at its time
    let at = at + 20 + buffer_record.len();
    assert_eq!(&out[at + 12..at + 20], &[0, 0, 0, 3, 0, 0, 0, 0]);
    assert_eq!(&out[at + 20..], &record(&server::Sync)[..]);
}
