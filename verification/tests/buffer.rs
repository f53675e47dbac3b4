use euphony::sc::buffer::{BufDef, BufDefGroup, BufView, Buffer, Contents};
use euphony::sc::envelope::Curve;
use euphony::sc::osc::buffer::Id;
use core::time::Duration;

struct Fixed;

static HASH: [u8; 32] = [7; 32];

impl Contents for Fixed {
    fn spec_hash(&self) -> [u8; 32] {
        HASH
    }

    fn spec_as_path<'a>(&'a self, _out_dir: &'a str) -> &'a str {
        "samples/fixed.wav"
    }

    fn hash(&self) -> &[u8; 32] {
        &HASH
    }

    fn as_path<'a>(&'a self, _out_dir: &'a str) -> &'a str {
        "samples/fixed.wav"
    }

    fn as_slice(&self) -> &[u8] {
        &[]
    }
}

static FIXED: Fixed = Fixed;

static DEF: BufDef = BufDef {
    channels: 2,
    sample_rate: 48000,
    bit_depth: 16,
    frames: 96000,
    contents: &FIXED,
};

static DEF2: BufDef = BufDef {
    channels: 1,
    sample_rate: 44100,
    bit_depth: 24,
    frames: 10,
    contents: &FIXED,
};

static GROUP: [&BufDef; 2] = [&DEF, &DEF2];

#[test]
fn buffer_definition() {
    assert_eq!(DEF.hash(), &[7; 32]);
    assert_eq!(DEF.path("out"), "samples/fixed.wav");
    assert_eq!(DEF.duration(), Duration::from_secs(2));
    let view = BufView::from_def(&DEF);
    assert_eq!(view.frames(), 0..96000);
}

#[test]
fn buffer_group() {
    let group = BufDefGroup { buffers: &GROUP };
    assert_eq!(group.len(), 2);
    assert!(!group.is_empty());
    assert_eq!(group.get(3).frames, 10);
    assert_eq!(group.first().frames, 96000);
    let empty = BufDefGroup { buffers: &[] };
    assert!(empty.is_empty());
}

#[test]
fn buffer_to_osc() {
    let buffer = Buffer::new(Id(4), BufView::from_def(&DEF2));
    assert_eq!(buffer.id(), Id(4));
    let cmd = buffer.to_osc("out");
    assert_eq!(cmd.id, Id(4));
    assert_eq!(cmd.path, "samples/fixed.wav");
    assert_eq!(cmd.offset, 0);
    assert_eq!(cmd.len, 10);
}

#[test]
fn curve_codes() {
    assert_eq!(Curve::Step.as_i32(), 0);
    assert_eq!(Curve::Welch.as_i32(), 4);
    assert_eq!(Curve::Squared.as_i32(), 6);
    assert_eq!(Curve::Hold.as_i32(), 8);
}
