use euphony::midi::chunk::ChunkHeader;
use euphony::midi::codec::{DecodeValue, DecoderError, EncodeValue, MIDIValue};
use euphony::midi::integer::{u14le, u16be, u24be, u28varint, u32be, u7, ConversionError};
use euphony::midi::notes::{Event, Note, Notes};

#[test]
fn foo() {
    let mut notes = Notes::default();

    let events = [
        Event::On { note: Note::new(0).unwrap() },
        Event::On { note: Note::new(0).unwrap() },
        Event::Off { note: Note::new(0).unwrap() },
    ];

    for event in events {
        notes.insert(event);
        println!("{:?}", &notes);
        println!("{:?}", notes.transpose(-1));
        println!("{:?}", notes.transpose(1));
    }
}

#[test]
fn u14le_round_trip_test() {
    let mut buffer: Vec<u8> = vec![];
    for expected in 0u16..(u14le::max_value().get()) {
        let expected = u14le::new(expected).unwrap();
        expected.encode(&mut buffer).unwrap();
        let actual = u14le::decode(&mut &buffer[..]);
        assert_eq!(Ok(expected), actual);
        buffer.clear();
    }
}

#[test]
fn u28varint_test() {
    let tests = [
        (&[0x00][..], 0x0000_0000),
        (&[0x67][..], 0x0000_0067),
        (&[0x7F][..], 0x0000_007F),
        (&[0x81, 0x00][..], 0x0000_0080),
        (&[0xC6, 0x45][..], 0x0000_2345),
        (&[0xFF, 0x7F][..], 0x0000_3FFF),
        (&[0x81, 0x80, 0x00][..], 0x0000_4000),
        (&[0xC8, 0xE8, 0x56][..], 0x0012_3456),
        (&[0xFF, 0xFF, 0x7F][..], 0x001F_FFFF),
        (&[0x81, 0x80, 0x80, 0x00][..], 0x0020_0000),
        (&[0xC4, 0xEA, 0xF9, 0x5E][..], 0x089A_BCDE),
        (&[0xFF, 0xFF, 0xFF, 0x7F][..], 0x0FFF_FFFF),
    ];

    let mut out: Vec<u8> = vec![];

    for (buffer, value) in tests.iter() {
        let value = u28varint::new(*value).expect("value overflow");
        let mut input: &[u8] = buffer;
        assert_eq!(input.decode::<u28varint>().unwrap(), value);

        out.clear();
        out.encode(&value).unwrap();
        assert_eq!(&out[..], &buffer[..]);
    }
}

#[test]
fn integer_bounds() {
    assert_eq!(u7::new(127).map(|v| v.get()), Some(127));
    assert_eq!(u7::new(128), None);
    assert_eq!(u7::new_lossy(0xff).get(), 0x7f);
    assert_eq!(u7::try_from(200), Err(ConversionError));
    assert_eq!(u14le::max_value().get(), 0x3fff);
    assert_eq!(u28varint::new(0x1000_0000), None);
    assert_eq!(u24be::max_value().get(), 0x00ff_ffff);
}

#[test]
fn fixed_width_encodings() {
    let mut out: Vec<u8> = vec![];
    out.encode(&u16be::new(0x1234).unwrap()).unwrap();
    out.encode(&u24be::new(0x0a0b0c).unwrap()).unwrap();
    out.encode(&u32be::new(0xdeadbeef).unwrap()).unwrap();
    out.encode(&u14le::new(0x3fff).unwrap()).unwrap();
    assert_eq!(out, vec![0x12, 0x34, 0x0a, 0x0b, 0x0c, 0xde, 0xad, 0xbe, 0xef, 0x7f, 0x7f]);

    let mut input: &[u8] = &out[..];
    assert_eq!(input.decode::<u16be>().unwrap().get(), 0x1234);
    assert_eq!(input.decode::<u24be>().unwrap().get(), 0x0a0b0c);
    assert_eq!(input.decode::<u32be>().unwrap().get(), 0xdeadbeef);
    assert_eq!(input.decode::<u14le>().unwrap().get(), 0x3fff);
    assert_eq!(input.decode::<u7>(), Err(DecoderError::EOF));
}

#[test]
fn u7_rejects_high_bit() {
    let mut input: &[u8] = &[0x80];
    assert!(matches!(input.decode::<u7>(), Err(DecoderError::InvariantViolation(_))));
}

#[test]
fn varint_too_long_is_refused() {
    let mut input: &[u8] = &[0x81, 0x80, 0x80, 0x80, 0x00];
    assert!(input.decode::<u28varint>().is_err());
}

#[test]
fn chunk_header_round_trip() {
    let header = ChunkHeader::Track(0x1234);
    let mut out: Vec<u8> = vec![];
    out.encode(&header).unwrap();
    assert_eq!(out, vec![b'M', b'T', b'r', b'k', 0x00, 0x00, 0x12, 0x34]);
    let mut input: &[u8] = &out[..];
    let back = input.decode::<ChunkHeader>().unwrap();
    assert!(matches!(back, ChunkHeader::Track(0x1234)));
    assert_eq!(header.len(), 0x1234);

    let mut other: &[u8] = &[b'a', b'b', b'c', b'd', 0, 0, 0, 7];
    let undefined = other.decode::<ChunkHeader>().unwrap();
    assert!(matches!(undefined, ChunkHeader::Undefined([b'a', b'b', b'c', b'd'], 7)));
}

#[test]
fn notes_on_off() {
    let mut notes = Notes::default();
    let c = Note::new(60).unwrap();
    assert_eq!(notes.on(c), Some(c));
    assert_eq!(notes.on(c), None);
    assert_eq!(notes.len(), 1);
    assert_eq!(notes.get(c), 2);
    assert_eq!(notes.off(c), None);
    assert_eq!(notes.off(c), Some(c));
    assert!(notes.is_empty());
    assert_eq!(notes.off(c), None);
}

#[test]
fn notes_transpose_and_diff() {
    let mut notes = Notes::default();
    notes.on(Note::new(60).unwrap());
    notes.on(Note::new(127).unwrap());
    let up = notes.transpose(1);
    assert_eq!(up.active(), vec![Note::new(61).unwrap()]);
    let back = up.transpose(-1);
    assert_eq!(back.active(), vec![Note::new(60).unwrap()]);

    assert!(notes.diff(&notes).is_empty());

    // the difference only looks at the note numbers below the larger of
    // the two lengths
    let events = notes.diff(&back);
    assert_eq!(events, vec![]);
    let mut low = Notes::default();
    low.on(Note::new(0).unwrap());
    low.on(Note::new(1).unwrap());
    let mut high = Notes::default();
    high.on(Note::new(1).unwrap());
    high.on(Note::new(2).unwrap());
    assert_eq!(low.diff(&high), vec![Event::Off { note: Note::new(0).unwrap() }]);
    assert_eq!(high.diff(&low), vec![Event::On { note: Note::new(0).unwrap() }]);
}

#[test]
fn note_transpose_bounds() {
    let n = Note::new(0).unwrap();
    assert_eq!(n.transpose(-1), None);
    assert_eq!(n.transpose(127).map(|n| n.get()), Some(127));
    assert_eq!(Note::new(128), None);
}
