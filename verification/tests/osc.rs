use euphony::osc::types::{Address, AddressError, Blob, Str, Tag, Tagged, Timetag, TypeEncoder};

#[test]
fn address_encoding_test() {
    let tests = [
        ("/h", &b"/h\0\0"[..]),
        ("/ho", &b"/ho\0"[..]),
        ("/hor", &b"/hor\0\0\0\0"[..]),
        ("/hors", &b"/hors\0\0\0"[..]),
        ("/horse", &b"/horse\0\0"[..]),
    ];
    for (addr, expected) in tests.iter().copied() {
        let mut buf: Vec<u8> = vec![];
        Address::new(addr).unwrap().encode_type(&mut buf);
        assert_eq!(&buf[..], expected);
    }
}

#[test]
fn tag_encoding_test() {
    let mut buf: Vec<u8> = vec![];
    let v: u8 = Default::default();
    v.encode_tag(&mut buf);
    assert_eq!(&buf[..1], b"i");

    let mut buf: Vec<u8> = vec![];
    let v: u16 = Default::default();
    v.encode_tag(&mut buf);
    assert_eq!(&buf[..1], b"i");

    let mut buf: Vec<u8> = vec![];
    let v: u32 = Default::default();
    v.encode_tag(&mut buf);
    assert_eq!(&buf[..1], b"i");
}

#[test]
fn address_must_start_with_slash() {
    assert_eq!(Address::new("horse"), Err(AddressError));
    assert_eq!(Address::new(""), Err(AddressError));
    assert!(Address::new("/").is_ok());
    assert_eq!(
        AddressError.message(),
        "OSC Addresses must start with a '/' (forward slash)"
    );
}

#[test]
fn tag_bytes() {
    assert_eq!(Tag::Int32.as_byte(), b'i');
    assert_eq!(Tag::Float32.as_byte(), b'f');
    assert_eq!(Tag::String.as_byte(), b's');
    assert_eq!(Tag::Blob.as_byte(), b'b');
    assert_eq!(Tag::Timetag.as_byte(), b't');
    assert_eq!(Tag::ArrayClose.as_byte(), b']');
}

#[test]
fn string_and_blob_padding() {
    let mut buf: Vec<u8> = vec![];
    Str("abcd").encode_type(&mut buf);
    assert_eq!(buf, b"abcd\0\0\0\0".to_vec());

    let mut buf: Vec<u8> = vec![];
    Blob(&[1, 2, 3]).encode_type(&mut buf);
    assert_eq!(buf, vec![0, 0, 0, 3, 1, 2, 3, 0]);

    let mut buf: Vec<u8> = vec![];
    Blob(&[]).encode_type(&mut buf);
    assert_eq!(buf, vec![0, 0, 0, 0, 0, 0, 0, 0]);
}

#[test]
fn integers_are_big_endian() {
    let mut buf: Vec<u8> = vec![];
    (-2i32).encode_type(&mut buf);
    0x01020304u32.encode_type(&mut buf);
    assert_eq!(buf, vec![0xff, 0xff, 0xff, 0xfe, 1, 2, 3, 4]);
}

#[test]
fn timetag_parts() {
    let t = Timetag::from_parts(0x01020304, 0x0a0b0c0d);
    assert_eq!(t.parts(), (0x01020304, 0x0a0b0c0d));
    assert_eq!(t.as_ref(), &[1, 2, 3, 4, 0x0a, 0x0b, 0x0c, 0x0d]);
    let mut buf: Vec<u8> = vec![];
    t.encode_type(&mut buf);
    assert_eq!(buf, vec![1, 2, 3, 4, 0x0a, 0x0b, 0x0c, 0x0d]);
}
