//! OSC bundles: a tag, a time tag, then messages each preceded by its
//! length. The bundle's bytes are kept in a `bytes::BytesMut`.
use crate::osc::types::{be32, push_be32, Timetag, TypeEncoder};
use bytes::BytesMut;
use vstd::prelude::*;

verus! {

#[verifier::external_type_specification]
#[verifier::external_body]
pub struct ExBytesMut(bytes::BytesMut);

/// The bytes that a `BytesMut` holds.
pub uninterp spec fn bytes_contents(b: BytesMut) -> Seq<u8>;

/// Calls `BytesMut::new`, which makes a buffer that holds no bytes.
#[verifier::external_body]
pub(crate) fn bytes_new() -> (r: BytesMut)
    ensures
        bytes_contents(r) == Seq::<u8>::empty(),
{
    BytesMut::new()
}

/// Calls `BytesMut::len`: the number of bytes the buffer holds.
#[verifier::external_body]
pub(crate) fn bytes_len(b: &BytesMut) -> (r: usize)
    ensures
        r == bytes_contents(*b).len(),
{
    b.len()
}

/// Calls `BytesMut::extend_from_slice`, which appends the bytes of the
/// slice; it reserves room first, which fails where the length would pass
/// `isize::MAX`.
#[verifier::external_body]
pub(crate) fn bytes_extend(b: &mut BytesMut, s: &[u8])
    requires
        bytes_contents(*old(b)).len() + s@.len() <= isize::MAX,
    ensures
        bytes_contents(*final(b)) == bytes_contents(*old(b)) + s@,
{
    b.extend_from_slice(s)
}

/// Writes one byte through `<BytesMut as DerefMut>::deref_mut`, which views
/// the bytes the buffer holds as a slice; indexing it panics past its end.
#[verifier::external_body]
pub(crate) fn bytes_set(b: &mut BytesMut, i: usize, v: u8)
    requires
        i < bytes_contents(*old(b)).len(),
    ensures
        bytes_contents(*final(b)) == bytes_contents(*old(b)).update(i as int, v),
{
    b[i] = v
}

/// The tag at the start of every bundle: `#bundle` and a zero byte.
pub const TAG: [u8; 8] = [0x23, 0x62, 0x75, 0x6e, 0x64, 0x6c, 0x65, 0x00];

/// The bytes of the bundle tag.
pub open spec fn tag_bytes() -> Seq<u8> {
    seq![0x23u8, 0x62, 0x75, 0x6e, 0x64, 0x6c, 0x65, 0x00]
}

/// The head of a bundle: a prefix, the tag and the time tag.
pub open spec fn header_bytes(prefix: Seq<u8>, timetag: Timetag) -> Seq<u8> {
    prefix + tag_bytes() + timetag.spec_bytes()
}

/// A message of a bundle: its length, then its bytes.
pub open spec fn element_bytes(encoding: Seq<u8>) -> Seq<u8> {
    be32(encoding.len() as u32) + encoding
}

/// Appends the bytes of `v` to a buffer.
fn bytes_extend_vec(b: &mut BytesMut, v: &Vec<u8>)
    requires
        bytes_contents(*old(b)).len() + v@.len() <= isize::MAX,
    ensures
        bytes_contents(*final(b)) == bytes_contents(*old(b)) + v@,
{
    bytes_extend(b, v.as_slice())
}

/// A bundle being written.
pub struct Bundle {
    timetag: Timetag,
    content: BytesMut,
}

impl Bundle {
    pub closed spec fn spec_timetag(&self) -> Timetag {
        self.timetag
    }

    /// The bytes written so far.
    pub closed spec fn spec_content(&self) -> Seq<u8> {
        bytes_contents(self.content)
    }

    /// An empty bundle at `timetag`.
    pub fn new(timetag: Timetag) -> (r: Self)
        ensures
            r.spec_timetag() == timetag,
            r.spec_content() == Seq::<u8>::empty(),
    {
        Self { timetag, content: bytes_new() }
    }

    pub fn is_empty(&self) -> (r: bool)
        ensures
            r == (self.spec_content().len() == 0),
    {
        bytes_len(&self.content) == 0
    }

    /// Writes the head of the bundle: `prefix`, the tag and the time tag.
    pub fn write_header<T: TypeEncoder>(&mut self, prefix: &T)
        requires
            old(self).spec_content().len() == 0,
            prefix.spec_encodable(),
            prefix.spec_encoding().len() + 16 <= isize::MAX,
        ensures
            final(self).spec_content() == header_bytes(prefix.spec_encoding(), old(self).spec_timetag()),
            final(self).spec_timetag() == old(self).spec_timetag(),
    {
        let mut head: Vec<u8> = Vec::new();
        prefix.encode_type(&mut head);
        let mut i: usize = 0;
        while i < 8
            invariant
                i <= 8,
                head@ == prefix.spec_encoding() + tag_bytes().take(i as int),
            decreases 8 - i,
        {
            head.push(TAG[i]);
            assert(tag_bytes().take(i + 1) == tag_bytes().take(i as int).push(TAG[i as int]));
            i = i + 1;
        }
        assert(tag_bytes().take(8) == tag_bytes());
        self.timetag.encode_type(&mut head);
        proof {
            self.timetag.lemma_len();
        }
        bytes_extend_vec(&mut self.content, &head);
    }

    /// Writes a message, preceded by its length; an empty bundle gets its
    /// head first, with no prefix.
    pub fn write<T: TypeEncoder>(&mut self, value: &T)
        requires
            value.spec_encodable(),
            old(self).spec_content().len() + 16 + 4 + value.spec_encoding().len() <= isize::MAX,
        ensures
            final(self).spec_timetag() == old(self).spec_timetag(),
            final(self).spec_content() == (if old(self).spec_content().len() == 0 {
                header_bytes(Seq::<u8>::empty(), old(self).spec_timetag())
            } else {
                old(self).spec_content()
            }) + element_bytes(value.spec_encoding()),
    {
        if self.is_empty() {
            self.write_header(&());
            assert(().spec_encoding() == Seq::<u8>::empty());
            proof {
                self.timetag.lemma_len();
            }
        }
        let mut encoded: Vec<u8> = Vec::new();
        value.encode_type(&mut encoded);
        let mut element: Vec<u8> = Vec::new();
        push_be32(&mut element, encoded.len() as u32);
        let mut i: usize = 0;
        while i < encoded.len()
            invariant
                i <= encoded@.len(),
                element@ == be32(encoded@.len() as u32) + encoded@.take(i as int),
            decreases encoded@.len() - i,
        {
            element.push(encoded[i]);
            assert(encoded@.take(i + 1) == encoded@.take(i as int).push(encoded@[i as int]));
            i = i + 1;
        }
        assert(encoded@.take(encoded@.len() as int) == encoded@);
        bytes_extend_vec(&mut self.content, &element);
    }

    /// The bytes of the bundle, or `None` where nothing was written.
    pub fn finish(self) -> (r: Option<BytesMut>)
        ensures
            self.spec_content().len() == 0 ==> r is None,
            self.spec_content().len() > 0 ==> (r matches Some(b) && bytes_contents(b)
                == self.spec_content()),
    {
        if self.is_empty() {
            return None;
        }
        Some(self.content)
    }
}

impl Default for Bundle {
    /// An empty bundle at time zero.
    fn default() -> (r: Self)
        ensures
            r.spec_timetag().spec_bytes() == be32(0) + be32(0),
            r.spec_content() == Seq::<u8>::empty(),
    {
        Bundle::new(Timetag::from_parts(0, 0))
    }
}

} // verus!
