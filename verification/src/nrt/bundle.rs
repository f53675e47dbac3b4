//! A bundle of a score: like an OSC bundle, but preceded by its own length.
use crate::osc::bundle::{bytes_contents, bytes_len, bytes_set, header_bytes, element_bytes, Bundle as Inner};
use crate::osc::types::{be32, i32_bytes, Timetag, TypeEncoder};
use bytes::BytesMut;
use vstd::prelude::*;

verus! {

/// A bundle of a score being written.
pub struct Bundle(Inner);

/// The bytes of a finished score bundle whose content (after the length) is
/// `rest`: the length of `rest`, then `rest`.
pub open spec fn framed(rest: Seq<u8>) -> Seq<u8> {
    be32(rest.len() as u32) + rest
}

impl Bundle {
    /// A bundle that was written to starts with room for its length.
    pub open spec fn wf(&self) -> bool {
        self.spec_content().len() == 0 || self.spec_content().len() >= 4
    }

    pub closed spec fn spec_timetag(&self) -> Timetag {
        self.0.spec_timetag()
    }

    pub closed spec fn spec_content(&self) -> Seq<u8> {
        self.0.spec_content()
    }

    pub fn new(timetag: Timetag) -> (r: Self)
        ensures
            r.spec_timetag() == timetag,
            r.spec_content() == Seq::<u8>::empty(),
            r.wf(),
    {
        Self(Inner::new(timetag))
    }

    pub fn is_empty(&self) -> (r: bool)
        ensures
            r == (self.spec_content().len() == 0),
    {
        self.0.is_empty()
    }

    /// Writes a message; an empty bundle first gets a room for its length
    /// and its head.
    pub fn write<T: TypeEncoder>(&mut self, value: &T)
        requires
            value.spec_encodable(),
            old(self).spec_content().len() + 64 + value.spec_encoding().len() <= isize::MAX,
        ensures
            final(self).wf(),
            final(self).spec_timetag() == old(self).spec_timetag(),
            final(self).spec_content() == (if old(self).spec_content().len() == 0 {
                header_bytes(i32_bytes(0), old(self).spec_timetag())
            } else {
                old(self).spec_content()
            }) + element_bytes(value.spec_encoding()),
    {
        if self.0.is_empty() {
            self.0.write_header(&0i32);
            proof {
                old(self).spec_timetag().lemma_len();
            }
        }
        self.0.write(value);
    }

    /// The bytes of the bundle with its length in front, or `None` where
    /// nothing was written.
    pub fn finish(self) -> (r: Option<BytesMut>)
        requires
            self.wf(),
        ensures
            self.spec_content().len() == 0 ==> r is None,
            self.spec_content().len() > 0 ==> (r matches Some(b) && bytes_contents(b) == framed(
                self.spec_content().skip(4),
            )),
    {
        let ghost content = self.spec_content();
        let Bundle(inner) = self;
        let mut v = match inner.finish() {
            Some(v) => v,
            None => return None,
        };
        let n = bytes_len(&v);
        let len = (n - 4) as u32;
        bytes_set(&mut v, 0, (len / 0x100_0000) as u8);
        bytes_set(&mut v, 1, ((len / 0x1_0000) % 0x100) as u8);
        bytes_set(&mut v, 2, ((len / 0x100) % 0x100) as u8);
        bytes_set(&mut v, 3, (len % 0x100) as u8);
        assert(bytes_contents(v) == framed(content.skip(4)));
        Some(v)
    }
}

impl Default for Bundle {
    fn default() -> (r: Self)
        ensures
            r.spec_timetag().spec_bytes() == be32(0) + be32(0),
            r.spec_content() == Seq::<u8>::empty(),
            r.wf(),
    {
        Bundle::new(Timetag::from_parts(0, 0))
    }
}

} // verus!
