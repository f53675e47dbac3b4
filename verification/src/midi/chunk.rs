use crate::midi::codec::{DecodeValue, DecoderBuffer, DecoderError, EncodeValue, EncoderBuffer, MIDIValue};
use crate::midi::integer::{lemma_u32be_round_trip, u32be};
use vstd::prelude::*;

verus! {

/// The header of a chunk of a standard MIDI file: its kind and its length.
#[derive(Clone, Copy, Debug, PartialEq, Eq)]
pub enum ChunkHeader {
    Header(usize),
    Track(usize),
    Undefined([u8; 4], usize),
}

/// The identifier of a header chunk, "MThd".
pub open spec fn header_chunk_id() -> Seq<u8> {
    seq![0x4du8, 0x54u8, 0x68u8, 0x64u8]
}

/// The identifier of a track chunk, "MTrk".
pub open spec fn track_chunk_id() -> Seq<u8> {
    seq![0x4du8, 0x54u8, 0x72u8, 0x6bu8]
}

impl ChunkHeader {
    pub open spec fn spec_len(self) -> usize {
        match self {
            ChunkHeader::Header(len) => len,
            ChunkHeader::Track(len) => len,
            ChunkHeader::Undefined(_, len) => len,
        }
    }

    /// The four identifier bytes of this chunk.
    pub open spec fn spec_id(self) -> Seq<u8> {
        match self {
            ChunkHeader::Header(_) => header_chunk_id(),
            ChunkHeader::Track(_) => track_chunk_id(),
            ChunkHeader::Undefined(id, _) => id@,
        }
    }

    /// The length of the chunk's body.
    pub fn len(&self) -> (r: usize)
        ensures
            r == self.spec_len(),
    {
        match self {
            Self::Header(len) => *len,
            Self::Track(len) => *len,
            Self::Undefined(_, len) => *len,
        }
    }
}

/// The chunk header that an identifier and a length read from a file stand for.
pub open spec fn chunk_from_id(id: [u8; 4], len: usize) -> ChunkHeader {
    if id@ == header_chunk_id() {
        ChunkHeader::Header(len)
    } else if id@ == track_chunk_id() {
        ChunkHeader::Track(len)
    } else {
        ChunkHeader::Undefined(id, len)
    }
}

impl MIDIValue for ChunkHeader {
    /// The identifier, then the length as a 32-bit big-endian number.
    open spec fn spec_encoding(&self) -> Seq<u8> {
        self.spec_id() + u32be::spec_from_raw(self.spec_len() as u32).spec_encoding()
    }

    open spec fn spec_decode(bytes: Seq<u8>) -> (Result<ChunkHeader, DecoderError>, nat) {
        let (id, n1) = <[u8; 4]>::spec_decode(bytes);
        match id {
            Err(e) => (Err(e), n1),
            Ok(id) => {
                let (len, n2) = u32be::spec_decode(bytes.skip(n1 as int));
                match len {
                    Err(e) => (Err(e), n1 + n2),
                    Ok(len) => (Ok(chunk_from_id(id, len.value() as usize)), n1 + n2),
                }
            },
        }
    }

    fn decode<B: DecoderBuffer>(buffer: &mut B) -> (r: Result<ChunkHeader, DecoderError>) {
        let ghost bytes = buffer.remaining();
        let id: [u8; 4] = buffer.decode()?;
        let ghost after_id = buffer.remaining();
        let len = buffer.decode::<u32be>()?.get() as usize;
        proof {
            assert(bytes.skip(4).skip(<u32be>::spec_decode(after_id).1 as int) == bytes.skip(
                4 + <u32be>::spec_decode(after_id).1 as int,
            ));
        }
        if id[0] == 0x4d && id[1] == 0x54 && id[2] == 0x68 && id[3] == 0x64 {
            assert(id@ == header_chunk_id());
            Ok(Self::Header(len))
        } else if id[0] == 0x4d && id[1] == 0x54 && id[2] == 0x72 && id[3] == 0x6b {
            assert(id@ == track_chunk_id());
            Ok(Self::Track(len))
        } else {
            assert(id@ != header_chunk_id() && id@ != track_chunk_id()) by {
                if id@ == header_chunk_id() {
                    assert(id@[2] == header_chunk_id()[2]);
                }
                if id@ == track_chunk_id() {
                    assert(id@[2] == track_chunk_id()[2]);
                }
            }
            Ok(Self::Undefined(id, len))
        }
    }

    fn encode<B: EncoderBuffer>(&self, buffer: &mut B) -> (r: Result<(), B::Error>) {
        let header: [u8; 4] = [0x4d, 0x54, 0x68, 0x64];
        let track: [u8; 4] = [0x4d, 0x54, 0x72, 0x6b];
        let (id, len) = match self {
            ChunkHeader::Header(len) => (&header, *len),
            ChunkHeader::Track(len) => (&track, *len),
            ChunkHeader::Undefined(id, len) => (id, *len),
        };
        assert(id@ == self.spec_id());
        buffer.write_bytes(id)?;
        buffer.encode(&u32be::new_lossy(len as u32))?;
        proof {
            u32be::lemma_from_raw(len as u32, u32be::spec_from_raw(len as u32));
        }
        Ok(())
    }

    fn encoding_len(&self) -> (n: usize) {
        4 + u32be::new_lossy(self.len() as u32).encoding_len()
    }
}

/// Decoding the encoding of a chunk header, followed by anything, gives the
/// header back, unless its length does not fit in 32 bits or it is an
/// undefined chunk that carries the identifier of a header or track chunk.
pub proof fn lemma_chunk_header_round_trip(h: ChunkHeader, rest: Seq<u8>)
    requires
        h.spec_len() <= u32::MAX,
        h.spec_id() != header_chunk_id() ==> h.spec_id() != track_chunk_id() ==> h is Undefined,
        h is Undefined ==> h.spec_id() != header_chunk_id() && h.spec_id() != track_chunk_id(),
    ensures
        ChunkHeader::spec_decode(h.spec_encoding() + rest) == (
            Ok::<ChunkHeader, DecoderError>(h),
            h.spec_encoding().len(),
        ),
{
    let len = u32be::spec_from_raw(h.spec_len() as u32);
    u32be::lemma_from_raw(h.spec_len() as u32, len);
    let bytes = h.spec_encoding() + rest;
    let id = h.spec_id();
    assert(bytes.skip(4) == len.spec_encoding() + rest);
    lemma_u32be_round_trip(len, rest);
    assert(bytes[0] == id[0] && bytes[1] == id[1] && bytes[2] == id[2] && bytes[3] == id[3]);
    let arr = [bytes[0], bytes[1], bytes[2], bytes[3]];
    assert(arr@ == id);
    match h {
        ChunkHeader::Undefined(hid, hlen) => {
            assert(arr == hid);
        },
        _ => {},
    }
}

/// A header chunk is marked by the ASCII letters "MThd" and a track chunk by
/// "MTrk": each is written as those four bytes and then its length as a
/// 32-bit big-endian number, and those bytes, followed by anything, read back
/// as a header or track chunk of that length. Any other four bytes read back
/// as an undefined chunk that keeps them.
pub proof fn lemma_chunk_ids(len: usize, id: [u8; 4], rest: Seq<u8>)
    requires
        len <= u32::MAX,
    ensures
        ChunkHeader::Header(len).spec_encoding() == seq!['M' as u8, 'T' as u8, 'h' as u8, 'd' as u8]
            + u32be::spec_from_raw(len as u32).spec_encoding(),
        ChunkHeader::Track(len).spec_encoding() == seq!['M' as u8, 'T' as u8, 'r' as u8, 'k' as u8]
            + u32be::spec_from_raw(len as u32).spec_encoding(),
        ChunkHeader::spec_decode(
            seq!['M' as u8, 'T' as u8, 'h' as u8, 'd' as u8] + u32be::spec_from_raw(
                len as u32,
            ).spec_encoding() + rest,
        ).0 == Ok::<ChunkHeader, DecoderError>(ChunkHeader::Header(len)),
        ChunkHeader::spec_decode(
            seq!['M' as u8, 'T' as u8, 'r' as u8, 'k' as u8] + u32be::spec_from_raw(
                len as u32,
            ).spec_encoding() + rest,
        ).0 == Ok::<ChunkHeader, DecoderError>(ChunkHeader::Track(len)),
        id@ != seq!['M' as u8, 'T' as u8, 'h' as u8, 'd' as u8] && id@ != seq![
            'M' as u8,
            'T' as u8,
            'r' as u8,
            'k' as u8,
        ] ==> ChunkHeader::spec_decode(
            id@ + u32be::spec_from_raw(len as u32).spec_encoding() + rest,
        ).0 == Ok::<ChunkHeader, DecoderError>(ChunkHeader::Undefined(id, len)),
{
    assert(header_chunk_id() =~= seq!['M' as u8, 'T' as u8, 'h' as u8, 'd' as u8]);
    assert(track_chunk_id() =~= seq!['M' as u8, 'T' as u8, 'r' as u8, 'k' as u8]);
    lemma_chunk_header_round_trip(ChunkHeader::Header(len), rest);
    lemma_chunk_header_round_trip(ChunkHeader::Track(len), rest);
    if id@ != header_chunk_id() && id@ != track_chunk_id() {
        lemma_chunk_header_round_trip(ChunkHeader::Undefined(id, len), rest);
    }
}

} // verus!
