use vstd::prelude::*;

verus! {

/// Why a MIDI value could not be read from a byte buffer.
#[derive(Copy, Clone, Debug, PartialEq, Eq, PartialOrd, Ord)]
pub enum DecoderError {
    EOF,
    UnexpectedStatusParam(u8),
    InvariantViolation(&'static str),
}

/// A source of bytes that MIDI values are read from, front to back.
pub trait DecoderBuffer: Sized {
    /// The bytes that have not been read yet.
    spec fn remaining(&self) -> Seq<u8>;

    /// Reads the next byte, or fails with `EOF` when none is left.
    fn next_byte(&mut self) -> (r: Result<u8, DecoderError>)
        ensures
            old(self).remaining().len() == 0 ==> r == Err::<u8, DecoderError>(DecoderError::EOF)
                && final(self).remaining() == old(self).remaining(),
            old(self).remaining().len() > 0 ==> r == Ok::<u8, DecoderError>(
                old(self).remaining()[0],
            ) && final(self).remaining() == old(self).remaining().drop_first(),
    ;

    /// Skips `len` bytes.
    fn skip(&mut self, len: usize) -> (r: Result<(), DecoderError>)
        requires
            len <= old(self).remaining().len(),
        ensures
            r is Ok ==> final(self).remaining() == old(self).remaining().skip(len as int),
            r is Err ==> final(self).remaining() == old(self).remaining(),
    ;

}

impl<'a> DecoderBuffer for &'a [u8] {
    open spec fn remaining(&self) -> Seq<u8> {
        (*self)@
    }

    /// Note: this fails whenever it is called with a length it can serve,
    /// and leaves the buffer untouched.
    fn skip(&mut self, len: usize) -> (r: Result<(), DecoderError>)
        ensures
            r == Err::<(), DecoderError>(DecoderError::EOF),
    {
        if self.len() < len {
            let (_, remaining) = self.split_at(len);
            *self = remaining;
            Ok(())
        } else {
            Err(DecoderError::EOF)
        }
    }

    fn next_byte(&mut self) -> (r: Result<u8, DecoderError>) {
        if self.len() == 0 {
            Err(DecoderError::EOF)
        } else {
            let (value, remaining) = self.split_at(1);
            *self = remaining;
            Ok(value[0])
        }
    }
}

/// A sink of bytes that MIDI values are written to.
pub trait EncoderBuffer: Sized {
    type Error;

    /// The bytes written so far.
    spec fn written(&self) -> Seq<u8>;

    /// Whether writing to this buffer never fails.
    spec fn infallible() -> bool;

    fn write_byte(&mut self, byte: u8) -> (r: Result<(), Self::Error>)
        ensures
            Self::infallible() ==> r is Ok,
            r is Ok ==> final(self).written() == old(self).written().push(byte),
    ;

    fn write_bytes(&mut self, bytes: &[u8]) -> (r: Result<(), Self::Error>)
        ensures
            Self::infallible() ==> r is Ok,
            r is Ok ==> final(self).written() == old(self).written() + bytes@,
    ;

}

impl EncoderBuffer for Vec<u8> {
    type Error = ();

    open spec fn written(&self) -> Seq<u8> {
        self@
    }

    open spec fn infallible() -> bool {
        true
    }

    fn write_byte(&mut self, byte: u8) -> (r: Result<(), ()>) {
        self.push(byte);
        Ok(())
    }

    fn write_bytes(&mut self, bytes: &[u8]) -> (r: Result<(), ()>) {
        let ghost start = self@;
        let mut i: usize = 0;
        while i < bytes.len()
            invariant
                i <= bytes@.len(),
                self@ == start + bytes@.subrange(0, i as int),
            decreases bytes@.len() - i,
        {
            self.push(bytes[i]);
            i = i + 1;
            assert(self@ == start + bytes@.subrange(0, i as int));
        }
        assert(bytes@.subrange(0, bytes@.len() as int) == bytes@);
        Ok(())
    }
}

/// A value with a MIDI wire encoding.
pub trait MIDIValue: Sized {
    /// The bytes that encode this value.
    spec fn spec_encoding(&self) -> Seq<u8>;

    /// What reading a value from `bytes` gives, and how many bytes it takes
    /// from the front of `bytes`.
    spec fn spec_decode(bytes: Seq<u8>) -> (Result<Self, DecoderError>, nat);

    fn decode<B: DecoderBuffer>(buffer: &mut B) -> (r: Result<Self, DecoderError>)
        ensures
            r == Self::spec_decode(old(buffer).remaining()).0,
            Self::spec_decode(old(buffer).remaining()).1 <= old(buffer).remaining().len(),
            final(buffer).remaining() == old(buffer).remaining().skip(
                Self::spec_decode(old(buffer).remaining()).1 as int,
            ),
    ;

    fn encode<B: EncoderBuffer>(&self, bytes: &mut B) -> (r: Result<(), B::Error>)
        ensures
            B::infallible() ==> r is Ok,
            r is Ok ==> final(bytes).written() == old(bytes).written() + self.spec_encoding(),
    ;

    fn encoding_len(&self) -> (n: usize)
        ensures
            n == self.spec_encoding().len(),
    ;
}

/// Reading typed values from a `DecoderBuffer`.
pub trait DecodeValue: DecoderBuffer {
    /// Reads one value of type `T`.
    fn decode<T: MIDIValue>(&mut self) -> (r: Result<T, DecoderError>)
        ensures
            r == T::spec_decode(old(self).remaining()).0,
            T::spec_decode(old(self).remaining()).1 <= old(self).remaining().len(),
            final(self).remaining() == old(self).remaining().skip(
                T::spec_decode(old(self).remaining()).1 as int,
            ),
    ;
}

impl<B: DecoderBuffer> DecodeValue for B {
    fn decode<T: MIDIValue>(&mut self) -> (r: Result<T, DecoderError>) {
        T::decode(self)
    }
}

/// Writing typed values to an `EncoderBuffer`.
pub trait EncodeValue: EncoderBuffer {
    /// Writes the encoding of `value`.
    fn encode<T: MIDIValue>(&mut self, value: &T) -> (r: Result<(), Self::Error>)
        ensures
            Self::infallible() ==> r is Ok,
            r is Ok ==> final(self).written() == old(self).written() + value.spec_encoding(),
    ;
}

impl<B: EncoderBuffer> EncodeValue for B {
    fn encode<T: MIDIValue>(&mut self, value: &T) -> (r: Result<(), Self::Error>) {
        T::encode(value, self)
    }
}

impl MIDIValue for [u8; 2] {
    open spec fn spec_encoding(&self) -> Seq<u8> {
        self@
    }

    open spec fn spec_decode(bytes: Seq<u8>) -> (Result<[u8; 2], DecoderError>, nat) {
        if bytes.len() < 2 {
            (Err(DecoderError::EOF), bytes.len())
        } else {
            (Ok([bytes[0], bytes[1]]), 2)
        }
    }

    fn decode<B: DecoderBuffer>(buffer: &mut B) -> (r: Result<[u8; 2], DecoderError>) {
        let b0 = buffer.next_byte()?;
        let b1 = buffer.next_byte()?;
        Ok([b0, b1])
    }

    fn encode<B: EncoderBuffer>(&self, buffer: &mut B) -> (r: Result<(), B::Error>) {
        let ghost start = buffer.written();
        let mut i: usize = 0;
        while i < 2
            invariant
                i <= 2,
                buffer.written() == start + self@.subrange(0, i as int),
            decreases 2 - i,
        {
            buffer.write_byte(self[i])?;
            i = i + 1;
            assert(buffer.written() == start + self@.subrange(0, i as int));
        }
        assert(self@.subrange(0, 2) == self@);
        Ok(())
    }

    fn encoding_len(&self) -> (n: usize) {
        2
    }
}

impl MIDIValue for [u8; 3] {
    open spec fn spec_encoding(&self) -> Seq<u8> {
        self@
    }

    open spec fn spec_decode(bytes: Seq<u8>) -> (Result<[u8; 3], DecoderError>, nat) {
        if bytes.len() < 3 {
            (Err(DecoderError::EOF), bytes.len())
        } else {
            (Ok([bytes[0], bytes[1], bytes[2]]), 3)
        }
    }

    fn decode<B: DecoderBuffer>(buffer: &mut B) -> (r: Result<[u8; 3], DecoderError>) {
        let b0 = buffer.next_byte()?;
        let b1 = buffer.next_byte()?;
        let b2 = buffer.next_byte()?;
        Ok([b0, b1, b2])
    }

    fn encode<B: EncoderBuffer>(&self, buffer: &mut B) -> (r: Result<(), B::Error>) {
        let ghost start = buffer.written();
        let mut i: usize = 0;
        while i < 3
            invariant
                i <= 3,
                buffer.written() == start + self@.subrange(0, i as int),
            decreases 3 - i,
        {
            buffer.write_byte(self[i])?;
            i = i + 1;
            assert(buffer.written() == start + self@.subrange(0, i as int));
        }
        assert(self@.subrange(0, 3) == self@);
        Ok(())
    }

    fn encoding_len(&self) -> (n: usize) {
        3
    }
}

impl MIDIValue for [u8; 4] {
    open spec fn spec_encoding(&self) -> Seq<u8> {
        self@
    }

    open spec fn spec_decode(bytes: Seq<u8>) -> (Result<[u8; 4], DecoderError>, nat) {
        if bytes.len() < 4 {
            (Err(DecoderError::EOF), bytes.len())
        } else {
            (Ok([bytes[0], bytes[1], bytes[2], bytes[3]]), 4)
        }
    }

    fn decode<B: DecoderBuffer>(buffer: &mut B) -> (r: Result<[u8; 4], DecoderError>) {
        let b0 = buffer.next_byte()?;
        let b1 = buffer.next_byte()?;
        let b2 = buffer.next_byte()?;
        let b3 = buffer.next_byte()?;
        Ok([b0, b1, b2, b3])
    }

    fn encode<B: EncoderBuffer>(&self, buffer: &mut B) -> (r: Result<(), B::Error>) {
        let ghost start = buffer.written();
        let mut i: usize = 0;
        while i < 4
            invariant
                i <= 4,
                buffer.written() == start + self@.subrange(0, i as int),
            decreases 4 - i,
        {
            buffer.write_byte(self[i])?;
            i = i + 1;
            assert(buffer.written() == start + self@.subrange(0, i as int));
        }
        assert(self@.subrange(0, 4) == self@);
        Ok(())
    }

    fn encoding_len(&self) -> (n: usize) {
        4
    }
}

} // verus!
