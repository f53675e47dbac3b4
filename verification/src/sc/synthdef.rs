use crate::osc::types::{be32, i32_bits, i32_bytes, push_be32};
pub use crate::sc::ops::{BinaryOp, UnaryOp};
use vstd::prelude::*;
use vstd::string::StringSliceAdditionalSpecFns;
use vstd::utf8::{decode_utf8, encode_utf8, valid_utf8};

verus! {

/// Why a synth definition file could not be read.
#[derive(Clone, Copy, Debug, PartialEq, Eq)]
pub enum DecodeError {
    /// The bytes ended in the middle of a value.
    UnexpectedEnd,
    /// A value was read that the format does not allow.
    InvalidValue(&'static str),
}

/// Why a synth definition could not be written.
#[derive(Clone, Copy, Debug, PartialEq, Eq)]
pub enum EncodeError {
    /// A name is longer than 255 bytes.
    InvalidValue(&'static str),
}

// ---------------------------------------------------------------------------
// Numbers on the wire, most significant byte first.
// ---------------------------------------------------------------------------

/// The 16-bit two's complement pattern of `v`.
pub open spec fn i16_bits(v: i16) -> u16 {
    if v >= 0 {
        v as u16
    } else {
        (v + 0x1_0000) as u16
    }
}

/// The two bytes of `v` in two's complement, most significant first.
pub open spec fn i16_bytes(v: i16) -> Seq<u8> {
    seq![(i16_bits(v) / 0x100) as u8, (i16_bits(v) % 0x100) as u8]
}

/// The byte of `v` in two's complement.
pub open spec fn i8_byte(v: i8) -> u8 {
    if v >= 0 {
        v as u8
    } else {
        (v + 0x100) as u8
    }
}

/// The 32-bit number whose two's complement bytes are `a b c d`.
pub open spec fn i32_from_bytes(a: u8, b: u8, c: u8, d: u8) -> i32 {
    let u = a * 0x100_0000 + b * 0x1_0000 + c * 0x100 + d;
    if u >= 0x8000_0000 {
        (u - 0x1_0000_0000) as i32
    } else {
        u as i32
    }
}

/// The 16-bit number whose two's complement bytes are `a b`.
pub open spec fn i16_from_bytes(a: u8, b: u8) -> i16 {
    let u = a * 0x100 + b;
    if u >= 0x8000 {
        (u - 0x1_0000) as i16
    } else {
        u as i16
    }
}

/// The 8-bit number whose two's complement byte is `a`.
pub open spec fn i8_from_byte(a: u8) -> i8 {
    if a >= 0x80 {
        (a - 0x100) as i8
    } else {
        a as i8
    }
}

/// The 32-bit pattern whose bytes are `a b c d`.
pub open spec fn u32_from_bytes(a: u8, b: u8, c: u8, d: u8) -> u32 {
    (a * 0x100_0000 + b * 0x1_0000 + c * 0x100 + d) as u32
}

pub open spec fn parse_u8_at(bytes: Seq<u8>, pos: int) -> Result<(u8, int), DecodeError> {
    if 0 <= pos < bytes.len() {
        Ok((bytes[pos], pos + 1))
    } else {
        Err(DecodeError::UnexpectedEnd)
    }
}

pub open spec fn parse_i8_at(bytes: Seq<u8>, pos: int) -> Result<(i8, int), DecodeError> {
    if 0 <= pos < bytes.len() {
        Ok((i8_from_byte(bytes[pos]), pos + 1))
    } else {
        Err(DecodeError::UnexpectedEnd)
    }
}

pub open spec fn parse_i16_at(bytes: Seq<u8>, pos: int) -> Result<(i16, int), DecodeError> {
    if 0 <= pos && pos + 2 <= bytes.len() {
        Ok((i16_from_bytes(bytes[pos], bytes[pos + 1]), pos + 2))
    } else {
        Err(DecodeError::UnexpectedEnd)
    }
}

pub open spec fn parse_i32_at(bytes: Seq<u8>, pos: int) -> Result<(i32, int), DecodeError> {
    if 0 <= pos && pos + 4 <= bytes.len() {
        Ok(
            (
                i32_from_bytes(bytes[pos], bytes[pos + 1], bytes[pos + 2], bytes[pos + 3]),
                pos + 4,
            ),
        )
    } else {
        Err(DecodeError::UnexpectedEnd)
    }
}

pub open spec fn parse_u32_at(bytes: Seq<u8>, pos: int) -> Result<(u32, int), DecodeError> {
    if 0 <= pos && pos + 4 <= bytes.len() {
        Ok(
            (
                u32_from_bytes(bytes[pos], bytes[pos + 1], bytes[pos + 2], bytes[pos + 3]),
                pos + 4,
            ),
        )
    } else {
        Err(DecodeError::UnexpectedEnd)
    }
}

fn read_u8(bytes: &[u8], pos: usize) -> (r: Result<(u8, usize), DecodeError>)
    ensures
        match r {
            Ok((v, p)) => parse_u8_at(bytes@, pos as int) == Ok::<(u8, int), DecodeError>(
                (v, p as int),
            ),
            Err(e) => parse_u8_at(bytes@, pos as int) == Err::<(u8, int), DecodeError>(e),
        },
{
    if pos < bytes.len() {
        Ok((bytes[pos], pos + 1))
    } else {
        Err(DecodeError::UnexpectedEnd)
    }
}

fn read_i8(bytes: &[u8], pos: usize) -> (r: Result<(i8, usize), DecodeError>)
    ensures
        match r {
            Ok((v, p)) => parse_i8_at(bytes@, pos as int) == Ok::<(i8, int), DecodeError>(
                (v, p as int),
            ),
            Err(e) => parse_i8_at(bytes@, pos as int) == Err::<(i8, int), DecodeError>(e),
        },
{
    if pos < bytes.len() {
        let a = bytes[pos];
        let v: i8 = if a >= 0x80 {
            (a as i16 - 0x100) as i8
        } else {
            a as i8
        };
        Ok((v, pos + 1))
    } else {
        Err(DecodeError::UnexpectedEnd)
    }
}

fn read_i16(bytes: &[u8], pos: usize) -> (r: Result<(i16, usize), DecodeError>)
    ensures
        match r {
            Ok((v, p)) => parse_i16_at(bytes@, pos as int) == Ok::<(i16, int), DecodeError>(
                (v, p as int),
            ),
            Err(e) => parse_i16_at(bytes@, pos as int) == Err::<(i16, int), DecodeError>(e),
        },
{
    if pos < bytes.len() && bytes.len() - pos >= 2 {
        let u = (bytes[pos] as i32) * 0x100 + bytes[pos + 1] as i32;
        let v: i16 = if u >= 0x8000 {
            (u - 0x1_0000) as i16
        } else {
            u as i16
        };
        Ok((v, pos + 2))
    } else {
        Err(DecodeError::UnexpectedEnd)
    }
}

fn read_u32(bytes: &[u8], pos: usize) -> (r: Result<(u32, usize), DecodeError>)
    ensures
        match r {
            Ok((v, p)) => parse_u32_at(bytes@, pos as int) == Ok::<(u32, int), DecodeError>(
                (v, p as int),
            ),
            Err(e) => parse_u32_at(bytes@, pos as int) == Err::<(u32, int), DecodeError>(e),
        },
{
    if pos < bytes.len() && bytes.len() - pos >= 4 {
        let u = (bytes[pos] as u32) * 0x100_0000 + (bytes[pos + 1] as u32) * 0x1_0000
            + (bytes[pos + 2] as u32) * 0x100 + bytes[pos + 3] as u32;
        Ok((u, pos + 4))
    } else {
        Err(DecodeError::UnexpectedEnd)
    }
}

fn read_i32(bytes: &[u8], pos: usize) -> (r: Result<(i32, usize), DecodeError>)
    ensures
        match r {
            Ok((v, p)) => parse_i32_at(bytes@, pos as int) == Ok::<(i32, int), DecodeError>(
                (v, p as int),
            ),
            Err(e) => parse_i32_at(bytes@, pos as int) == Err::<(i32, int), DecodeError>(e),
        },
{
    if pos < bytes.len() && bytes.len() - pos >= 4 {
        let u = (bytes[pos] as i64) * 0x100_0000 + (bytes[pos + 1] as i64) * 0x1_0000
            + (bytes[pos + 2] as i64) * 0x100 + bytes[pos + 3] as i64;
        let v: i32 = if u >= 0x8000_0000 {
            (u - 0x1_0000_0000) as i32
        } else {
            u as i32
        };
        Ok((v, pos + 4))
    } else {
        Err(DecodeError::UnexpectedEnd)
    }
}

fn push_i32(buffer: &mut Vec<u8>, v: i32)
    ensures
        final(buffer)@ == old(buffer)@ + i32_bytes(v),
{
    assert(v < 0 ==> (v as u32) as int == v + 0x1_0000_0000) by (bit_vector);
    push_be32(buffer, v as u32);
}

fn push_i16(buffer: &mut Vec<u8>, v: i16)
    ensures
        final(buffer)@ == old(buffer)@ + i16_bytes(v),
{
    assert(v < 0 ==> (v as u16) as int == v + 0x1_0000) by (bit_vector);
    let u = v as u16;
    buffer.push((u / 0x100) as u8);
    buffer.push((u % 0x100) as u8);
    assert(final(buffer)@ == old(buffer)@ + i16_bytes(v));
}

fn push_i8(buffer: &mut Vec<u8>, v: i8)
    ensures
        final(buffer)@ == old(buffer)@ + seq![i8_byte(v)],
{
    assert(v < 0 ==> (v as u8) as int == v + 0x100) by (bit_vector);
    buffer.push(v as u8);
    assert(final(buffer)@ == old(buffer)@ + seq![i8_byte(v)]);
}

/// Reading the bytes of a 32-bit number gives the number back.
pub proof fn lemma_i32_bytes_round_trip(v: i32)
    ensures
        ({
            let s = i32_bytes(v);
            i32_from_bytes(s[0], s[1], s[2], s[3]) == v
        }),
{
    let u = i32_bits(v);
    let s = i32_bytes(v);
    assert(s[0] * 0x100_0000 + s[1] * 0x1_0000 + s[2] * 0x100 + s[3] == u) by (nonlinear_arith)
        requires
            s[0] == (u / 0x100_0000) as u8,
            s[1] == ((u / 0x1_0000) % 0x100) as u8,
            s[2] == ((u / 0x100) % 0x100) as u8,
            s[3] == (u % 0x100) as u8,
    ;
}

/// Reading the bytes of a 32-bit pattern gives the pattern back.
pub proof fn lemma_u32_bytes_round_trip(u: u32)
    ensures
        ({
            let s = be32(u);
            u32_from_bytes(s[0], s[1], s[2], s[3]) == u
        }),
{
    let s = be32(u);
    assert(s[0] * 0x100_0000 + s[1] * 0x1_0000 + s[2] * 0x100 + s[3] == u) by (nonlinear_arith)
        requires
            s[0] == (u / 0x100_0000) as u8,
            s[1] == ((u / 0x1_0000) % 0x100) as u8,
            s[2] == ((u / 0x100) % 0x100) as u8,
            s[3] == (u % 0x100) as u8,
    ;
}

/// Reading the bytes of a 16-bit number gives the number back.
pub proof fn lemma_i16_bytes_round_trip(v: i16)
    ensures
        ({
            let s = i16_bytes(v);
            i16_from_bytes(s[0], s[1]) == v
        }),
{
    let u = i16_bits(v);
    let s = i16_bytes(v);
    assert(s[0] * 0x100 + s[1] == u);
}

/// Reads `n` items one after another from `pos` on.
pub open spec fn parse_many<T>(
    item: spec_fn(Seq<u8>, int) -> Result<(T, int), DecodeError>,
    bytes: Seq<u8>,
    pos: int,
    n: nat,
) -> Result<(Seq<T>, int), DecodeError>
    decreases n,
{
    if n == 0 {
        Ok((seq![], pos))
    } else {
        match parse_many(item, bytes, pos, (n - 1) as nat) {
            Err(e) => Err(e),
            Ok((xs, p)) => match item(bytes, p) {
                Err(e) => Err(e),
                Ok((x, p2)) => Ok((xs.push(x), p2)),
            },
        }
    }
}

/// The encodings of the items one after another.
pub open spec fn concat_many<T>(enc: spec_fn(T) -> Seq<u8>, xs: Seq<T>) -> Seq<u8>
    decreases xs.len(),
{
    if xs.len() == 0 {
        seq![]
    } else {
        concat_many(enc, xs.drop_last()) + enc(xs.last())
    }
}

/// A count read from the wire: negative counts stand for no items.
pub open spec fn count(len: i32) -> nat {
    if len < 0 {
        0
    } else {
        len as nat
    }
}

/// Once reading some of the items has failed, reading more fails the same way.
pub proof fn lemma_many_err<T>(
    item: spec_fn(Seq<u8>, int) -> Result<(T, int), DecodeError>,
    bytes: Seq<u8>,
    pos: int,
    k: nat,
    n: nat,
)
    requires
        k <= n,
        parse_many(item, bytes, pos, k) is Err,
    ensures
        parse_many(item, bytes, pos, n) == parse_many(item, bytes, pos, k),
    decreases n,
{
    if n > k {
        lemma_many_err(item, bytes, pos, k, (n - 1) as nat);
    }
}

/// Where each item reads back from its encoding, a list reads back from the
/// encodings of its items.
pub proof fn lemma_many_round_trip<T>(
    item: spec_fn(Seq<u8>, int) -> Result<(T, int), DecodeError>,
    enc: spec_fn(T) -> Seq<u8>,
    xs: Seq<T>,
    pre: Seq<u8>,
    rest: Seq<u8>,
)
    requires
        forall|x: T, p: Seq<u8>, r: Seq<u8>|
            xs.contains(x) ==> #[trigger] item(p + enc(x) + r, p.len() as int) == Ok::<
                (T, int),
                DecodeError,
            >((x, (p.len() + enc(x).len()) as int)),
    ensures
        parse_many(item, pre + concat_many(enc, xs) + rest, pre.len() as int, xs.len()) == Ok::<
            (Seq<T>, int),
            DecodeError,
        >((xs, (pre.len() + concat_many(enc, xs).len()) as int)),
    decreases xs.len(),
{
    if xs.len() > 0 {
        let init = xs.drop_last();
        let x = xs.last();
        assert forall|y: T, p: Seq<u8>, r: Seq<u8>| init.contains(y) implies #[trigger] item(
            p + enc(y) + r,
            p.len() as int,
        ) == Ok::<(T, int), DecodeError>((y, (p.len() + enc(y).len()) as int)) by {
            assert(xs.contains(y));
        }
        lemma_many_round_trip(item, enc, init, pre, enc(x) + rest);
        let whole = pre + concat_many(enc, xs) + rest;
        assert(pre + concat_many(enc, init) + (enc(x) + rest) == whole);
        let p2 = pre + concat_many(enc, init);
        assert(p2 + enc(x) + rest == whole);
        assert(xs.contains(x));
        assert(item(p2 + enc(x) + rest, p2.len() as int) == Ok::<(T, int), DecodeError>(
            (x, (p2.len() + enc(x).len()) as int),
        ));
        assert(init.push(x) == xs);
        assert(concat_many(enc, xs) == concat_many(enc, init) + enc(x));
    } else {
        assert(xs == Seq::<T>::empty());
    }
}

// ---------------------------------------------------------------------------
// Strings: one length byte, then the UTF-8 bytes.
// ---------------------------------------------------------------------------

/// The bytes of a length-prefixed string.
pub open spec fn enc_pstring(s: Seq<char>) -> Seq<u8> {
    seq![encode_utf8(s).len() as u8] + encode_utf8(s)
}

pub open spec fn parse_pstring_at(bytes: Seq<u8>, pos: int) -> Result<(Seq<char>, int), DecodeError> {
    match parse_u8_at(bytes, pos) {
        Err(e) => Err(e),
        Ok((len, p)) => if p + len <= bytes.len() {
            let b = bytes.subrange(p, p + len);
            if valid_utf8(b) {
                Ok((decode_utf8(b), p + len))
            } else {
                Err(DecodeError::InvalidValue("invalid string encoding"))
            }
        } else {
            Err(DecodeError::UnexpectedEnd)
        },
    }
}

/// Calls `core::str::from_utf8`, which accepts exactly the byte slices that
/// are well-formed UTF-8 and then views them as a string of those bytes.
#[verifier::external_body]
fn str_from_utf8(bytes: &[u8]) -> (r: Option<&str>)
    ensures
        r is Some <==> valid_utf8(bytes@),
        r matches Some(s) ==> s.spec_bytes() == bytes@,
{
    core::str::from_utf8(bytes).ok()
}

fn read_pstring(bytes: &[u8], pos: usize) -> (r: Result<(String, usize), DecodeError>)
    ensures
        match r {
            Ok((v, p)) => parse_pstring_at(bytes@, pos as int) == Ok::<
                (Seq<char>, int),
                DecodeError,
            >((v@, p as int)),
            Err(e) => parse_pstring_at(bytes@, pos as int) == Err::<(Seq<char>, int), DecodeError>(
                e,
            ),
        },
{
    let (len, p) = read_u8(bytes, pos)?;
    let len = len as usize;
    if bytes.len() - p < len {
        return Err(DecodeError::UnexpectedEnd);
    }
    let slice = &bytes[p..p + len];
    assert(slice@ == bytes@.subrange(p as int, p + len));
    match str_from_utf8(slice) {
        Some(s) => {
            proof {
                vstd::utf8::encode_utf8_decode_utf8(s@);
            }
            Ok((s.to_owned(), p + len))
        },
        None => Err(DecodeError::InvalidValue("invalid string encoding")),
    }
}

/// Reads a string written as its length in one byte and then its UTF-8
/// bytes, from the start of `bytes`; on success gives it and the number of
/// bytes it took. A length past the end of `bytes` gives
/// `UnexpectedEnd`, and bytes that are not UTF-8 give "invalid string
/// encoding".
pub fn decode_pstring(bytes: &[u8]) -> (r: Result<(String, usize), DecodeError>)
    ensures
        match r {
            Ok((v, n)) => parse_pstring_at(bytes@, 0) == Ok::<(Seq<char>, int), DecodeError>(
                (v@, n as int),
            ),
            Err(e) => parse_pstring_at(bytes@, 0) == Err::<(Seq<char>, int), DecodeError>(e),
        },
{
    read_pstring(bytes, 0)
}

/// Appends `value` as its length in one byte and then its UTF-8 bytes; a
/// string of more than 255 bytes is refused, and `buffer` left as it was.
pub fn encode_pstring(value: &str, buffer: &mut Vec<u8>) -> (r: Result<(), EncodeError>)
    ensures
        r is Ok <==> encode_utf8(value@).len() <= 255,
        r is Ok ==> final(buffer)@ == old(buffer)@ + enc_pstring(value@),
        r matches Err(e) ==> final(buffer)@ == old(buffer)@ && e == EncodeError::InvalidValue(
            "string exceeds maximum limit",
        ),
{
    let bytes = value.as_bytes();
    if bytes.len() > 255 {
        return Err(EncodeError::InvalidValue("string exceeds maximum limit"));
    }
    buffer.push(bytes.len() as u8);
    buffer.extend_from_slice(bytes);
    assert(buffer@ =~= old(buffer)@ + enc_pstring(value@));
    Ok(())
}

fn write_pstring(buffer: &mut Vec<u8>, value: &String)
    requires
        encode_utf8(value@).len() <= 255,
    ensures
        final(buffer)@ == old(buffer)@ + enc_pstring(value@),
{
    let bytes = value.as_str().as_bytes();
    let len = bytes.len() as u8;
    buffer.push(len);
    let mut i: usize = 0;
    while i < bytes.len()
        invariant
            i <= bytes@.len(),
            bytes@ == encode_utf8(value@),
            buffer@ == old(buffer)@ + seq![len] + bytes@.subrange(0, i as int),
        decreases bytes@.len() - i,
    {
        buffer.push(bytes[i]);
        i = i + 1;
        assert(buffer@ == old(buffer)@ + seq![len] + bytes@.subrange(0, i as int));
    }
    assert(bytes@.subrange(0, bytes@.len() as int) == bytes@);
}

/// Reading the bytes of a string of at most 255 bytes gives the string back.
pub proof fn lemma_pstring_round_trip(s: Seq<char>, pre: Seq<u8>, rest: Seq<u8>)
    requires
        encode_utf8(s).len() <= 255,
    ensures
        parse_pstring_at(pre + enc_pstring(s) + rest, pre.len() as int) == Ok::<
            (Seq<char>, int),
            DecodeError,
        >((s, (pre.len() + enc_pstring(s).len()) as int)),
{
    let b = encode_utf8(s);
    let whole = pre + enc_pstring(s) + rest;
    let p = pre.len() + 1int;
    assert(whole[pre.len() as int] == b.len() as u8);
    assert(whole.subrange(p, p + b.len() as int) == b);
    vstd::utf8::encode_utf8_valid_utf8(s);
    vstd::utf8::encode_utf8_decode_utf8(s);
}

/// What `encode_pstring` writes for a string of at most 255 bytes,
/// followed by anything, `decode_pstring` reads back: the string, having
/// taken exactly the bytes written.
pub proof fn lemma_pstring_decode_encode(s: Seq<char>, rest: Seq<u8>)
    requires
        encode_utf8(s).len() <= 255,
    ensures
        parse_pstring_at(enc_pstring(s) + rest, 0) == Ok::<(Seq<char>, int), DecodeError>(
            (s, enc_pstring(s).len() as int),
        ),
{
    lemma_pstring_round_trip(s, Seq::empty(), rest);
    assert(Seq::<u8>::empty() + enc_pstring(s) + rest =~= enc_pstring(s) + rest);
}

// ---------------------------------------------------------------------------
// Versions and version-dependent integers.
// ---------------------------------------------------------------------------

/// The version of the synth definition file format. Version 1 writes counts
/// and indices as 16-bit numbers, version 2 as 32-bit numbers.
#[derive(Clone, Copy, Debug, PartialEq, Eq)]
pub enum Version {
    V1,
    V2,
}

impl Version {
    pub open spec fn spec_code(self) -> i32 {
        match self {
            Version::V1 => 1,
            Version::V2 => 2,
        }
    }

    /// The number of this version in a file.
    pub fn as_i32(self) -> (r: i32)
        ensures
            r == self.spec_code(),
    {
        match self {
            Version::V1 => 1,
            Version::V2 => 2,
        }
    }
}

/// The bytes of a count or index in the given version.
pub open spec fn enc_int(version: Version, v: i32) -> Seq<u8> {
    match version {
        Version::V1 => i16_bytes(v as i16),
        Version::V2 => i32_bytes(v),
    }
}

pub open spec fn parse_int_at(version: Version, bytes: Seq<u8>, pos: int) -> Result<
    (i32, int),
    DecodeError,
> {
    match version {
        Version::V1 => match parse_i16_at(bytes, pos) {
            Ok((v, p)) => Ok((v as i32, p)),
            Err(e) => Err(e),
        },
        Version::V2 => parse_i32_at(bytes, pos),
    }
}

/// Whether `v` can be written as a count or index in the given version.
pub open spec fn int_fits(version: Version, v: int) -> bool {
    match version {
        Version::V1 => i16::MIN <= v <= i16::MAX,
        Version::V2 => i32::MIN <= v <= i32::MAX,
    }
}

fn read_int(version: Version, bytes: &[u8], pos: usize) -> (r: Result<(i32, usize), DecodeError>)
    ensures
        match r {
            Ok((v, p)) => parse_int_at(version, bytes@, pos as int) == Ok::<(i32, int), DecodeError>(
                (v, p as int),
            ),
            Err(e) => parse_int_at(version, bytes@, pos as int) == Err::<(i32, int), DecodeError>(
                e,
            ),
        },
{
    match version {
        Version::V1 => {
            let (len, p) = read_i16(bytes, pos)?;
            Ok((len as i32, p))
        },
        Version::V2 => read_i32(bytes, pos),
    }
}

fn write_int(version: Version, buffer: &mut Vec<u8>, value: i32)
    ensures
        final(buffer)@ == old(buffer)@ + enc_int(version, value),
{
    match version {
        Version::V1 => push_i16(buffer, value as i16),
        Version::V2 => push_i32(buffer, value),
    }
}

/// Reading a count or index that fits its version gives it back.
pub proof fn lemma_int_round_trip(version: Version, v: i32, pre: Seq<u8>, rest: Seq<u8>)
    requires
        int_fits(version, v as int),
    ensures
        parse_int_at(version, pre + enc_int(version, v) + rest, pre.len() as int) == Ok::<
            (i32, int),
            DecodeError,
        >((v, (pre.len() + enc_int(version, v).len()) as int)),
{
    let whole = pre + enc_int(version, v) + rest;
    let n = pre.len() as int;
    match version {
        Version::V1 => {
            lemma_i16_bytes_round_trip(v as i16);
            let s = i16_bytes(v as i16);
            assert(whole[n] == s[0] && whole[n + 1] == s[1]);
        },
        Version::V2 => {
            lemma_i32_bytes_round_trip(v);
            let s = i32_bytes(v);
            assert(whole[n] == s[0] && whole[n + 1] == s[1] && whole[n + 2] == s[2] && whole[n
                + 3] == s[3]);
        },
    }
}

/// A count in the given version, then the encodings of the items.
pub open spec fn enc_list<T>(version: Version, enc: spec_fn(T) -> Seq<u8>, xs: Seq<T>) -> Seq<u8> {
    enc_int(version, xs.len() as i32) + concat_many(enc, xs)
}

/// Reads a count in the given version, then that many items.
pub open spec fn parse_list_at<T>(
    version: Version,
    item: spec_fn(Seq<u8>, int) -> Result<(T, int), DecodeError>,
    bytes: Seq<u8>,
    pos: int,
) -> Result<(Seq<T>, int), DecodeError> {
    match parse_int_at(version, bytes, pos) {
        Err(e) => Err(e),
        Ok((n, p)) => parse_many(item, bytes, p, count(n)),
    }
}

/// Where the count fits the version and each item reads back from its
/// encoding, a counted list reads back from its bytes.
pub proof fn lemma_list_round_trip<T>(
    version: Version,
    item: spec_fn(Seq<u8>, int) -> Result<(T, int), DecodeError>,
    enc: spec_fn(T) -> Seq<u8>,
    xs: Seq<T>,
    pre: Seq<u8>,
    rest: Seq<u8>,
)
    requires
        int_fits(version, xs.len() as int),
        forall|x: T, p: Seq<u8>, r: Seq<u8>|
            xs.contains(x) ==> #[trigger] item(p + enc(x) + r, p.len() as int) == Ok::<
                (T, int),
                DecodeError,
            >((x, (p.len() + enc(x).len()) as int)),
    ensures
        parse_list_at(version, item, pre + enc_list(version, enc, xs) + rest, pre.len() as int)
            == Ok::<(Seq<T>, int), DecodeError>(
            (xs, (pre.len() + enc_list(version, enc, xs).len()) as int),
        ),
{
    let c = enc_int(version, xs.len() as i32);
    let body = concat_many(enc, xs);
    vstd::seq_lib::lemma_concat_associative(pre, c, body);
    vstd::seq_lib::lemma_concat_associative(pre, c, body + rest);
    vstd::seq_lib::lemma_concat_associative(pre + c, body, rest);
    lemma_int_round_trip(version, xs.len() as i32, pre, body + rest);
    lemma_many_round_trip(item, enc, xs, pre + c, rest);
    assert(count(xs.len() as i32) == xs.len());
}

// ---------------------------------------------------------------------------
// Calculation rates.
// ---------------------------------------------------------------------------

/// How often a unit generator computes a sample.
#[derive(Clone, Copy, Debug, PartialEq, Eq, PartialOrd, Ord)]
pub enum CalculationRate {
    /// one sample is computed at initialization time only.
    Scalar,
    /// one sample is computed each control period.
    Control,
    /// one sample is computed for each sample of audio output.
    Audio,
    /// on demand
    Demand,
}

impl CalculationRate {
    pub open spec fn spec_code(self) -> i8 {
        match self {
            CalculationRate::Scalar => 0,
            CalculationRate::Control => 1,
            CalculationRate::Audio => 2,
            CalculationRate::Demand => 3,
        }
    }
}

pub open spec fn enc_rate(rate: CalculationRate) -> Seq<u8> {
    seq![i8_byte(rate.spec_code())]
}

pub open spec fn parse_rate_at(bytes: Seq<u8>, pos: int) -> Result<
    (CalculationRate, int),
    DecodeError,
> {
    match parse_i8_at(bytes, pos) {
        Err(e) => Err(e),
        Ok((v, p)) => if v == 0 {
            Ok((CalculationRate::Scalar, p))
        } else if v == 1 {
            Ok((CalculationRate::Control, p))
        } else if v == 2 {
            Ok((CalculationRate::Audio, p))
        } else {
            Err(DecodeError::InvalidValue("invalid calculation rate"))
        },
    }
}

pub open spec fn rate_item() -> spec_fn(Seq<u8>, int) -> Result<(CalculationRate, int), DecodeError> {
    |b: Seq<u8>, p: int| parse_rate_at(b, p)
}

pub open spec fn rate_enc() -> spec_fn(CalculationRate) -> Seq<u8> {
    |r: CalculationRate| enc_rate(r)
}

fn read_rate(bytes: &[u8], pos: usize) -> (r: Result<(CalculationRate, usize), DecodeError>)
    ensures
        match r {
            Ok((v, p)) => parse_rate_at(bytes@, pos as int) == Ok::<
                (CalculationRate, int),
                DecodeError,
            >((v, p as int)),
            Err(e) => parse_rate_at(bytes@, pos as int) == Err::<
                (CalculationRate, int),
                DecodeError,
            >(e),
        },
{
    let (value, p) = read_i8(bytes, pos)?;
    let value = match value {
        0i8 => CalculationRate::Scalar,
        1i8 => CalculationRate::Control,
        2i8 => CalculationRate::Audio,
        _ => {
            return Err(DecodeError::InvalidValue("invalid calculation rate"));
        },
    };
    Ok((value, p))
}

fn write_rate(buffer: &mut Vec<u8>, rate: CalculationRate)
    ensures
        final(buffer)@ == old(buffer)@ + enc_rate(rate),
{
    let value: i8 = match rate {
        CalculationRate::Scalar => 0,
        CalculationRate::Control => 1,
        CalculationRate::Audio => 2,
        CalculationRate::Demand => 3,
    };
    push_i8(buffer, value);
}

/// Every rate but `Demand` reads back from its byte.
pub proof fn lemma_rate_round_trip(rate: CalculationRate, pre: Seq<u8>, rest: Seq<u8>)
    requires
        rate != CalculationRate::Demand,
    ensures
        parse_rate_at(pre + enc_rate(rate) + rest, pre.len() as int) == Ok::<
            (CalculationRate, int),
            DecodeError,
        >((rate, pre.len() + 1int)),
{
    let whole = pre + enc_rate(rate) + rest;
    assert(whole[pre.len() as int] == i8_byte(rate.spec_code()));
}

// ---------------------------------------------------------------------------
// Inputs of unit generators.
// ---------------------------------------------------------------------------

/// Where an input of a unit generator comes from.
#[derive(Copy, Clone, Debug, PartialEq, Eq)]
pub enum Input {
    UGen { index: i32, output: i32 },
    Constant { index: i32 },
}

pub open spec fn enc_input(version: Version, input: Input) -> Seq<u8> {
    match input {
        Input::Constant { index } => enc_int(version, -1i32) + enc_int(version, index),
        Input::UGen { index, output } => enc_int(version, index) + enc_int(version, output),
    }
}

pub open spec fn parse_input_at(version: Version, bytes: Seq<u8>, pos: int) -> Result<
    (Input, int),
    DecodeError,
> {
    match parse_int_at(version, bytes, pos) {
        Err(e) => Err(e),
        Ok((index, p1)) => match parse_int_at(version, bytes, p1) {
            Err(e) => Err(e),
            Ok((value, p2)) => if index == -1i32 {
                Ok((Input::Constant { index: value }, p2))
            } else {
                Ok((Input::UGen { index, output: value }, p2))
            },
        },
    }
}

pub open spec fn input_item(version: Version) -> spec_fn(Seq<u8>, int) -> Result<
    (Input, int),
    DecodeError,
> {
    |b: Seq<u8>, p: int| parse_input_at(version, b, p)
}

pub open spec fn input_enc(version: Version) -> spec_fn(Input) -> Seq<u8> {
    |i: Input| enc_input(version, i)
}

/// Whether an input reads back from its bytes: its numbers fit the version,
/// and a unit generator input does not have the index -1 that marks constants.
pub open spec fn input_round_trips(version: Version, input: Input) -> bool {
    match input {
        Input::Constant { index } => int_fits(version, index as int),
        Input::UGen { index, output } => index != -1 && int_fits(version, index as int)
            && int_fits(version, output as int),
    }
}

fn read_input(version: Version, bytes: &[u8], pos: usize) -> (r: Result<(Input, usize), DecodeError>)
    ensures
        match r {
            Ok((v, p)) => parse_input_at(version, bytes@, pos as int) == Ok::<
                (Input, int),
                DecodeError,
            >((v, p as int)),
            Err(e) => parse_input_at(version, bytes@, pos as int) == Err::<
                (Input, int),
                DecodeError,
            >(e),
        },
{
    let (index, p) = read_int(version, bytes, pos)?;
    let (value, p) = read_int(version, bytes, p)?;
    let value = if index == -1 {
        Input::Constant { index: value }
    } else {
        Input::UGen { index, output: value }
    };
    Ok((value, p))
}

fn write_input(version: Version, buffer: &mut Vec<u8>, value: Input)
    ensures
        final(buffer)@ == old(buffer)@ + enc_input(version, value),
{
    match value {
        Input::Constant { index } => {
            write_int(version, buffer, -1);
            write_int(version, buffer, index);
        },
        Input::UGen { index, output } => {
            write_int(version, buffer, index);
            write_int(version, buffer, output);
        },
    }
    assert(final(buffer)@ == old(buffer)@ + enc_input(version, value));
}

pub proof fn lemma_input_round_trip(version: Version, input: Input, pre: Seq<u8>, rest: Seq<u8>)
    requires
        input_round_trips(version, input),
    ensures
        parse_input_at(version, pre + enc_input(version, input) + rest, pre.len() as int) == Ok::<
            (Input, int),
            DecodeError,
        >((input, (pre.len() + enc_input(version, input).len()) as int)),
{
    let (a, b) = match input {
        Input::Constant { index } => (-1i32, index),
        Input::UGen { index, output } => (index, output),
    };
    assert(enc_input(version, input) == enc_int(version, a) + enc_int(version, b));
    lemma_int_round_trip(version, a, pre, enc_int(version, b) + rest);
    lemma_int_round_trip(version, b, pre + enc_int(version, a), rest);
    assert(pre + enc_int(version, a) + (enc_int(version, b) + rest) == pre + enc_input(version, input) + rest);
    assert(pre + enc_int(version, a) + enc_int(version, b) + rest == pre + enc_input(version, input) + rest);
}

// ---------------------------------------------------------------------------
// Parameter names.
// ---------------------------------------------------------------------------

/// The name of a parameter and the index of the parameter it names.
#[derive(Clone, Debug, PartialEq, Eq)]
pub struct ParamName {
    pub name: String,
    pub index: i32,
}

pub struct ParamNameModel {
    pub name: Seq<char>,
    pub index: i32,
}

impl View for ParamName {
    type V = ParamNameModel;

    open spec fn view(&self) -> ParamNameModel {
        ParamNameModel { name: self.name@, index: self.index }
    }
}

pub open spec fn enc_param_name(version: Version, p: ParamNameModel) -> Seq<u8> {
    enc_pstring(p.name) + enc_int(version, p.index)
}

pub open spec fn parse_param_name_at(version: Version, bytes: Seq<u8>, pos: int) -> Result<
    (ParamNameModel, int),
    DecodeError,
> {
    match parse_pstring_at(bytes, pos) {
        Err(e) => Err(e),
        Ok((name, p1)) => match parse_int_at(version, bytes, p1) {
            Err(e) => Err(e),
            Ok((index, p2)) => Ok((ParamNameModel { name, index }, p2)),
        },
    }
}

pub open spec fn param_name_item(version: Version) -> spec_fn(Seq<u8>, int) -> Result<
    (ParamNameModel, int),
    DecodeError,
> {
    |b: Seq<u8>, p: int| parse_param_name_at(version, b, p)
}

pub open spec fn param_name_enc(version: Version) -> spec_fn(ParamNameModel) -> Seq<u8> {
    |p: ParamNameModel| enc_param_name(version, p)
}

pub open spec fn param_name_round_trips(version: Version, p: ParamNameModel) -> bool {
    encode_utf8(p.name).len() <= 255 && int_fits(version, p.index as int)
}

fn read_param_name(version: Version, bytes: &[u8], pos: usize) -> (r: Result<
    (ParamName, usize),
    DecodeError,
>)
    ensures
        match r {
            Ok((v, p)) => parse_param_name_at(version, bytes@, pos as int) == Ok::<
                (ParamNameModel, int),
                DecodeError,
            >((v@, p as int)),
            Err(e) => parse_param_name_at(version, bytes@, pos as int) == Err::<
                (ParamNameModel, int),
                DecodeError,
            >(e),
        },
{
    let (name, p) = read_pstring(bytes, pos)?;
    let (index, p) = read_int(version, bytes, p)?;
    Ok((ParamName { name, index }, p))
}

fn write_param_name(version: Version, buffer: &mut Vec<u8>, value: &ParamName)
    requires
        encode_utf8(value.name@).len() <= 255,
    ensures
        final(buffer)@ == old(buffer)@ + enc_param_name(version, value@),
{
    write_pstring(buffer, &value.name);
    write_int(version, buffer, value.index);
    assert(final(buffer)@ == old(buffer)@ + enc_param_name(version, value@));
}

pub proof fn lemma_param_name_round_trip(
    version: Version,
    p: ParamNameModel,
    pre: Seq<u8>,
    rest: Seq<u8>,
)
    requires
        param_name_round_trips(version, p),
    ensures
        parse_param_name_at(version, pre + enc_param_name(version, p) + rest, pre.len() as int)
            == Ok::<(ParamNameModel, int), DecodeError>(
            (p, (pre.len() + enc_param_name(version, p).len()) as int),
        ),
{
    let s = enc_pstring(p.name);
    let i = enc_int(version, p.index);
    lemma_pstring_round_trip(p.name, pre, i + rest);
    lemma_int_round_trip(version, p.index, pre + s, rest);
    assert(pre + s + (i + rest) == pre + enc_param_name(version, p) + rest);
    assert(pre + s + i + rest == pre + enc_param_name(version, p) + rest);
}

// ---------------------------------------------------------------------------
// Lists of 32-bit floats, held as their bit patterns.
// ---------------------------------------------------------------------------

pub open spec fn u32_item() -> spec_fn(Seq<u8>, int) -> Result<(u32, int), DecodeError> {
    |b: Seq<u8>, p: int| parse_u32_at(b, p)
}

pub open spec fn u32_enc() -> spec_fn(u32) -> Seq<u8> {
    |v: u32| be32(v)
}

/// A count, then that many floats.
pub open spec fn enc_floats(version: Version, xs: Seq<u32>) -> Seq<u8> {
    enc_list(version, u32_enc(), xs)
}

/// Reading the bytes of a 32-bit pattern gives it back.
pub proof fn lemma_u32_round_trip(v: u32, pre: Seq<u8>, rest: Seq<u8>)
    ensures
        parse_u32_at(pre + be32(v) + rest, pre.len() as int) == Ok::<(u32, int), DecodeError>(
            (v, pre.len() + 4int),
        ),
{
    lemma_u32_bytes_round_trip(v);
    let s = be32(v);
    let whole = pre + s + rest;
    let n = pre.len() as int;
    assert(whole[n] == s[0] && whole[n + 1] == s[1] && whole[n + 2] == s[2] && whole[n + 3]
        == s[3]);
}

/// Any list of 32-bit patterns reads back from its bytes.
pub proof fn lemma_u32_items_round_trip(xs: Seq<u32>)
    ensures
        forall|x: u32, p: Seq<u8>, r: Seq<u8>|
            xs.contains(x) ==> #[trigger] u32_item()(p + u32_enc()(x) + r, p.len() as int) == Ok::<
                (u32, int),
                DecodeError,
            >((x, (p.len() + u32_enc()(x).len()) as int)),
{
    assert forall|x: u32, p: Seq<u8>, r: Seq<u8>| xs.contains(x) implies #[trigger] u32_item()(
        p + u32_enc()(x) + r,
        p.len() as int,
    ) == Ok::<(u32, int), DecodeError>((x, (p.len() + u32_enc()(x).len()) as int)) by {
        lemma_u32_round_trip(x, p, r);
    }
}

fn read_floats(bytes: &[u8], pos: usize, n: usize) -> (r: Result<(Vec<u32>, usize), DecodeError>)
    ensures
        match r {
            Ok((v, p)) => parse_many(u32_item(), bytes@, pos as int, n as nat) == Ok::<
                (Seq<u32>, int),
                DecodeError,
            >((v@, p as int)),
            Err(e) => parse_many(u32_item(), bytes@, pos as int, n as nat) == Err::<
                (Seq<u32>, int),
                DecodeError,
            >(e),
        },
{
    let mut out: Vec<u32> = Vec::new();
    let mut p = pos;
    let mut i: usize = 0;
    while i < n
        invariant
            i <= n,
            parse_many(u32_item(), bytes@, pos as int, i as nat) == Ok::<
                (Seq<u32>, int),
                DecodeError,
            >((out@, p as int)),
        decreases n - i,
    {
        match read_u32(bytes, p) {
            Err(e) => {
                proof {
                    lemma_many_err(u32_item(), bytes@, pos as int, (i + 1) as nat, n as nat);
                }
                return Err(e);
            },
            Ok((x, p2)) => {
                out.push(x);
                p = p2;
            },
        }
        i = i + 1;
    }
    Ok((out, p))
}

fn write_floats(version: Version, buffer: &mut Vec<u8>, values: &Vec<u32>)
    ensures
        final(buffer)@ == old(buffer)@ + enc_floats(version, values@),
{
    write_int(version, buffer, values.len() as i32);
    let ghost start = buffer@;
    let mut i: usize = 0;
    while i < values.len()
        invariant
            i <= values@.len(),
            buffer@ == start + concat_many(u32_enc(), values@.take(i as int)),
        decreases values@.len() - i,
    {
        push_be32(buffer, values[i]);
        assert(values@.take(i + 1).drop_last() == values@.take(i as int));
        i = i + 1;
    }
    assert(values@.take(values@.len() as int) == values@);
}

// ---------------------------------------------------------------------------
// Unit generators.
// ---------------------------------------------------------------------------

/// A unit generator of a synth definition.
#[derive(Clone, Debug, PartialEq, Eq)]
pub struct UGen {
    pub name: String,
    pub rate: CalculationRate,
    pub ins: Vec<Input>,
    pub outs: Vec<CalculationRate>,
    pub special_index: i16,
}

pub struct UGenModel {
    pub name: Seq<char>,
    pub rate: CalculationRate,
    pub ins: Seq<Input>,
    pub outs: Seq<CalculationRate>,
    pub special_index: i16,
}

impl View for UGen {
    type V = UGenModel;

    open spec fn view(&self) -> UGenModel {
        UGenModel {
            name: self.name@,
            rate: self.rate,
            ins: self.ins@,
            outs: self.outs@,
            special_index: self.special_index,
        }
    }
}

#[verifier::opaque]
pub open spec fn enc_ugen(version: Version, u: UGenModel) -> Seq<u8> {
    enc_pstring(u.name) + enc_rate(u.rate) + enc_int(version, u.ins.len() as i32) + enc_int(
        version,
        u.outs.len() as i32,
    ) + i16_bytes(u.special_index) + concat_many(input_enc(version), u.ins) + concat_many(
        rate_enc(),
        u.outs,
    )
}

#[verifier::opaque]
pub open spec fn parse_ugen_at(version: Version, bytes: Seq<u8>, pos: int) -> Result<
    (UGenModel, int),
    DecodeError,
> {
    match parse_pstring_at(bytes, pos) {
        Err(e) => Err(e),
        Ok((name, p1)) => match parse_rate_at(bytes, p1) {
            Err(e) => Err(e),
            Ok((rate, p2)) => match parse_int_at(version, bytes, p2) {
                Err(e) => Err(e),
                Ok((in_len, p3)) => match parse_int_at(version, bytes, p3) {
                    Err(e) => Err(e),
                    Ok((out_len, p4)) => match parse_i16_at(bytes, p4) {
                        Err(e) => Err(e),
                        Ok((special_index, p5)) => match parse_many(
                            input_item(version),
                            bytes,
                            p5,
                            count(in_len),
                        ) {
                            Err(e) => Err(e),
                            Ok((ins, p6)) => match parse_many(rate_item(), bytes, p6, count(out_len)) {
                                Err(e) => Err(e),
                                Ok((outs, p7)) => Ok(
                                    (UGenModel { name, rate, ins, outs, special_index }, p7),
                                ),
                            },
                        },
                    },
                },
            },
        },
    }
}

pub open spec fn ugen_item(version: Version) -> spec_fn(Seq<u8>, int) -> Result<
    (UGenModel, int),
    DecodeError,
> {
    |b: Seq<u8>, p: int| parse_ugen_at(version, b, p)
}

pub open spec fn ugen_enc(version: Version) -> spec_fn(UGenModel) -> Seq<u8> {
    |u: UGenModel| enc_ugen(version, u)
}

/// Whether a unit generator reads back from its bytes: its name fits in 255
/// bytes, its counts and inputs fit the version, and no rate is `Demand`.
pub open spec fn ugen_round_trips(version: Version, u: UGenModel) -> bool {
    &&& encode_utf8(u.name).len() <= 255
    &&& u.rate != CalculationRate::Demand
    &&& int_fits(version, u.ins.len() as int)
    &&& int_fits(version, u.outs.len() as int)
    &&& forall|i: int| 0 <= i < u.ins.len() ==> input_round_trips(version, #[trigger] u.ins[i])
    &&& forall|i: int| 0 <= i < u.outs.len() ==> #[trigger] u.outs[i] != CalculationRate::Demand
}

fn read_inputs(version: Version, bytes: &[u8], pos: usize, n: i32) -> (r: Result<
    (Vec<Input>, usize),
    DecodeError,
>)
    ensures
        match r {
            Ok((v, p)) => parse_many(input_item(version), bytes@, pos as int, count(n)) == Ok::<
                (Seq<Input>, int),
                DecodeError,
            >((v@, p as int)),
            Err(e) => parse_many(input_item(version), bytes@, pos as int, count(n)) == Err::<
                (Seq<Input>, int),
                DecodeError,
            >(e),
        },
{
    let mut out: Vec<Input> = Vec::new();
    let mut p = pos;
    let mut i: i32 = 0;
    while i < n
        invariant
            0 <= i,
            i <= count(n),
            parse_many(input_item(version), bytes@, pos as int, i as nat) == Ok::<
                (Seq<Input>, int),
                DecodeError,
            >((out@, p as int)),
        decreases n - i,
    {
        match read_input(version, bytes, p) {
            Err(e) => {
                proof {
                    lemma_many_err(input_item(version), bytes@, pos as int, (i + 1) as nat, count(n));
                }
                return Err(e);
            },
            Ok((x, p2)) => {
                out.push(x);
                p = p2;
            },
        }
        i = i + 1;
    }
    Ok((out, p))
}

fn read_rates(bytes: &[u8], pos: usize, n: i32) -> (r: Result<
    (Vec<CalculationRate>, usize),
    DecodeError,
>)
    ensures
        match r {
            Ok((v, p)) => parse_many(rate_item(), bytes@, pos as int, count(n)) == Ok::<
                (Seq<CalculationRate>, int),
                DecodeError,
            >((v@, p as int)),
            Err(e) => parse_many(rate_item(), bytes@, pos as int, count(n)) == Err::<
                (Seq<CalculationRate>, int),
                DecodeError,
            >(e),
        },
{
    let mut out: Vec<CalculationRate> = Vec::new();
    let mut p = pos;
    let mut i: i32 = 0;
    while i < n
        invariant
            0 <= i,
            i <= count(n),
            parse_many(rate_item(), bytes@, pos as int, i as nat) == Ok::<
                (Seq<CalculationRate>, int),
                DecodeError,
            >((out@, p as int)),
        decreases n - i,
    {
        match read_rate(bytes, p) {
            Err(e) => {
                proof {
                    lemma_many_err(rate_item(), bytes@, pos as int, (i + 1) as nat, count(n));
                }
                return Err(e);
            },
            Ok((x, p2)) => {
                out.push(x);
                p = p2;
            },
        }
        i = i + 1;
    }
    Ok((out, p))
}

fn read_ugen(version: Version, bytes: &[u8], pos: usize) -> (r: Result<(UGen, usize), DecodeError>)
    ensures
        match r {
            Ok((v, p)) => parse_ugen_at(version, bytes@, pos as int) == Ok::<
                (UGenModel, int),
                DecodeError,
            >((v@, p as int)),
            Err(e) => parse_ugen_at(version, bytes@, pos as int) == Err::<
                (UGenModel, int),
                DecodeError,
            >(e),
        },
{
    proof {
        reveal(parse_ugen_at);
    }
    let (name, p) = read_pstring(bytes, pos)?;
    let (rate, p) = read_rate(bytes, p)?;
    let (in_len, p) = read_int(version, bytes, p)?;
    let (out_len, p) = read_int(version, bytes, p)?;
    let (special_index, p) = read_i16(bytes, p)?;
    let (ins, p) = read_inputs(version, bytes, p, in_len)?;
    let (outs, p) = read_rates(bytes, p, out_len)?;
    Ok((UGen { name, rate, ins, outs, special_index }, p))
}

fn write_ugen(version: Version, buffer: &mut Vec<u8>, value: &UGen)
    requires
        encode_utf8(value.name@).len() <= 255,
    ensures
        final(buffer)@ == old(buffer)@ + enc_ugen(version, value@),
{
    write_pstring(buffer, &value.name);
    write_rate(buffer, value.rate);
    write_int(version, buffer, value.ins.len() as i32);
    write_int(version, buffer, value.outs.len() as i32);
    push_i16(buffer, value.special_index);
    let ghost mid = buffer@;
    let mut i: usize = 0;
    while i < value.ins.len()
        invariant
            i <= value.ins@.len(),
            buffer@ == mid + concat_many(input_enc(version), value.ins@.take(i as int)),
        decreases value.ins@.len() - i,
    {
        write_input(version, buffer, value.ins[i]);
        assert(value.ins@.take(i + 1).drop_last() == value.ins@.take(i as int));
        i = i + 1;
    }
    assert(value.ins@.take(value.ins@.len() as int) == value.ins@);
    let ghost mid2 = buffer@;
    let mut j: usize = 0;
    while j < value.outs.len()
        invariant
            j <= value.outs@.len(),
            buffer@ == mid2 + concat_many(rate_enc(), value.outs@.take(j as int)),
        decreases value.outs@.len() - j,
    {
        write_rate(buffer, value.outs[j]);
        assert(value.outs@.take(j + 1).drop_last() == value.outs@.take(j as int));
        j = j + 1;
    }
    assert(value.outs@.take(value.outs@.len() as int) == value.outs@);
    proof {
        lemma_ugen_append(version, value@, old(buffer)@);
    }
}

/// A list of inputs that each read back from their bytes reads back.
pub proof fn lemma_inputs_round_trip(version: Version, ins: Seq<Input>, pre: Seq<u8>, rest: Seq<u8>)
    requires
        forall|i: int| 0 <= i < ins.len() ==> input_round_trips(version, #[trigger] ins[i]),
    ensures
        parse_many(
            input_item(version),
            pre + concat_many(input_enc(version), ins) + rest,
            pre.len() as int,
            ins.len(),
        ) == Ok::<(Seq<Input>, int), DecodeError>(
            (ins, (pre.len() + concat_many(input_enc(version), ins).len()) as int),
        ),
{
    assert forall|x: Input, p: Seq<u8>, r: Seq<u8>| ins.contains(x) implies #[trigger] input_item(
        version,
    )(p + input_enc(version)(x) + r, p.len() as int) == Ok::<(Input, int), DecodeError>(
        (x, (p.len() + input_enc(version)(x).len()) as int),
    ) by {
        lemma_input_round_trip(version, x, p, r);
    }
    lemma_many_round_trip(input_item(version), input_enc(version), ins, pre, rest);
}

/// A list of rates none of which is `Demand` reads back.
pub proof fn lemma_rates_round_trip(outs: Seq<CalculationRate>, pre: Seq<u8>, rest: Seq<u8>)
    requires
        forall|i: int| 0 <= i < outs.len() ==> #[trigger] outs[i] != CalculationRate::Demand,
    ensures
        parse_many(rate_item(), pre + concat_many(rate_enc(), outs) + rest, pre.len() as int, outs.len())
            == Ok::<(Seq<CalculationRate>, int), DecodeError>(
            (outs, (pre.len() + concat_many(rate_enc(), outs).len()) as int),
        ),
{
    assert forall|x: CalculationRate, p: Seq<u8>, r: Seq<u8>| outs.contains(x) implies #[trigger] rate_item()(
        p + rate_enc()(x) + r,
        p.len() as int,
    ) == Ok::<(CalculationRate, int), DecodeError>(
        (x, (p.len() + rate_enc()(x).len()) as int),
    ) by {
        lemma_rate_round_trip(x, p, r);
    }
    lemma_many_round_trip(rate_item(), rate_enc(), outs, pre, rest);
}

/// Appending the bytes of a unit generator appends its parts one by one.
proof fn lemma_ugen_append(version: Version, u: UGenModel, pre: Seq<u8>)
    ensures
        pre + enc_ugen(version, u) == pre + enc_pstring(u.name) + enc_rate(u.rate) + enc_int(
            version,
            u.ins.len() as i32,
        ) + enc_int(version, u.outs.len() as i32) + i16_bytes(u.special_index) + concat_many(
            input_enc(version),
            u.ins,
        ) + concat_many(rate_enc(), u.outs),
{
    reveal(enc_ugen);
    let s1 = enc_pstring(u.name);
    let s2 = enc_rate(u.rate);
    let s3 = enc_int(version, u.ins.len() as i32);
    let s4 = enc_int(version, u.outs.len() as i32);
    let s5 = i16_bytes(u.special_index);
    let s6 = concat_many(input_enc(version), u.ins);
    let s7 = concat_many(rate_enc(), u.outs);
    vstd::seq_lib::lemma_concat_associative(pre, s1, s2);
    vstd::seq_lib::lemma_concat_associative(pre, s1 + s2, s3);
    vstd::seq_lib::lemma_concat_associative(pre, s1 + s2 + s3, s4);
    vstd::seq_lib::lemma_concat_associative(pre, s1 + s2 + s3 + s4, s5);
    vstd::seq_lib::lemma_concat_associative(pre, s1 + s2 + s3 + s4 + s5, s6);
    vstd::seq_lib::lemma_concat_associative(pre, s1 + s2 + s3 + s4 + s5 + s6, s7);
}

/// The bytes of a unit generator, cut where each of its parts begins.
proof fn lemma_ugen_layout(version: Version, u: UGenModel, pre: Seq<u8>, rest: Seq<u8>)
    ensures
        ({
            let s1 = enc_pstring(u.name);
            let s2 = enc_rate(u.rate);
            let s3 = enc_int(version, u.ins.len() as i32);
            let s4 = enc_int(version, u.outs.len() as i32);
            let s5 = i16_bytes(u.special_index);
            let s6 = concat_many(input_enc(version), u.ins);
            let s7 = concat_many(rate_enc(), u.outs);
            let whole = pre + enc_ugen(version, u) + rest;
            &&& whole == pre + s1 + (s2 + (s3 + (s4 + (s5 + (s6 + (s7 + rest))))))
            &&& whole == pre + s1 + s2 + (s3 + (s4 + (s5 + (s6 + (s7 + rest)))))
            &&& whole == pre + s1 + s2 + s3 + (s4 + (s5 + (s6 + (s7 + rest))))
            &&& whole == pre + s1 + s2 + s3 + s4 + (s5 + (s6 + (s7 + rest)))
            &&& whole == pre + s1 + s2 + s3 + s4 + s5 + (s6 + (s7 + rest))
            &&& whole == pre + s1 + s2 + s3 + s4 + s5 + s6 + (s7 + rest)
            &&& whole == pre + s1 + s2 + s3 + s4 + s5 + s6 + s7 + rest
        }),
{
    let s1 = enc_pstring(u.name);
    let s2 = enc_rate(u.rate);
    let s3 = enc_int(version, u.ins.len() as i32);
    let s4 = enc_int(version, u.outs.len() as i32);
    let s5 = i16_bytes(u.special_index);
    let s6 = concat_many(input_enc(version), u.ins);
    let s7 = concat_many(rate_enc(), u.outs);
    let a = pre + s1;
    let b = a + s2;
    let c = b + s3;
    let d = c + s4;
    let e = d + s5;
    let f = e + s6;
    lemma_ugen_append(version, u, pre);
    vstd::seq_lib::lemma_concat_associative(f, s7, rest);
    vstd::seq_lib::lemma_concat_associative(e, s6, s7 + rest);
    vstd::seq_lib::lemma_concat_associative(d, s5, s6 + (s7 + rest));
    vstd::seq_lib::lemma_concat_associative(c, s4, s5 + (s6 + (s7 + rest)));
    vstd::seq_lib::lemma_concat_associative(b, s3, s4 + (s5 + (s6 + (s7 + rest))));
    vstd::seq_lib::lemma_concat_associative(a, s2, s3 + (s4 + (s5 + (s6 + (s7 + rest)))));
}

/// The parts of a unit generator that come before its lists read back.
#[verifier::rlimit(30)]
#[verifier::spinoff_prover]
proof fn lemma_ugen_head_round_trip(version: Version, u: UGenModel, pre: Seq<u8>, rest: Seq<u8>)
    requires
        ugen_round_trips(version, u),
    ensures
        ({
            let whole = pre + enc_ugen(version, u) + rest;
            let n1 = pre.len() as int;
            let n2 = n1 + enc_pstring(u.name).len();
            let n3 = n2 + 1;
            let n4 = n3 + enc_int(version, u.ins.len() as i32).len();
            let n5 = n4 + enc_int(version, u.outs.len() as i32).len();
            &&& parse_pstring_at(whole, n1) == Ok::<(Seq<char>, int), DecodeError>((u.name, n2))
            &&& parse_rate_at(whole, n2) == Ok::<(CalculationRate, int), DecodeError>((u.rate, n3))
            &&& parse_int_at(version, whole, n3) == Ok::<(i32, int), DecodeError>(
                (u.ins.len() as i32, n4),
            )
            &&& parse_int_at(version, whole, n4) == Ok::<(i32, int), DecodeError>(
                (u.outs.len() as i32, n5),
            )
            &&& parse_i16_at(whole, n5) == Ok::<(i16, int), DecodeError>(
                (u.special_index, n5 + 2),
            )
        }),
{
    let s1 = enc_pstring(u.name);
    let s2 = enc_rate(u.rate);
    let s3 = enc_int(version, u.ins.len() as i32);
    let s4 = enc_int(version, u.outs.len() as i32);
    let s5 = i16_bytes(u.special_index);
    let s6 = concat_many(input_enc(version), u.ins);
    let s7 = concat_many(rate_enc(), u.outs);
    lemma_ugen_layout(version, u, pre, rest);
    lemma_pstring_round_trip(u.name, pre, s2 + (s3 + (s4 + (s5 + (s6 + (s7 + rest))))));
    lemma_rate_round_trip(u.rate, pre + s1, s3 + (s4 + (s5 + (s6 + (s7 + rest)))));
    lemma_int_round_trip(version, u.ins.len() as i32, pre + s1 + s2, s4 + (s5 + (s6 + (s7 + rest))));
    lemma_int_round_trip(version, u.outs.len() as i32, pre + s1 + s2 + s3, s5 + (s6 + (s7 + rest)));
    lemma_i16_bytes_round_trip(u.special_index);
    let p = pre + s1 + s2 + s3 + s4;
    let whole = p + s5 + (s6 + (s7 + rest));
    assert(whole[p.len() as int] == s5[0] && whole[p.len() + 1int] == s5[1]);
}

/// The lists of a unit generator read back.
#[verifier::rlimit(30)]
#[verifier::spinoff_prover]
proof fn lemma_ugen_lists_round_trip(version: Version, u: UGenModel, pre: Seq<u8>, rest: Seq<u8>)
    requires
        ugen_round_trips(version, u),
    ensures
        ({
            let whole = pre + enc_ugen(version, u) + rest;
            let n6 = pre.len() + enc_pstring(u.name).len() + 1int + enc_int(
                version,
                u.ins.len() as i32,
            ).len() + enc_int(version, u.outs.len() as i32).len() + 2int;
            let n7 = n6 + concat_many(input_enc(version), u.ins).len();
            let n8 = n7 + concat_many(rate_enc(), u.outs).len();
            &&& parse_many(input_item(version), whole, n6, u.ins.len()) == Ok::<
                (Seq<Input>, int),
                DecodeError,
            >((u.ins, n7))
            &&& parse_many(rate_item(), whole, n7, u.outs.len()) == Ok::<
                (Seq<CalculationRate>, int),
                DecodeError,
            >((u.outs, n8))
            &&& n8 == pre.len() + enc_ugen(version, u).len()
        }),
{
    let s1 = enc_pstring(u.name);
    let s2 = enc_rate(u.rate);
    let s3 = enc_int(version, u.ins.len() as i32);
    let s4 = enc_int(version, u.outs.len() as i32);
    let s5 = i16_bytes(u.special_index);
    let s6 = concat_many(input_enc(version), u.ins);
    let s7 = concat_many(rate_enc(), u.outs);
    lemma_ugen_layout(version, u, pre, rest);
    lemma_inputs_round_trip(version, u.ins, pre + s1 + s2 + s3 + s4 + s5, s7 + rest);
    lemma_rates_round_trip(u.outs, pre + s1 + s2 + s3 + s4 + s5 + s6, rest);
    lemma_ugen_append(version, u, pre);
}

/// A unit generator whose name fits in 255 bytes, whose counts and inputs
/// fit the version and which has no `Demand` rate reads back from its bytes.
#[verifier::spinoff_prover]
#[verifier::rlimit(40)]
pub proof fn lemma_ugen_round_trip(version: Version, u: UGenModel, pre: Seq<u8>, rest: Seq<u8>)
    requires
        ugen_round_trips(version, u),
    ensures
        parse_ugen_at(version, pre + enc_ugen(version, u) + rest, pre.len() as int) == Ok::<
            (UGenModel, int),
            DecodeError,
        >((u, (pre.len() + enc_ugen(version, u).len()) as int)),
{
    reveal(parse_ugen_at);
    lemma_ugen_head_round_trip(version, u, pre, rest);
    lemma_ugen_lists_round_trip(version, u, pre, rest);
    assert(count(u.ins.len() as i32) == u.ins.len());
    assert(count(u.outs.len() as i32) == u.outs.len());
}

// ---------------------------------------------------------------------------
// Lists of parameter names and of unit generators.
// ---------------------------------------------------------------------------

fn read_u32_list(version: Version, bytes: &[u8], pos: usize) -> (r: Result<
    (Vec<u32>, usize),
    DecodeError,
>)
    ensures
        match r {
            Ok((v, p)) => parse_list_at(version, u32_item(), bytes@, pos as int) == Ok::<
                (Seq<u32>, int),
                DecodeError,
            >((v@, p as int)),
            Err(e) => parse_list_at(version, u32_item(), bytes@, pos as int) == Err::<
                (Seq<u32>, int),
                DecodeError,
            >(e),
        },
{
    let (n, p) = read_int(version, bytes, pos)?;
    let n: usize = if n < 0 {
        0
    } else {
        n as usize
    };
    read_floats(bytes, p, n)
}

fn read_param_names(version: Version, bytes: &[u8], pos: usize) -> (r: Result<
    (Vec<ParamName>, usize),
    DecodeError,
>)
    ensures
        match r {
            Ok((v, p)) => parse_list_at(version, param_name_item(version), bytes@, pos as int)
                == Ok::<(Seq<ParamNameModel>, int), DecodeError>((v@.map_values(|x: ParamName| x@), p as int)),
            Err(e) => parse_list_at(version, param_name_item(version), bytes@, pos as int)
                == Err::<(Seq<ParamNameModel>, int), DecodeError>(e),
        },
{
    let (n, p0) = read_int(version, bytes, pos)?;
    let mut out: Vec<ParamName> = Vec::new();
    let mut p = p0;
    let mut i: i32 = 0;
    assert(out@.map_values(|x: ParamName| x@) == Seq::<ParamNameModel>::empty());
    while i < n
        invariant
            0 <= i,
            i <= count(n),
            parse_int_at(version, bytes@, pos as int) == Ok::<(i32, int), DecodeError>((n, p0 as int)),
            parse_many(param_name_item(version), bytes@, p0 as int, i as nat) == Ok::<
                (Seq<ParamNameModel>, int),
                DecodeError,
            >((out@.map_values(|x: ParamName| x@), p as int)),
        decreases n - i,
    {
        match read_param_name(version, bytes, p) {
            Err(e) => {
                proof {
                    lemma_many_err(
                        param_name_item(version),
                        bytes@,
                        p0 as int,
                        (i + 1) as nat,
                        count(n),
                    );
                }
                return Err(e);
            },
            Ok((x, p2)) => {
                let ghost before = out@;
                out.push(x);
                assert(out@.map_values(|x: ParamName| x@) == before.map_values(|x: ParamName| x@).push(x@));
                p = p2;
            },
        }
        i = i + 1;
    }
    Ok((out, p))
}

fn read_ugens(version: Version, bytes: &[u8], pos: usize) -> (r: Result<
    (Vec<UGen>, usize),
    DecodeError,
>)
    ensures
        match r {
            Ok((v, p)) => parse_list_at(version, ugen_item(version), bytes@, pos as int) == Ok::<
                (Seq<UGenModel>, int),
                DecodeError,
            >((v@.map_values(|x: UGen| x@), p as int)),
            Err(e) => parse_list_at(version, ugen_item(version), bytes@, pos as int) == Err::<
                (Seq<UGenModel>, int),
                DecodeError,
            >(e),
        },
{
    let (n, p0) = read_int(version, bytes, pos)?;
    let mut out: Vec<UGen> = Vec::new();
    let mut p = p0;
    let mut i: i32 = 0;
    assert(out@.map_values(|x: UGen| x@) == Seq::<UGenModel>::empty());
    while i < n
        invariant
            0 <= i,
            i <= count(n),
            parse_int_at(version, bytes@, pos as int) == Ok::<(i32, int), DecodeError>((n, p0 as int)),
            parse_many(ugen_item(version), bytes@, p0 as int, i as nat) == Ok::<
                (Seq<UGenModel>, int),
                DecodeError,
            >((out@.map_values(|x: UGen| x@), p as int)),
        decreases n - i,
    {
        match read_ugen(version, bytes, p) {
            Err(e) => {
                proof {
                    lemma_many_err(ugen_item(version), bytes@, p0 as int, (i + 1) as nat, count(n));
                }
                return Err(e);
            },
            Ok((x, p2)) => {
                let ghost before = out@;
                out.push(x);
                assert(out@.map_values(|x: UGen| x@) == before.map_values(|x: UGen| x@).push(x@));
                p = p2;
            },
        }
        i = i + 1;
    }
    Ok((out, p))
}

fn write_param_names(version: Version, buffer: &mut Vec<u8>, values: &Vec<ParamName>)
    requires
        forall|i: int| 0 <= i < values.len() ==> encode_utf8(#[trigger] values@[i].name@).len() <= 255,
    ensures
        final(buffer)@ == old(buffer)@ + enc_list(
            version,
            param_name_enc(version),
            values@.map_values(|x: ParamName| x@),
        ),
{
    let ghost models = values@.map_values(|x: ParamName| x@);
    write_int(version, buffer, values.len() as i32);
    let ghost start = buffer@;
    let mut i: usize = 0;
    while i < values.len()
        invariant
            i <= values@.len(),
            models == values@.map_values(|x: ParamName| x@),
            forall|k: int| 0 <= k < values.len() ==> encode_utf8(#[trigger] values@[k].name@).len() <= 255,
            buffer@ == start + concat_many(param_name_enc(version), models.take(i as int)),
        decreases values@.len() - i,
    {
        write_param_name(version, buffer, &values[i]);
        assert(models.take(i + 1).drop_last() == models.take(i as int));
        i = i + 1;
    }
    assert(models.take(models.len() as int) == models);
}

fn write_ugens(version: Version, buffer: &mut Vec<u8>, values: &Vec<UGen>)
    requires
        forall|i: int| 0 <= i < values.len() ==> encode_utf8(#[trigger] values@[i].name@).len() <= 255,
    ensures
        final(buffer)@ == old(buffer)@ + enc_list(
            version,
            ugen_enc(version),
            values@.map_values(|x: UGen| x@),
        ),
{
    let ghost models = values@.map_values(|x: UGen| x@);
    write_int(version, buffer, values.len() as i32);
    let ghost start = buffer@;
    let mut i: usize = 0;
    while i < values.len()
        invariant
            i <= values@.len(),
            models == values@.map_values(|x: UGen| x@),
            forall|k: int| 0 <= k < values.len() ==> encode_utf8(#[trigger] values@[k].name@).len() <= 255,
            buffer@ == start + concat_many(ugen_enc(version), models.take(i as int)),
        decreases values@.len() - i,
    {
        write_ugen(version, buffer, &values[i]);
        assert(models.take(i + 1).drop_last() == models.take(i as int));
        i = i + 1;
    }
    assert(models.take(models.len() as int) == models);
}

// ---------------------------------------------------------------------------
// Variants: named sets of parameter values.
// ---------------------------------------------------------------------------

/// A named set of values for the parameters of a definition, each held as
/// the bit pattern of a 32-bit float.
#[derive(Clone, Debug, PartialEq, Eq)]
pub struct Variant {
    pub name: String,
    pub params: Vec<u32>,
}

pub struct VariantModel {
    pub name: Seq<char>,
    pub params: Seq<u32>,
}

impl View for Variant {
    type V = VariantModel;

    open spec fn view(&self) -> VariantModel {
        VariantModel { name: self.name@, params: self.params@ }
    }
}

/// A variant is written as its name and then a counted list of its values.
pub open spec fn enc_variant(version: Version, v: VariantModel) -> Seq<u8> {
    enc_pstring(v.name) + enc_floats(version, v.params)
}

/// A variant is read as its name and then as many values as the definition
/// has parameters, with no count in front.
pub open spec fn parse_variant_at(nparams: nat, bytes: Seq<u8>, pos: int) -> Result<
    (VariantModel, int),
    DecodeError,
> {
    match parse_pstring_at(bytes, pos) {
        Err(e) => Err(e),
        Ok((name, p1)) => match parse_many(u32_item(), bytes, p1, nparams) {
            Err(e) => Err(e),
            Ok((params, p2)) => Ok((VariantModel { name, params }, p2)),
        },
    }
}

pub open spec fn variant_item(nparams: nat) -> spec_fn(Seq<u8>, int) -> Result<
    (VariantModel, int),
    DecodeError,
> {
    |b: Seq<u8>, p: int| parse_variant_at(nparams, b, p)
}

pub open spec fn variant_enc(version: Version) -> spec_fn(VariantModel) -> Seq<u8> {
    |v: VariantModel| enc_variant(version, v)
}

fn read_variant(bytes: &[u8], pos: usize, nparams: usize) -> (r: Result<
    (Variant, usize),
    DecodeError,
>)
    ensures
        match r {
            Ok((v, p)) => parse_variant_at(nparams as nat, bytes@, pos as int) == Ok::<
                (VariantModel, int),
                DecodeError,
            >((v@, p as int)),
            Err(e) => parse_variant_at(nparams as nat, bytes@, pos as int) == Err::<
                (VariantModel, int),
                DecodeError,
            >(e),
        },
{
    let (name, p) = read_pstring(bytes, pos)?;
    let (params, p) = read_floats(bytes, p, nparams)?;
    Ok((Variant { name, params }, p))
}

fn write_variant(version: Version, buffer: &mut Vec<u8>, value: &Variant)
    requires
        encode_utf8(value.name@).len() <= 255,
    ensures
        final(buffer)@ == old(buffer)@ + enc_variant(version, value@),
{
    write_pstring(buffer, &value.name);
    write_floats(version, buffer, &value.params);
    assert(final(buffer)@ == old(buffer)@ + enc_variant(version, value@));
}

/// Reads a 16-bit count, then that many variants of `nparams` values each.
pub open spec fn parse_variants_at(nparams: nat, bytes: Seq<u8>, pos: int) -> Result<
    (Seq<VariantModel>, int),
    DecodeError,
> {
    match parse_i16_at(bytes, pos) {
        Err(e) => Err(e),
        Ok((n, p)) => parse_many(variant_item(nparams), bytes, p, count(n as i32)),
    }
}

/// A 16-bit count, then the variants.
pub open spec fn enc_variants(version: Version, vs: Seq<VariantModel>) -> Seq<u8> {
    i16_bytes(vs.len() as i16) + concat_many(variant_enc(version), vs)
}

fn read_variants(bytes: &[u8], pos: usize, nparams: usize) -> (r: Result<
    (Vec<Variant>, usize),
    DecodeError,
>)
    ensures
        match r {
            Ok((v, p)) => parse_variants_at(nparams as nat, bytes@, pos as int) == Ok::<
                (Seq<VariantModel>, int),
                DecodeError,
            >((v@.map_values(|x: Variant| x@), p as int)),
            Err(e) => parse_variants_at(nparams as nat, bytes@, pos as int) == Err::<
                (Seq<VariantModel>, int),
                DecodeError,
            >(e),
        },
{
    let (n, p0) = read_i16(bytes, pos)?;
    let mut out: Vec<Variant> = Vec::new();
    let mut p = p0;
    let mut i: i16 = 0;
    assert(out@.map_values(|x: Variant| x@) == Seq::<VariantModel>::empty());
    while i < n
        invariant
            0 <= i,
            i <= count(n as i32),
            parse_i16_at(bytes@, pos as int) == Ok::<(i16, int), DecodeError>((n, p0 as int)),
            parse_many(variant_item(nparams as nat), bytes@, p0 as int, i as nat) == Ok::<
                (Seq<VariantModel>, int),
                DecodeError,
            >((out@.map_values(|x: Variant| x@), p as int)),
        decreases n - i,
    {
        match read_variant(bytes, p, nparams) {
            Err(e) => {
                proof {
                    lemma_many_err(
                        variant_item(nparams as nat),
                        bytes@,
                        p0 as int,
                        (i + 1) as nat,
                        count(n as i32),
                    );
                }
                return Err(e);
            },
            Ok((x, p2)) => {
                let ghost before = out@;
                out.push(x);
                assert(out@.map_values(|x: Variant| x@) == before.map_values(|x: Variant| x@).push(
                    x@,
                ));
                p = p2;
            },
        }
        i = i + 1;
    }
    Ok((out, p))
}

fn write_variants(version: Version, buffer: &mut Vec<u8>, values: &Vec<Variant>)
    requires
        forall|i: int| 0 <= i < values.len() ==> encode_utf8(#[trigger] values@[i].name@).len() <= 255,
    ensures
        final(buffer)@ == old(buffer)@ + enc_variants(
            version,
            values@.map_values(|x: Variant| x@),
        ),
{
    let ghost models = values@.map_values(|x: Variant| x@);
    push_i16(buffer, values.len() as i16);
    let ghost start = buffer@;
    let mut i: usize = 0;
    while i < values.len()
        invariant
            i <= values@.len(),
            models == values@.map_values(|x: Variant| x@),
            forall|k: int| 0 <= k < values.len() ==> encode_utf8(#[trigger] values@[k].name@).len() <= 255,
            buffer@ == start + concat_many(variant_enc(version), models.take(i as int)),
        decreases values@.len() - i,
    {
        write_variant(version, buffer, &values[i]);
        assert(models.take(i + 1).drop_last() == models.take(i as int));
        i = i + 1;
    }
    assert(models.take(models.len() as int) == models);
}

/// Where a list of variants is empty, it reads back from its bytes.
pub proof fn lemma_no_variants_round_trip(
    version: Version,
    nparams: nat,
    pre: Seq<u8>,
    rest: Seq<u8>,
)
    ensures
        parse_variants_at(
            nparams,
            pre + enc_variants(version, Seq::<VariantModel>::empty()) + rest,
            pre.len() as int,
        ) == Ok::<(Seq<VariantModel>, int), DecodeError>((Seq::<VariantModel>::empty(), pre.len() + 2int)),
{
    let e = Seq::<VariantModel>::empty();
    let s = i16_bytes(0i16);
    assert(enc_variants(version, e) == s);
    lemma_i16_bytes_round_trip(0i16);
    let whole = pre + s + rest;
    assert(whole[pre.len() as int] == s[0] && whole[pre.len() + 1int] == s[1]);
}

// ---------------------------------------------------------------------------
// Synth definitions.
// ---------------------------------------------------------------------------

/// A synth definition: its constants and parameter defaults (each held as
/// the bit pattern of a 32-bit float), the names of its parameters, its unit
/// generators and its variants.
#[derive(Clone, Debug, PartialEq, Eq)]
pub struct Definition {
    pub name: String,
    pub consts: Vec<u32>,
    pub params: Vec<u32>,
    pub param_names: Vec<ParamName>,
    pub ugens: Vec<UGen>,
    pub variants: Vec<Variant>,
}

pub struct DefinitionModel {
    pub name: Seq<char>,
    pub consts: Seq<u32>,
    pub params: Seq<u32>,
    pub param_names: Seq<ParamNameModel>,
    pub ugens: Seq<UGenModel>,
    pub variants: Seq<VariantModel>,
}

impl View for Definition {
    type V = DefinitionModel;

    open spec fn view(&self) -> DefinitionModel {
        DefinitionModel {
            name: self.name@,
            consts: self.consts@,
            params: self.params@,
            param_names: self.param_names@.map_values(|x: ParamName| x@),
            ugens: self.ugens@.map_values(|x: UGen| x@),
            variants: self.variants@.map_values(|x: Variant| x@),
        }
    }
}

#[verifier::opaque]
pub open spec fn enc_definition(version: Version, d: DefinitionModel) -> Seq<u8> {
    enc_pstring(d.name) + enc_floats(version, d.consts) + enc_floats(version, d.params) + enc_list(
        version,
        param_name_enc(version),
        d.param_names,
    ) + enc_list(version, ugen_enc(version), d.ugens) + enc_variants(version, d.variants)
}

#[verifier::opaque]
pub open spec fn parse_definition_at(version: Version, bytes: Seq<u8>, pos: int) -> Result<
    (DefinitionModel, int),
    DecodeError,
> {
    match parse_pstring_at(bytes, pos) {
        Err(e) => Err(e),
        Ok((name, p1)) => match parse_list_at(version, u32_item(), bytes, p1) {
            Err(e) => Err(e),
            Ok((consts, p2)) => match parse_list_at(version, u32_item(), bytes, p2) {
                Err(e) => Err(e),
                Ok((params, p3)) => match parse_list_at(
                    version,
                    param_name_item(version),
                    bytes,
                    p3,
                ) {
                    Err(e) => Err(e),
                    Ok((param_names, p4)) => match parse_list_at(
                        version,
                        ugen_item(version),
                        bytes,
                        p4,
                    ) {
                        Err(e) => Err(e),
                        Ok((ugens, p5)) => match parse_variants_at(params.len(), bytes, p5) {
                            Err(e) => Err(e),
                            Ok((variants, p6)) => Ok(
                                (
                                    DefinitionModel {
                                        name,
                                        consts,
                                        params,
                                        param_names,
                                        ugens,
                                        variants,
                                    },
                                    p6,
                                ),
                            ),
                        },
                    },
                },
            },
        },
    }
}

pub open spec fn definition_item(version: Version) -> spec_fn(Seq<u8>, int) -> Result<
    (DefinitionModel, int),
    DecodeError,
> {
    |b: Seq<u8>, p: int| parse_definition_at(version, b, p)
}

pub open spec fn definition_enc(version: Version) -> spec_fn(DefinitionModel) -> Seq<u8> {
    |d: DefinitionModel| enc_definition(version, d)
}

/// Whether every name in a definition fits in 255 bytes, so that it can be
/// written.
pub open spec fn definition_encodable(d: DefinitionModel) -> bool {
    &&& encode_utf8(d.name).len() <= 255
    &&& forall|i: int|
        0 <= i < d.param_names.len() ==> encode_utf8(#[trigger] d.param_names[i].name).len() <= 255
    &&& forall|i: int| 0 <= i < d.ugens.len() ==> encode_utf8(#[trigger] d.ugens[i].name).len() <= 255
    &&& forall|i: int|
        0 <= i < d.variants.len() ==> encode_utf8(#[trigger] d.variants[i].name).len() <= 255
}

/// Whether a definition reads back from its bytes: it can be written, its
/// counts, indices and unit generators fit the version, and it has no
/// variants (a variant is written with a count in front of its values but
/// read without one).
pub open spec fn definition_round_trips(version: Version, d: DefinitionModel) -> bool {
    &&& definition_encodable(d)
    &&& int_fits(version, d.consts.len() as int)
    &&& int_fits(version, d.params.len() as int)
    &&& int_fits(version, d.param_names.len() as int)
    &&& int_fits(version, d.ugens.len() as int)
    &&& forall|i: int|
        0 <= i < d.param_names.len() ==> param_name_round_trips(version, #[trigger] d.param_names[i])
    &&& forall|i: int| 0 <= i < d.ugens.len() ==> ugen_round_trips(version, #[trigger] d.ugens[i])
    &&& d.variants.len() == 0
}

fn read_definition(version: Version, bytes: &[u8], pos: usize) -> (r: Result<
    (Definition, usize),
    DecodeError,
>)
    ensures
        match r {
            Ok((v, p)) => parse_definition_at(version, bytes@, pos as int) == Ok::<
                (DefinitionModel, int),
                DecodeError,
            >((v@, p as int)),
            Err(e) => parse_definition_at(version, bytes@, pos as int) == Err::<
                (DefinitionModel, int),
                DecodeError,
            >(e),
        },
{
    proof {
        reveal(parse_definition_at);
    }
    let (name, p) = read_pstring(bytes, pos)?;
    let (consts, p) = read_u32_list(version, bytes, p)?;
    let (params, p) = read_u32_list(version, bytes, p)?;
    let (param_names, p) = read_param_names(version, bytes, p)?;
    let (ugens, p) = read_ugens(version, bytes, p)?;
    let (variants, p) = read_variants(bytes, p, params.len())?;
    Ok((Definition { name, consts, params, param_names, ugens, variants }, p))
}

/// Appending six parts one after another.
proof fn lemma_append6(
    pre: Seq<u8>,
    s1: Seq<u8>,
    s2: Seq<u8>,
    s3: Seq<u8>,
    s4: Seq<u8>,
    s5: Seq<u8>,
    s6: Seq<u8>,
    rest: Seq<u8>,
)
    ensures
        ({
            let whole = pre + (s1 + s2 + s3 + s4 + s5 + s6) + rest;
            &&& pre + (s1 + s2 + s3 + s4 + s5 + s6) == pre + s1 + s2 + s3 + s4 + s5 + s6
            &&& whole == pre + s1 + (s2 + (s3 + (s4 + (s5 + (s6 + rest)))))
            &&& whole == pre + s1 + s2 + (s3 + (s4 + (s5 + (s6 + rest))))
            &&& whole == pre + s1 + s2 + s3 + (s4 + (s5 + (s6 + rest)))
            &&& whole == pre + s1 + s2 + s3 + s4 + (s5 + (s6 + rest))
            &&& whole == pre + s1 + s2 + s3 + s4 + s5 + (s6 + rest)
            &&& whole == pre + s1 + s2 + s3 + s4 + s5 + s6 + rest
        }),
{
    vstd::seq_lib::lemma_concat_associative(pre, s1, s2);
    vstd::seq_lib::lemma_concat_associative(pre, s1 + s2, s3);
    vstd::seq_lib::lemma_concat_associative(pre, s1 + s2 + s3, s4);
    vstd::seq_lib::lemma_concat_associative(pre, s1 + s2 + s3 + s4, s5);
    vstd::seq_lib::lemma_concat_associative(pre, s1 + s2 + s3 + s4 + s5, s6);
    let a = pre + s1;
    let b = a + s2;
    let c = b + s3;
    let d = c + s4;
    let e = d + s5;
    vstd::seq_lib::lemma_concat_associative(e, s6, rest);
    vstd::seq_lib::lemma_concat_associative(d, s5, s6 + rest);
    vstd::seq_lib::lemma_concat_associative(c, s4, s5 + (s6 + rest));
    vstd::seq_lib::lemma_concat_associative(b, s3, s4 + (s5 + (s6 + rest)));
    vstd::seq_lib::lemma_concat_associative(a, s2, s3 + (s4 + (s5 + (s6 + rest))));
}

/// Whether a string's bytes fit a length byte.
fn name_fits(s: &String) -> (r: bool)
    ensures
        r == (encode_utf8(s@).len() <= 255),
{
    s.as_str().as_bytes().len() <= 255
}

/// Whether every name of a definition fits a length byte.
fn definition_fits(d: &Definition) -> (r: bool)
    ensures
        r == definition_encodable(d@),
{
    if !name_fits(&d.name) {
        return false;
    }
    let mut i: usize = 0;
    while i < d.param_names.len()
        invariant
            i <= d.param_names@.len(),
            forall|k: int|
                0 <= k < i ==> encode_utf8(#[trigger] d@.param_names[k].name).len() <= 255,
        decreases d.param_names@.len() - i,
    {
        assert(d@.param_names[i as int] == d.param_names@[i as int]@);
        if !name_fits(&d.param_names[i].name) {
            assert(encode_utf8(d@.param_names[i as int].name).len() > 255);
            return false;
        }
        i = i + 1;
    }
    let mut i: usize = 0;
    while i < d.ugens.len()
        invariant
            i <= d.ugens@.len(),
            forall|k: int| 0 <= k < i ==> encode_utf8(#[trigger] d@.ugens[k].name).len() <= 255,
        decreases d.ugens@.len() - i,
    {
        assert(d@.ugens[i as int] == d.ugens@[i as int]@);
        if !name_fits(&d.ugens[i].name) {
            assert(encode_utf8(d@.ugens[i as int].name).len() > 255);
            return false;
        }
        i = i + 1;
    }
    let mut i: usize = 0;
    while i < d.variants.len()
        invariant
            i <= d.variants@.len(),
            forall|k: int| 0 <= k < i ==> encode_utf8(#[trigger] d@.variants[k].name).len() <= 255,
        decreases d.variants@.len() - i,
    {
        assert(d@.variants[i as int] == d.variants@[i as int]@);
        if !name_fits(&d.variants[i].name) {
            assert(encode_utf8(d@.variants[i as int].name).len() > 255);
            return false;
        }
        i = i + 1;
    }
    true
}

fn write_definition(version: Version, buffer: &mut Vec<u8>, value: &Definition)
    requires
        definition_encodable(value@),
    ensures
        final(buffer)@ == old(buffer)@ + enc_definition(version, value@),
{
    let ghost d = value@;
    assert forall|i: int| 0 <= i < value.param_names.len() implies encode_utf8(
        #[trigger] value.param_names@[i].name@,
    ).len() <= 255 by {
        assert(d.param_names[i] == value.param_names@[i]@);
        assert(encode_utf8(d.param_names[i].name).len() <= 255);
    }
    assert forall|i: int| 0 <= i < value.ugens.len() implies encode_utf8(
        #[trigger] value.ugens@[i].name@,
    ).len() <= 255 by {
        assert(d.ugens[i] == value.ugens@[i]@);
        assert(encode_utf8(d.ugens[i].name).len() <= 255);
    }
    assert forall|i: int| 0 <= i < value.variants.len() implies encode_utf8(
        #[trigger] value.variants@[i].name@,
    ).len() <= 255 by {
        assert(d.variants[i] == value.variants@[i]@);
        assert(encode_utf8(d.variants[i].name).len() <= 255);
    }
    write_pstring(buffer, &value.name);
    write_floats(version, buffer, &value.consts);
    write_floats(version, buffer, &value.params);
    write_param_names(version, buffer, &value.param_names);
    write_ugens(version, buffer, &value.ugens);
    write_variants(version, buffer, &value.variants);
    proof {
        reveal(enc_definition);
        lemma_append6(
            old(buffer)@,
            enc_pstring(d.name),
            enc_floats(version, d.consts),
            enc_floats(version, d.params),
            enc_list(version, param_name_enc(version), d.param_names),
            enc_list(version, ugen_enc(version), d.ugens),
            enc_variants(version, d.variants),
            Seq::<u8>::empty(),
        );
    }
}

/// Each parameter name of a list that reads back reads back from its bytes.
proof fn lemma_param_names_items(version: Version, names: Seq<ParamNameModel>)
    requires
        forall|i: int| 0 <= i < names.len() ==> param_name_round_trips(version, #[trigger] names[i]),
    ensures
        forall|x: ParamNameModel, p: Seq<u8>, r: Seq<u8>|
            names.contains(x) ==> #[trigger] param_name_item(version)(
                p + param_name_enc(version)(x) + r,
                p.len() as int,
            ) == Ok::<(ParamNameModel, int), DecodeError>(
                (x, (p.len() + param_name_enc(version)(x).len()) as int),
            ),
{
    assert forall|x: ParamNameModel, p: Seq<u8>, r: Seq<u8>| names.contains(x) implies #[trigger] param_name_item(
        version,
    )(p + param_name_enc(version)(x) + r, p.len() as int) == Ok::<(ParamNameModel, int), DecodeError>(
        (x, (p.len() + param_name_enc(version)(x).len()) as int),
    ) by {
        let i = choose|i: int| 0 <= i < names.len() && names[i] == x;
        assert(param_name_round_trips(version, names[i]));
        lemma_param_name_round_trip(version, x, p, r);
    }
}

/// Each unit generator of a list that reads back reads back from its bytes.
proof fn lemma_ugens_items(version: Version, ugens: Seq<UGenModel>)
    requires
        forall|i: int| 0 <= i < ugens.len() ==> ugen_round_trips(version, #[trigger] ugens[i]),
    ensures
        forall|x: UGenModel, p: Seq<u8>, r: Seq<u8>|
            ugens.contains(x) ==> #[trigger] ugen_item(version)(
                p + ugen_enc(version)(x) + r,
                p.len() as int,
            ) == Ok::<(UGenModel, int), DecodeError>(
                (x, (p.len() + ugen_enc(version)(x).len()) as int),
            ),
{
    assert forall|x: UGenModel, p: Seq<u8>, r: Seq<u8>| ugens.contains(x) implies #[trigger] ugen_item(
        version,
    )(p + ugen_enc(version)(x) + r, p.len() as int) == Ok::<(UGenModel, int), DecodeError>(
        (x, (p.len() + ugen_enc(version)(x).len()) as int),
    ) by {
        let i = choose|i: int| 0 <= i < ugens.len() && ugens[i] == x;
        assert(ugen_round_trips(version, ugens[i]));
        lemma_ugen_round_trip(version, x, p, r);
    }
}

/// The name, constants and parameter defaults of a definition read back.
#[verifier::rlimit(30)]
#[verifier::spinoff_prover]
proof fn lemma_definition_head_round_trip(
    version: Version,
    d: DefinitionModel,
    pre: Seq<u8>,
    rest: Seq<u8>,
)
    requires
        definition_round_trips(version, d),
    ensures
        ({
            let whole = pre + enc_definition(version, d) + rest;
            let n1 = pre.len() as int;
            let n2 = n1 + enc_pstring(d.name).len();
            let n3 = n2 + enc_floats(version, d.consts).len();
            let n4 = n3 + enc_floats(version, d.params).len();
            &&& parse_pstring_at(whole, n1) == Ok::<(Seq<char>, int), DecodeError>((d.name, n2))
            &&& parse_list_at(version, u32_item(), whole, n2) == Ok::<(Seq<u32>, int), DecodeError>(
                (d.consts, n3),
            )
            &&& parse_list_at(version, u32_item(), whole, n3) == Ok::<(Seq<u32>, int), DecodeError>(
                (d.params, n4),
            )
        }),
{
    reveal(enc_definition);
    let s1 = enc_pstring(d.name);
    let s2 = enc_floats(version, d.consts);
    let s3 = enc_floats(version, d.params);
    let s4 = enc_list(version, param_name_enc(version), d.param_names);
    let s5 = enc_list(version, ugen_enc(version), d.ugens);
    let s6 = enc_variants(version, d.variants);
    lemma_append6(pre, s1, s2, s3, s4, s5, s6, rest);
    lemma_pstring_round_trip(d.name, pre, s2 + (s3 + (s4 + (s5 + (s6 + rest)))));
    lemma_u32_items_round_trip(d.consts);
    lemma_u32_items_round_trip(d.params);
    lemma_list_round_trip(version, u32_item(), u32_enc(), d.consts, pre + s1, s3 + (s4 + (s5 + (s6 + rest))));
    lemma_list_round_trip(version, u32_item(), u32_enc(), d.params, pre + s1 + s2, s4 + (s5 + (s6 + rest)));
}

/// The offset of the parameter names in the bytes of a definition, and the
/// lengths of the parts from there on.
pub open spec fn definition_names_at(version: Version, d: DefinitionModel, pre: Seq<u8>) -> int {
    pre.len() as int + enc_pstring(d.name).len() + enc_floats(version, d.consts).len()
        + enc_floats(version, d.params).len()
}

/// The parameter names of a definition read back.
#[verifier::rlimit(30)]
#[verifier::spinoff_prover]
proof fn lemma_definition_names_round_trip(
    version: Version,
    d: DefinitionModel,
    pre: Seq<u8>,
    rest: Seq<u8>,
)
    requires
        definition_round_trips(version, d),
    ensures
        ({
            let whole = pre + enc_definition(version, d) + rest;
            let n4 = definition_names_at(version, d, pre);
            let n5 = n4 + enc_list(version, param_name_enc(version), d.param_names).len();
            parse_list_at(version, param_name_item(version), whole, n4) == Ok::<
                (Seq<ParamNameModel>, int),
                DecodeError,
            >((d.param_names, n5))
        }),
{
    reveal(enc_definition);
    let s1 = enc_pstring(d.name);
    let s2 = enc_floats(version, d.consts);
    let s3 = enc_floats(version, d.params);
    let s4 = enc_list(version, param_name_enc(version), d.param_names);
    let s5 = enc_list(version, ugen_enc(version), d.ugens);
    let s6 = enc_variants(version, d.variants);
    lemma_append6(pre, s1, s2, s3, s4, s5, s6, rest);
    lemma_param_names_items(version, d.param_names);
    lemma_list_round_trip(
        version,
        param_name_item(version),
        param_name_enc(version),
        d.param_names,
        pre + s1 + s2 + s3,
        s5 + (s6 + rest),
    );
}

/// The unit generators of a definition read back.
#[verifier::rlimit(30)]
#[verifier::spinoff_prover]
proof fn lemma_definition_ugens_round_trip(
    version: Version,
    d: DefinitionModel,
    pre: Seq<u8>,
    rest: Seq<u8>,
)
    requires
        definition_round_trips(version, d),
    ensures
        ({
            let whole = pre + enc_definition(version, d) + rest;
            let n5 = definition_names_at(version, d, pre) + enc_list(
                version,
                param_name_enc(version),
                d.param_names,
            ).len();
            let n6 = n5 + enc_list(version, ugen_enc(version), d.ugens).len();
            parse_list_at(version, ugen_item(version), whole, n5) == Ok::<
                (Seq<UGenModel>, int),
                DecodeError,
            >((d.ugens, n6))
        }),
{
    reveal(enc_definition);
    let s1 = enc_pstring(d.name);
    let s2 = enc_floats(version, d.consts);
    let s3 = enc_floats(version, d.params);
    let s4 = enc_list(version, param_name_enc(version), d.param_names);
    let s5 = enc_list(version, ugen_enc(version), d.ugens);
    let s6 = enc_variants(version, d.variants);
    lemma_append6(pre, s1, s2, s3, s4, s5, s6, rest);
    lemma_ugens_items(version, d.ugens);
    lemma_list_round_trip(
        version,
        ugen_item(version),
        ugen_enc(version),
        d.ugens,
        pre + s1 + s2 + s3 + s4,
        s6 + rest,
    );
}

/// The (absent) variants of a definition read back, and end its bytes.
#[verifier::rlimit(30)]
#[verifier::spinoff_prover]
proof fn lemma_definition_variants_round_trip(
    version: Version,
    d: DefinitionModel,
    pre: Seq<u8>,
    rest: Seq<u8>,
)
    requires
        definition_round_trips(version, d),
    ensures
        ({
            let whole = pre + enc_definition(version, d) + rest;
            let n6 = definition_names_at(version, d, pre) + enc_list(
                version,
                param_name_enc(version),
                d.param_names,
            ).len() + enc_list(version, ugen_enc(version), d.ugens).len();
            &&& parse_variants_at(d.params.len(), whole, n6) == Ok::<
                (Seq<VariantModel>, int),
                DecodeError,
            >((d.variants, n6 + 2))
            &&& n6 + 2 == pre.len() + enc_definition(version, d).len()
        }),
{
    reveal(enc_definition);
    let s1 = enc_pstring(d.name);
    let s2 = enc_floats(version, d.consts);
    let s3 = enc_floats(version, d.params);
    let s4 = enc_list(version, param_name_enc(version), d.param_names);
    let s5 = enc_list(version, ugen_enc(version), d.ugens);
    let s6 = enc_variants(version, d.variants);
    lemma_append6(pre, s1, s2, s3, s4, s5, s6, rest);
    assert(d.variants == Seq::<VariantModel>::empty());
    lemma_no_variants_round_trip(version, d.params.len(), pre + s1 + s2 + s3 + s4 + s5, rest);
}

/// A definition that can be written, whose counts, indices and unit
/// generators fit the version and which has no variants reads back from its
/// bytes.
pub proof fn lemma_definition_round_trip(
    version: Version,
    d: DefinitionModel,
    pre: Seq<u8>,
    rest: Seq<u8>,
)
    requires
        definition_round_trips(version, d),
    ensures
        parse_definition_at(version, pre + enc_definition(version, d) + rest, pre.len() as int)
            == Ok::<(DefinitionModel, int), DecodeError>(
            (d, (pre.len() + enc_definition(version, d).len()) as int),
        ),
{
    reveal(parse_definition_at);
    lemma_definition_head_round_trip(version, d, pre, rest);
    lemma_definition_names_round_trip(version, d, pre, rest);
    lemma_definition_ugens_round_trip(version, d, pre, rest);
    lemma_definition_variants_round_trip(version, d, pre, rest);
}

// ---------------------------------------------------------------------------
// Synth definition files.
// ---------------------------------------------------------------------------

/// The identifier at the start of a synth definition file: the bytes `SCgf`.
pub const ID: i32 = 0x5343_6766;

/// A synth definition file: its format version and its definitions.
#[derive(Clone, Debug, PartialEq, Eq)]
pub struct Container {
    pub version: Version,
    pub defs: Vec<Definition>,
}

pub struct ContainerModel {
    pub version: Version,
    pub defs: Seq<DefinitionModel>,
}

impl View for Container {
    type V = ContainerModel;

    open spec fn view(&self) -> ContainerModel {
        ContainerModel { version: self.version, defs: self.defs@.map_values(|x: Definition| x@) }
    }
}

/// Reads a version number: 1 or 2, any other number is refused.
pub open spec fn parse_version_at(bytes: Seq<u8>, pos: int) -> Result<(Version, int), DecodeError> {
    match parse_i32_at(bytes, pos) {
        Err(e) => Err(e),
        Ok((v, p)) => if v == 1 {
            Ok((Version::V1, p))
        } else if v == 2 {
            Ok((Version::V2, p))
        } else {
            Err(DecodeError::InvalidValue("invalid version"))
        },
    }
}

/// The bytes of a file: the identifier, the version, a 16-bit count of the
/// definitions and the definitions.
pub open spec fn enc_container(c: ContainerModel) -> Seq<u8> {
    i32_bytes(ID) + i32_bytes(c.version.spec_code()) + i16_bytes(c.defs.len() as i16) + concat_many(
        definition_enc(c.version),
        c.defs,
    )
}

/// Reads a file from its first byte on; on success gives the file and the
/// number of bytes it took.
pub open spec fn parse_container(bytes: Seq<u8>) -> Result<(ContainerModel, int), DecodeError> {
    match parse_i32_at(bytes, 0) {
        Err(e) => Err(e),
        Ok((id, p1)) => if id != ID {
            Err(DecodeError::InvalidValue("invalid container ID"))
        } else {
            match parse_version_at(bytes, p1) {
                Err(e) => Err(e),
                Ok((version, p2)) => match parse_i16_at(bytes, p2) {
                    Err(e) => Err(e),
                    Ok((n, p3)) => match parse_many(
                        definition_item(version),
                        bytes,
                        p3,
                        count(n as i32),
                    ) {
                        Err(e) => Err(e),
                        Ok((defs, p4)) => Ok((ContainerModel { version, defs }, p4)),
                    },
                },
            }
        },
    }
}

/// Whether every name in every definition fits in 255 bytes.
pub open spec fn container_encodable(c: ContainerModel) -> bool {
    forall|i: int| 0 <= i < c.defs.len() ==> definition_encodable(#[trigger] c.defs[i])
}

/// Whether a file reads back from its bytes: it has at most `i16::MAX`
/// definitions and each reads back in the file's version.
pub open spec fn container_round_trips(c: ContainerModel) -> bool {
    &&& c.defs.len() <= i16::MAX
    &&& forall|i: int| 0 <= i < c.defs.len() ==> definition_round_trips(c.version, #[trigger] c.defs[i])
}

fn read_version(bytes: &[u8], pos: usize) -> (r: Result<(Version, usize), DecodeError>)
    ensures
        match r {
            Ok((v, p)) => parse_version_at(bytes@, pos as int) == Ok::<(Version, int), DecodeError>(
                (v, p as int),
            ),
            Err(e) => parse_version_at(bytes@, pos as int) == Err::<(Version, int), DecodeError>(e),
        },
{
    let (v, p) = read_i32(bytes, pos)?;
    if v == 1 {
        Ok((Version::V1, p))
    } else if v == 2 {
        Ok((Version::V2, p))
    } else {
        Err(DecodeError::InvalidValue("invalid version"))
    }
}

fn read_definitions(version: Version, bytes: &[u8], pos: usize, n: i16) -> (r: Result<
    (Vec<Definition>, usize),
    DecodeError,
>)
    ensures
        match r {
            Ok((v, p)) => parse_many(definition_item(version), bytes@, pos as int, count(n as i32))
                == Ok::<(Seq<DefinitionModel>, int), DecodeError>(
                (v@.map_values(|x: Definition| x@), p as int),
            ),
            Err(e) => parse_many(definition_item(version), bytes@, pos as int, count(n as i32))
                == Err::<(Seq<DefinitionModel>, int), DecodeError>(e),
        },
{
    let mut out: Vec<Definition> = Vec::new();
    let mut p = pos;
    let mut i: i16 = 0;
    assert(out@.map_values(|x: Definition| x@) == Seq::<DefinitionModel>::empty());
    while i < n
        invariant
            0 <= i,
            i <= count(n as i32),
            parse_many(definition_item(version), bytes@, pos as int, i as nat) == Ok::<
                (Seq<DefinitionModel>, int),
                DecodeError,
            >((out@.map_values(|x: Definition| x@), p as int)),
        decreases n - i,
    {
        match read_definition(version, bytes, p) {
            Err(e) => {
                proof {
                    lemma_many_err(
                        definition_item(version),
                        bytes@,
                        pos as int,
                        (i + 1) as nat,
                        count(n as i32),
                    );
                }
                return Err(e);
            },
            Ok((x, p2)) => {
                let ghost before = out@;
                out.push(x);
                assert(out@.map_values(|x: Definition| x@) == before.map_values(
                    |x: Definition| x@,
                ).push(x@));
                p = p2;
            },
        }
        i = i + 1;
    }
    Ok((out, p))
}

impl Container {
    /// Reads a synth definition file from the start of `bytes`; on success
    /// gives the file and the number of bytes it took.
    pub fn decode(bytes: &[u8]) -> (r: Result<(Container, usize), DecodeError>)
        ensures
            match r {
                Ok((c, n)) => parse_container(bytes@) == Ok::<(ContainerModel, int), DecodeError>(
                    (c@, n as int),
                ),
                Err(e) => parse_container(bytes@) == Err::<(ContainerModel, int), DecodeError>(e),
            },
    {
        let (id, p) = read_i32(bytes, 0)?;
        if id != ID {
            return Err(DecodeError::InvalidValue("invalid container ID"));
        }
        let (version, p) = read_version(bytes, p)?;
        let (n, p) = read_i16(bytes, p)?;
        let (defs, p) = read_definitions(version, bytes, p, n)?;
        Ok((Container { version, defs }, p))
    }

    /// The bytes of this synth definition file; an error where a name is
    /// longer than 255 bytes.
    pub fn encode(&self) -> (r: Result<Vec<u8>, EncodeError>)
        ensures
            match r {
                Ok(bytes) => container_encodable(self@) && bytes@ == enc_container(self@),
                Err(e) => !container_encodable(self@) && e == EncodeError::InvalidValue(
                    "string exceeds maximum limit",
                ),
            },
    {
        let mut i: usize = 0;
        while i < self.defs.len()
            invariant
                i <= self.defs@.len(),
                forall|k: int| 0 <= k < i ==> definition_encodable(#[trigger] self@.defs[k]),
            decreases self.defs@.len() - i,
        {
            assert(self@.defs[i as int] == self.defs@[i as int]@);
            if !definition_fits(&self.defs[i]) {
                return Err(EncodeError::InvalidValue("string exceeds maximum limit"));
            }
            i = i + 1;
        }
        Ok(self.to_bytes())
    }

    /// The bytes of this synth definition file, whose names all fit.
    pub(crate) fn to_bytes(&self) -> (r: Vec<u8>)
        requires
            container_encodable(self@),
        ensures
            r@ == enc_container(self@),
    {
        let ghost c = self@;
        let mut buffer: Vec<u8> = Vec::new();
        push_i32(&mut buffer, ID);
        push_i32(&mut buffer, self.version.as_i32());
        push_i16(&mut buffer, self.defs.len() as i16);
        let ghost start = buffer@;
        let mut i: usize = 0;
        while i < self.defs.len()
            invariant
                i <= self.defs@.len(),
                c == self@,
                container_encodable(c),
                buffer@ == start + concat_many(definition_enc(c.version), c.defs.take(i as int)),
            decreases self.defs@.len() - i,
        {
            assert(c.defs[i as int] == self.defs@[i as int]@);
            assert(definition_encodable(c.defs[i as int]));
            write_definition(self.version, &mut buffer, &self.defs[i]);
            assert(c.defs.take(i + 1).drop_last() == c.defs.take(i as int));
            i = i + 1;
        }
        assert(c.defs.take(c.defs.len() as int) == c.defs);
        assert(buffer@ == enc_container(c));
        buffer
    }
}

/// Each definition of a list that reads back reads back from its bytes.
proof fn lemma_definitions_items(version: Version, defs: Seq<DefinitionModel>)
    requires
        forall|i: int| 0 <= i < defs.len() ==> definition_round_trips(version, #[trigger] defs[i]),
    ensures
        forall|x: DefinitionModel, p: Seq<u8>, r: Seq<u8>|
            defs.contains(x) ==> #[trigger] definition_item(version)(
                p + definition_enc(version)(x) + r,
                p.len() as int,
            ) == Ok::<(DefinitionModel, int), DecodeError>(
                (x, (p.len() + definition_enc(version)(x).len()) as int),
            ),
{
    assert forall|x: DefinitionModel, p: Seq<u8>, r: Seq<u8>| defs.contains(x) implies #[trigger] definition_item(
        version,
    )(p + definition_enc(version)(x) + r, p.len() as int) == Ok::<(DefinitionModel, int), DecodeError>(
        (x, (p.len() + definition_enc(version)(x).len()) as int),
    ) by {
        let i = choose|i: int| 0 <= i < defs.len() && defs[i] == x;
        assert(definition_round_trips(version, defs[i]));
        lemma_definition_round_trip(version, x, p, r);
    }
}

/// A synth definition file with at most `i16::MAX` definitions, each of
/// which reads back in the file's version, reads back from its bytes: the
/// same file, taking all of the bytes.
pub proof fn lemma_container_round_trip(c: ContainerModel)
    requires
        container_round_trips(c),
    ensures
        parse_container(enc_container(c)) == Ok::<(ContainerModel, int), DecodeError>(
            (c, enc_container(c).len() as int),
        ),
{
    let s1 = i32_bytes(ID);
    let s2 = i32_bytes(c.version.spec_code());
    let s3 = i16_bytes(c.defs.len() as i16);
    let s4 = concat_many(definition_enc(c.version), c.defs);
    let e = Seq::<u8>::empty();
    let bytes = enc_container(c);
    vstd::seq_lib::lemma_concat_associative(s1 + s2, s3, s4);
    vstd::seq_lib::lemma_concat_associative(s1, s2, s3 + s4);
    assert(e + s1 + (s2 + (s3 + s4)) == bytes);
    assert(s1 + s2 + (s3 + s4) == bytes);
    assert(s1 + s2 + s3 + s4 == bytes);
    assert(s1 + s2 + s3 + s4 + e == bytes);
    lemma_int_round_trip(Version::V2, ID, e, s2 + (s3 + s4));
    lemma_int_round_trip(Version::V2, c.version.spec_code(), s1, s3 + s4);
    lemma_i16_bytes_round_trip(c.defs.len() as i16);
    let n3 = (s1 + s2).len() as int;
    assert(bytes[n3] == s3[0] && bytes[n3 + 1] == s3[1]);
    lemma_definitions_items(c.version, c.defs);
    lemma_many_round_trip(definition_item(c.version), definition_enc(c.version), c.defs, s1 + s2 + s3, e);
    assert(count((c.defs.len() as i16) as i32) == c.defs.len());
}

impl Definition {
    /// Reads a definition in version 2 of the format from the start of
    /// `bytes`; on success gives it and the number of bytes it took.
    pub fn decode(bytes: &[u8]) -> (r: Result<(Definition, usize), DecodeError>)
        ensures
            match r {
                Ok((d, n)) => parse_definition_at(Version::V2, bytes@, 0) == Ok::<
                    (DefinitionModel, int),
                    DecodeError,
                >((d@, n as int)),
                Err(e) => parse_definition_at(Version::V2, bytes@, 0) == Err::<
                    (DefinitionModel, int),
                    DecodeError,
                >(e),
            },
    {
        read_definition(Version::V2, bytes, 0)
    }

    /// The bytes of this definition in the given version of the format; an
    /// error where a name is longer than 255 bytes.
    pub fn encode(&self, version: Version) -> (r: Result<Vec<u8>, EncodeError>)
        ensures
            match r {
                Ok(bytes) => definition_encodable(self@) && bytes@ == enc_definition(version, self@),
                Err(e) => !definition_encodable(self@) && e == EncodeError::InvalidValue(
                    "string exceeds maximum limit",
                ),
            },
    {
        if !definition_fits(self) {
            return Err(EncodeError::InvalidValue("string exceeds maximum limit"));
        }
        let mut buffer: Vec<u8> = Vec::new();
        write_definition(version, &mut buffer, self);
        assert(Seq::<u8>::empty() + enc_definition(version, self@) == enc_definition(version, self@));
        Ok(buffer)
    }
}

impl UGen {
    /// Reads a unit generator in version 2 of the format from the start of
    /// `bytes`; on success gives it and the number of bytes it took.
    pub fn decode(bytes: &[u8]) -> (r: Result<(UGen, usize), DecodeError>)
        ensures
            match r {
                Ok((u, n)) => parse_ugen_at(Version::V2, bytes@, 0) == Ok::<
                    (UGenModel, int),
                    DecodeError,
                >((u@, n as int)),
                Err(e) => parse_ugen_at(Version::V2, bytes@, 0) == Err::<(UGenModel, int), DecodeError>(
                    e,
                ),
            },
    {
        read_ugen(Version::V2, bytes, 0)
    }
}

impl ParamName {
    /// Reads a parameter name in version 2 of the format from the start of
    /// `bytes`; on success gives it and the number of bytes it took.
    pub fn decode(bytes: &[u8]) -> (r: Result<(ParamName, usize), DecodeError>)
        ensures
            match r {
                Ok((v, n)) => parse_param_name_at(Version::V2, bytes@, 0) == Ok::<
                    (ParamNameModel, int),
                    DecodeError,
                >((v@, n as int)),
                Err(e) => parse_param_name_at(Version::V2, bytes@, 0) == Err::<
                    (ParamNameModel, int),
                    DecodeError,
                >(e),
            },
    {
        read_param_name(Version::V2, bytes, 0)
    }
}

impl Input {
    /// Reads an input in version 2 of the format from the start of `bytes`;
    /// on success gives it and the number of bytes it took.
    pub fn decode(bytes: &[u8]) -> (r: Result<(Input, usize), DecodeError>)
        ensures
            match r {
                Ok((v, n)) => parse_input_at(Version::V2, bytes@, 0) == Ok::<(Input, int), DecodeError>(
                    (v, n as int),
                ),
                Err(e) => parse_input_at(Version::V2, bytes@, 0) == Err::<(Input, int), DecodeError>(e),
            },
    {
        read_input(Version::V2, bytes, 0)
    }
}

impl Version {
    /// Reads a version number from the start of `bytes`: 1 or 2, any other
    /// number is refused.
    pub fn decode(bytes: &[u8]) -> (r: Result<(Version, usize), DecodeError>)
        ensures
            match r {
                Ok((v, n)) => parse_version_at(bytes@, 0) == Ok::<(Version, int), DecodeError>(
                    (v, n as int),
                ),
                Err(e) => parse_version_at(bytes@, 0) == Err::<(Version, int), DecodeError>(e),
            },
    {
        read_version(bytes, 0)
    }
}

impl CalculationRate {
    /// Reads a rate from the start of `bytes`: 0, 1 or 2; `Demand` and any
    /// other number are refused.
    pub fn decode(bytes: &[u8]) -> (r: Result<(CalculationRate, usize), DecodeError>)
        ensures
            match r {
                Ok((v, n)) => parse_rate_at(bytes@, 0) == Ok::<(CalculationRate, int), DecodeError>(
                    (v, n as int),
                ),
                Err(e) => parse_rate_at(bytes@, 0) == Err::<(CalculationRate, int), DecodeError>(e),
            },
    {
        read_rate(bytes, 0)
    }

    /// The byte of this rate.
    pub fn encode(self) -> (r: Vec<u8>)
        ensures
            r@ == enc_rate(self),
    {
        let mut buffer: Vec<u8> = Vec::new();
        write_rate(&mut buffer, self);
        assert(Seq::<u8>::empty() + enc_rate(self) == enc_rate(self));
        buffer
    }
}

} // verus!
