//! The score of a track: the synth definitions it loads, the buffers it
//! reads and its timed events, each as a bundle preceded by its length.
use crate::osc::bundle::{tag_bytes, TAG};
use crate::osc::types::{be32, push_be32, Timetag, TypeEncoder};
use crate::sc::osc::buffer::AllocRead;
use vstd::prelude::*;

verus! {

/// A message with its length in front.
pub open spec fn record_bytes(encoding: Seq<u8>) -> Seq<u8> {
    be32(encoding.len() as u32) + encoding
}

/// One entry of a score: the length of the bundle, the bundle tag, the time
/// tag and the record.
pub open spec fn entry_bytes(timetag: Seq<u8>, record: Seq<u8>) -> Seq<u8> {
    be32((16 + record.len()) as u32) + tag_bytes() + timetag + record
}

/// The time tag of time zero.
pub open spec fn zero_time() -> Seq<u8> {
    Seq::new(8, |i: int| 0u8)
}

/// The entries of the synth definitions, all at time zero.
pub open spec fn synth_entries(synths: Seq<Vec<u8>>) -> Seq<u8>
    decreases synths.len(),
{
    if synths.len() == 0 {
        Seq::empty()
    } else {
        synth_entries(synths.drop_last()) + entry_bytes(zero_time(), synths.last()@)
    }
}

/// The entries that read the buffers, all at time zero.
pub open spec fn buffer_entries<'a>(buffers: Seq<AllocRead<'a>>) -> Seq<u8>
    decreases buffers.len(),
{
    if buffers.len() == 0 {
        Seq::empty()
    } else {
        buffer_entries(buffers.drop_last()) + entry_bytes(
            zero_time(),
            record_bytes(buffers.last().spec_encoding()),
        )
    }
}

/// The entries of the events, each at the time its id begins with.
pub open spec fn event_entries(events: Seq<([u8; 12], Vec<u8>)>) -> Seq<u8>
    decreases events.len(),
{
    if events.len() == 0 {
        Seq::empty()
    } else {
        event_entries(events.drop_last()) + entry_bytes(
            events.last().0@.take(8),
            events.last().1@,
        )
    }
}

/// The id of an event: the time tag of when it happens, then a counter that
/// keeps events of one time in the order they were made.
pub fn event_id(now: Timetag, counter: u32) -> (r: [u8; 12])
    ensures
        r@ == now.spec_bytes() + be32(counter),
{
    let t = now.as_ref();
    proof {
        now.lemma_len();
    }
    let id: [u8; 12] = [
        t[0],
        t[1],
        t[2],
        t[3],
        t[4],
        t[5],
        t[6],
        t[7],
        (counter / 0x100_0000) as u8,
        ((counter / 0x1_0000) % 0x100) as u8,
        ((counter / 0x100) % 0x100) as u8,
        (counter % 0x100) as u8,
    ];
    assert(id@ == now.spec_bytes() + be32(counter));
    id
}

/// A message with its length in front, as a score stores it.
pub fn record<T: TypeEncoder>(event: &T) -> (r: Vec<u8>)
    requires
        event.spec_encodable(),
    ensures
        r@ == record_bytes(event.spec_encoding()),
{
    let mut encoded: Vec<u8> = Vec::new();
    event.encode_type(&mut encoded);
    let mut out: Vec<u8> = Vec::new();
    push_be32(&mut out, encoded.len() as u32);
    append(&mut out, &encoded);
    out
}

fn append(out: &mut Vec<u8>, bytes: &[u8])
    ensures
        final(out)@ == old(out)@ + bytes@,
{
    let mut i: usize = 0;
    while i < bytes.len()
        invariant
            i <= bytes@.len(),
            out@ == old(out)@ + bytes@.take(i as int),
        decreases bytes@.len() - i,
    {
        out.push(bytes[i]);
        assert(bytes@.take(i + 1) == bytes@.take(i as int).push(bytes@[i as int]));
        i = i + 1;
    }
    assert(bytes@.take(bytes@.len() as int) == bytes@);
}

/// Writes one entry of a score; gives the number of bytes written.
pub fn write_entry(out: &mut Vec<u8>, timetag: &[u8], record: &[u8]) -> (r: usize)
    requires
        timetag@.len() == 8,
        old(out)@.len() + 20 + record@.len() <= usize::MAX,
    ensures
        final(out)@ == old(out)@ + entry_bytes(timetag@, record@),
        r == entry_bytes(timetag@, record@).len(),
{
    push_be32(out, (16 + record.len()) as u32);
    append(out, &TAG);
    assert(TAG@ == tag_bytes());
    append(out, timetag);
    append(out, record);
    assert(final(out)@ == old(out)@ + entry_bytes(timetag@, record@));
    4 + 8 + 8 + record.len()
}

fn write_synth_entries(out: &mut Vec<u8>, synths: &Vec<Vec<u8>>) -> (r: usize)
    requires
        old(out)@.len() + synth_entries(synths@).len() <= usize::MAX,
    ensures
        final(out)@ == old(out)@ + synth_entries(synths@),
        r == synth_entries(synths@).len(),
{
    let zero: [u8; 8] = [0; 8];
    assert(zero@ == zero_time());
    let mut len: usize = 0;
    let mut i: usize = 0;
    while i < synths.len()
        invariant
            i <= synths@.len(),
            zero@ == zero_time(),
            out@ == old(out)@ + synth_entries(synths@.take(i as int)),
            len == synth_entries(synths@.take(i as int)).len(),
            old(out)@.len() + synth_entries(synths@).len() <= usize::MAX,
        decreases synths@.len() - i,
    {
        proof {
            lemma_synth_entries_prefix(synths@, (i + 1) as int);
            assert(synths@.take(i + 1).drop_last() == synths@.take(i as int));
        }
        let n = write_entry(out, &zero, synths[i].as_slice());
        len = len + n;
        i = i + 1;
    }
    assert(synths@.take(synths@.len() as int) == synths@);
    len
}

fn write_buffer_entries<'a>(out: &mut Vec<u8>, buffers: &Vec<AllocRead<'a>>) -> (r: usize)
    requires
        forall|i: int| 0 <= i < buffers@.len() ==> (#[trigger] buffers@[i]).spec_encodable(),
        old(out)@.len() + buffer_entries(buffers@).len() <= usize::MAX,
    ensures
        final(out)@ == old(out)@ + buffer_entries(buffers@),
        r == buffer_entries(buffers@).len(),
{
    let zero: [u8; 8] = [0; 8];
    assert(zero@ == zero_time());
    let mut len: usize = 0;
    let mut j: usize = 0;
    while j < buffers.len()
        invariant
            j <= buffers@.len(),
            zero@ == zero_time(),
            forall|k: int| 0 <= k < buffers@.len() ==> (#[trigger] buffers@[k]).spec_encodable(),
            out@ == old(out)@ + buffer_entries(buffers@.take(j as int)),
            len == buffer_entries(buffers@.take(j as int)).len(),
            old(out)@.len() + buffer_entries(buffers@).len() <= usize::MAX,
        decreases buffers@.len() - j,
    {
        proof {
            lemma_buffer_entries_prefix(buffers@, (j + 1) as int);
            assert(buffers@.take(j + 1).drop_last() == buffers@.take(j as int));
        }
        let rec = record(&buffers[j]);
        let n = write_entry(out, &zero, rec.as_slice());
        len = len + n;
        j = j + 1;
    }
    assert(buffers@.take(buffers@.len() as int) == buffers@);
    len
}

fn write_event_entries(out: &mut Vec<u8>, events: &Vec<([u8; 12], Vec<u8>)>) -> (r: usize)
    requires
        old(out)@.len() + event_entries(events@).len() <= usize::MAX,
    ensures
        final(out)@ == old(out)@ + event_entries(events@),
        r == event_entries(events@).len(),
{
    let mut len: usize = 0;
    let mut k: usize = 0;
    while k < events.len()
        invariant
            k <= events@.len(),
            out@ == old(out)@ + event_entries(events@.take(k as int)),
            len == event_entries(events@.take(k as int)).len(),
            old(out)@.len() + event_entries(events@).len() <= usize::MAX,
        decreases events@.len() - k,
    {
        proof {
            lemma_event_entries_prefix(events@, (k + 1) as int);
            assert(events@.take(k + 1).drop_last() == events@.take(k as int));
        }
        let (id, value) = &events[k];
        let time = &id[0..8];
        assert(time@ == id@.take(8));
        let n = write_entry(out, time, value.as_slice());
        len = len + n;
        k = k + 1;
    }
    assert(events@.take(events@.len() as int) == events@);
    len
}

/// Writes the score of a track: its synth definitions, the commands that
/// read its buffers and its events; gives the number of bytes written.
pub fn write_score<'a>(
    out: &mut Vec<u8>,
    synths: &Vec<Vec<u8>>,
    buffers: &Vec<AllocRead<'a>>,
    events: &Vec<([u8; 12], Vec<u8>)>,
) -> (r: usize)
    requires
        forall|i: int| 0 <= i < buffers@.len() ==> (#[trigger] buffers@[i]).spec_encodable(),
        old(out)@.len() + synth_entries(synths@).len() + buffer_entries(buffers@).len()
            + event_entries(events@).len() <= usize::MAX,
    ensures
        final(out)@ == old(out)@ + synth_entries(synths@) + buffer_entries(buffers@) + event_entries(
            events@,
        ),
        r == synth_entries(synths@).len() + buffer_entries(buffers@).len() + event_entries(
            events@,
        ).len(),
{
    let a = write_synth_entries(out, synths);
    let b = write_buffer_entries(out, buffers);
    let c = write_event_entries(out, events);
    a + b + c
}

/// The entries of a prefix of the synth definitions are no longer than all
/// of them.
proof fn lemma_synth_entries_prefix(synths: Seq<Vec<u8>>, n: int)
    requires
        0 <= n <= synths.len(),
    ensures
        synth_entries(synths.take(n)).len() <= synth_entries(synths).len(),
    decreases synths.len(),
{
    if n < synths.len() {
        lemma_synth_entries_prefix(synths.drop_last(), n);
        assert(synths.drop_last().take(n) == synths.take(n));
    } else {
        assert(synths.take(n) == synths);
    }
}

proof fn lemma_buffer_entries_prefix<'a>(buffers: Seq<AllocRead<'a>>, n: int)
    requires
        0 <= n <= buffers.len(),
    ensures
        buffer_entries(buffers.take(n)).len() <= buffer_entries(buffers).len(),
    decreases buffers.len(),
{
    if n < buffers.len() {
        lemma_buffer_entries_prefix(buffers.drop_last(), n);
        assert(buffers.drop_last().take(n) == buffers.take(n));
    } else {
        assert(buffers.take(n) == buffers);
    }
}

proof fn lemma_event_entries_prefix(events: Seq<([u8; 12], Vec<u8>)>, n: int)
    requires
        0 <= n <= events.len(),
    ensures
        event_entries(events.take(n)).len() <= event_entries(events).len(),
    decreases events.len(),
{
    if n < events.len() {
        lemma_event_entries_prefix(events.drop_last(), n);
        assert(events.drop_last().take(n) == events.take(n));
    } else {
        assert(events.take(n) == events);
    }
}

} // verus!
