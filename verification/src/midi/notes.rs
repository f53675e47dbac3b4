use vstd::prelude::*;

verus! {

/// A MIDI note number, below 128.
#[derive(Clone, Copy, Debug, PartialEq, Eq, PartialOrd, Ord)]
pub struct Note(u8);

impl Note {
    #[verifier::type_invariant]
    closed spec fn in_range(self) -> bool {
        self.0 < 128
    }

    /// The note number.
    pub closed spec fn value(self) -> u8 {
        self.0
    }

    /// The note with number `value`, whatever `value` is.
    pub closed spec fn spec_from_value(value: u8) -> Note {
        Note(value)
    }

    /// A note is determined by its number.
    pub proof fn lemma_from_value(value: u8, n: Note)
        ensures
            #[trigger] Note::spec_from_value(value).value() == value,
            n.value() == value ==> n == Note::spec_from_value(value),
    {
    }

    /// The slot of this note in the table of counts.
    pub open spec fn index(self) -> int {
        (self.value() % 128) as int
    }

    /// The note `amount` semitones away, where that is still a note.
    pub open spec fn spec_transpose(self, amount: i8) -> Option<Note> {
        let target = self.value() + amount;
        if amount > 0 {
            if target < 128 {
                Some(Note::spec_from_value(target as u8))
            } else {
                None
            }
        } else {
            if target >= 0 {
                Some(Note::spec_from_value(target as u8))
            } else {
                None
            }
        }
    }

    #[inline]
    pub fn new(value: u8) -> (r: Option<Note>)
        ensures
            r is Some <==> value < 128,
            r matches Some(n) ==> n.value() == value,
    {
        if value < 128 {
            Some(Self(value))
        } else {
            None
        }
    }

    /// The note `amount` semitones away; `None` where it would leave the range
    /// of notes.
    #[inline]
    pub fn transpose(&self, amount: i8) -> (r: Option<Note>)
        requires
            amount != i8::MIN,
        ensures
            r == self.spec_transpose(amount),
    {
        proof {
            use_type_invariant(self);
        }
        if amount > 0 {
            Self::new(self.0 + amount as u8)
        } else {
            let v = self.0.checked_sub((-amount) as u8)?;
            Some(Self(v))
        }
    }

    /// The note number.
    pub fn get(&self) -> (r: u8)
        ensures
            r == self.value(),
            r < 128,
    {
        proof {
            use_type_invariant(self);
        }
        self.0
    }
}

impl core::ops::Deref for Note {
    type Target = u8;

    #[inline]
    fn deref(&self) -> (r: &u8)
        ensures
            *r == self.value(),
    {
        &self.0
    }
}

/// A note starting or stopping.
#[derive(Clone, Copy, Debug, PartialEq, Eq, PartialOrd, Ord)]
pub enum Event {
    On { note: Note },
    Off { note: Note },
}

/// How many of the counts are nonzero.
pub open spec fn active_count(counts: Seq<u8>) -> nat
    decreases counts.len(),
{
    if counts.len() == 0 {
        0
    } else {
        active_count(counts.drop_last()) + if counts.last() != 0 {
            1nat
        } else {
            0nat
        }
    }
}

/// The table of counts with no note sounding.
pub open spec fn silent_counts() -> Seq<u8> {
    Seq::new(128, |i: int| 0u8)
}

/// The nonzero counts from slot `idx` on, as (note, count) pairs in note
/// order, stopping once `len` of them have been given.
pub open spec fn entries_from(counts: Seq<u8>, idx: int, len: nat) -> Seq<(Note, u8)>
    decreases 128 - idx,
{
    if len == 0 || idx >= 128 || idx < 0 {
        seq![]
    } else if counts[idx] == 0 {
        entries_from(counts, idx + 1, len)
    } else {
        seq![(Note::spec_from_value(idx as u8), counts[idx])] + entries_from(
            counts,
            idx + 1,
            (len - 1) as nat,
        )
    }
}

/// The number of nonzero counts at `idx` and after it.
pub open spec fn active_from(counts: Seq<u8>, idx: int) -> nat
    decreases 128 - idx,
{
    if idx >= 128 || idx < 0 {
        0
    } else {
        active_from(counts, idx + 1) + if counts[idx] != 0 {
            1nat
        } else {
            0nat
        }
    }
}

/// As many entries come as are recorded, where no more are recorded than
/// there are nonzero counts left.
pub proof fn lemma_entries_from_len(counts: Seq<u8>, idx: int, len: nat)
    requires
        0 <= idx,
        len <= active_from(counts, idx),
    ensures
        entries_from(counts, idx, len).len() == len,
    decreases 128 - idx,
{
    if len == 0 || idx >= 128 {
    } else if counts[idx] == 0 {
        lemma_entries_from_len(counts, idx + 1, len);
    } else {
        lemma_entries_from_len(counts, idx + 1, (len - 1) as nat);
    }
}

/// The nonzero counts before `n` and from `n` on make up all of them.
pub proof fn lemma_active_split(counts: Seq<u8>, n: int)
    requires
        counts.len() == 128,
        0 <= n <= 128,
    ensures
        active_count(counts.take(n)) + active_from(counts, n) == active_count(counts),
    decreases 128 - n,
{
    if n == 128 {
        assert(counts.take(128) =~= counts);
    } else {
        lemma_active_split(counts, n + 1);
        assert(counts.take(n + 1).drop_last() =~= counts.take(n));
        assert(counts.take(n + 1).last() == counts[n]);
    }
}

/// The state of a set of notes as counts and a length.
pub struct NotesModel {
    pub counts: Seq<u8>,
    pub len: int,
}

/// Adding `count` to the count of `note`, saturating at 255; a note that
/// starts sounding adds one to the length.
pub open spec fn extend_step(m: NotesModel, entry: (Note, u8)) -> NotesModel {
    let prev = m.counts[entry.0.index()];
    let sum = prev + entry.1;
    NotesModel {
        counts: m.counts.update(entry.0.index(), if sum > 255 { 255u8 } else { sum as u8 }),
        len: if prev == 0 && entry.1 > 0 { m.len + 1 } else { m.len },
    }
}

/// The state after adding each entry in turn.
pub open spec fn extend_all(m: NotesModel, entries: Seq<(Note, u8)>) -> NotesModel
    decreases entries.len(),
{
    if entries.len() == 0 {
        m
    } else {
        extend_step(extend_all(m, entries.drop_last()), entries.last())
    }
}

/// The entries whose note `f` mapped to a note, each under its new note.
pub open spec fn mapped_entries(entries: Seq<(Note, u8)>, outs: Seq<Option<Note>>) -> Seq<
    (Note, u8),
>
    decreases entries.len(),
{
    if entries.len() == 0 {
        seq![]
    } else {
        let prefix = mapped_entries(entries.drop_last(), outs.take(entries.len() - 1));
        match outs[entries.len() - 1] {
            Some(n) => prefix.push((n, entries.last().1)),
            None => prefix,
        }
    }
}

/// The entries under their notes transposed by `amount`, leaving out those
/// that fall outside the range of notes.
pub open spec fn transposed_entries(entries: Seq<(Note, u8)>, amount: i8) -> Seq<(Note, u8)> {
    mapped_entries(entries, Seq::new(entries.len(), |k: int| entries[k].0.spec_transpose(amount)))
}

/// The event, if any, that moves slot `i` from the `prev` counts to the `next` ones.
pub open spec fn diff_event(prev: Seq<u8>, next: Seq<u8>, i: int) -> Seq<Event> {
    if prev[i] == 0 && next[i] != 0 {
        seq![Event::On { note: Note::spec_from_value(i as u8) }]
    } else if prev[i] != 0 && next[i] == 0 {
        seq![Event::Off { note: Note::spec_from_value(i as u8) }]
    } else {
        seq![]
    }
}

/// The events over the first `n` slots, in note order.
pub open spec fn diff_events(prev: Seq<u8>, next: Seq<u8>, n: int) -> Seq<Event>
    decreases n,
{
    if n <= 0 {
        seq![]
    } else {
        diff_events(prev, next, n - 1) + diff_event(prev, next, n - 1)
    }
}

/// How many times each of the 128 notes is currently on, and how many notes
/// are on.
#[derive(Clone, Debug)]
pub struct Notes {
    state: [u8; 128],
    len: u8,
}

impl Notes {
    /// How many times each note is on, by note number.
    pub closed spec fn counts(self) -> Seq<u8> {
        self.state@
    }

    /// The recorded number of notes that are on.
    pub closed spec fn spec_len(self) -> u8 {
        self.len
    }

    pub open spec fn model(self) -> NotesModel {
        NotesModel { counts: self.counts(), len: self.spec_len() as int }
    }

    /// The recorded length is the number of notes that are on.
    pub open spec fn wf(self) -> bool {
        self.spec_len() == active_count(self.counts())
    }

    pub proof fn lemma_counts_len(self)
        ensures
            self.counts().len() == 128,
    {
    }

    /// The (note, count) pairs that iterating over these notes gives.
    pub open spec fn spec_entries(self) -> Seq<(Note, u8)> {
        entries_from(self.counts(), 0, self.spec_len() as nat)
    }

    #[inline]
    pub fn insert(&mut self, event: Event) -> (r: Option<Event>)
        requires
            match event {
                Event::On { note } => old(self).counts()[note.index()] == 0 ==> old(self).spec_len()
                    < 255,
                Event::Off { note } => old(self).counts()[note.index()] == 1 ==> old(self).spec_len()
                    > 0,
            },
        ensures
            match event {
                Event::On { note } => {
                    &&& final(self).model() == on_model(old(self).model(), note)
                    &&& r == if old(self).counts()[note.index()] == 0 {
                        Some(Event::On { note })
                    } else {
                        None
                    }
                },
                Event::Off { note } => {
                    &&& final(self).model() == off_model(old(self).model(), note)
                    &&& r == if old(self).counts()[note.index()] == 1 {
                        Some(Event::Off { note })
                    } else {
                        None
                    }
                },
            },
            old(self).wf() ==> final(self).wf(),
    {
        match event {
            Event::On { note } => match self.on(note) {
                Some(note) => Some(Event::On { note }),
                None => None,
            },
            Event::Off { note } => match self.off(note) {
                Some(note) => Some(Event::Off { note }),
                None => None,
            },
        }
    }

    /// Turns `note` on once more; gives the note back where it was off before.
    #[inline]
    pub fn on(&mut self, note: Note) -> (r: Option<Note>)
        requires
            old(self).counts()[note.index()] == 0 ==> old(self).spec_len() < 255,
        ensures
            final(self).model() == on_model(old(self).model(), note),
            r == if old(self).counts()[note.index()] == 0 {
                Some(note)
            } else {
                None
            },
            old(self).wf() ==> final(self).wf(),
    {
        let count = self.get(note);
        self.set(note, count.saturating_add(1));
        proof {
            lemma_active_count_update(old(self).counts(), note.index(), self.counts()[note.index()]);
        }
        if count == 0 {
            self.len = self.len + 1;
            Some(note)
        } else {
            None
        }
    }

    /// Turns `note` off once; gives the note back where that was its last on.
    #[inline]
    pub fn off(&mut self, note: Note) -> (r: Option<Note>)
        requires
            old(self).counts()[note.index()] == 1 ==> old(self).spec_len() > 0,
        ensures
            final(self).model() == off_model(old(self).model(), note),
            r == if old(self).counts()[note.index()] == 1 {
                Some(note)
            } else {
                None
            },
            old(self).wf() ==> final(self).wf(),
    {
        let count = self.get(note);
        self.set(note, count.saturating_sub(1));
        proof {
            lemma_active_count_update(old(self).counts(), note.index(), self.counts()[note.index()]);
        }
        if count == 1 {
            self.len = self.len - 1;
            Some(note)
        } else {
            None
        }
    }

    #[inline]
    pub fn len(&self) -> (r: u8)
        ensures
            r == self.spec_len(),
    {
        self.len
    }

    #[inline]
    pub fn is_empty(&self) -> (r: bool)
        ensures
            r == (self.spec_len() == 0),
    {
        self.len == 0
    }

    /// How many times `note` is on.
    #[inline]
    pub fn get(&self, note: Note) -> (r: u8)
        ensures
            r == self.counts()[note.index()],
    {
        let v = note.get();
        assert(v & 0x7f == v % 128) by (bit_vector);
        self.state[(v & 0x7f) as usize]
    }

    /// Sets how many times `note` is on, and gives the count it had. The
    /// recorded length is left as it was.
    #[inline]
    pub fn set(&mut self, note: Note, count: u8) -> (r: u8)
        ensures
            r == old(self).counts()[note.index()],
            final(self).counts() == old(self).counts().update(note.index(), count),
            final(self).spec_len() == old(self).spec_len(),
    {
        let v = note.get();
        assert(v & 0x7f == v % 128) by (bit_vector);
        let idx = (v & 0x7f) as usize;
        let prev = self.state[idx];
        self.state[idx] = count;
        prev
    }

    /// Turns every note off, and gives the length it had.
    #[inline]
    pub fn clear(&mut self) -> (r: u8)
        ensures
            r == old(self).spec_len(),
            final(self).counts() == silent_counts(),
            final(self).spec_len() == 0,
            final(self).wf(),
    {
        let len = self.len();
        *self = Self::default();
        len
    }
}

impl Default for Notes {
    #[inline]
    fn default() -> (r: Self)
        ensures
            r.counts() == silent_counts(),
            r.spec_len() == 0,
            r.wf(),
    {
        let r = Self { state: [0u8; 128], len: 0 };
        assert(r.counts() == silent_counts());
        proof {
            lemma_active_count_silent(128);
            assert(silent_counts().take(128) == silent_counts());
        }
        r
    }
}

/// The state after one more `on` of `note`.
pub open spec fn on_model(m: NotesModel, note: Note) -> NotesModel {
    let count = m.counts[note.index()];
    NotesModel {
        counts: m.counts.update(note.index(), if count == 255 { 255u8 } else { (count + 1) as u8 }),
        len: if count == 0 { m.len + 1 } else { m.len },
    }
}

/// The state after one more `off` of `note`.
pub open spec fn off_model(m: NotesModel, note: Note) -> NotesModel {
    let count = m.counts[note.index()];
    NotesModel {
        counts: m.counts.update(note.index(), if count == 0 { 0u8 } else { (count - 1) as u8 }),
        len: if count == 1 { m.len - 1 } else { m.len },
    }
}

/// Setting one count changes the number of nonzero counts by the change in
/// whether that slot is nonzero.
pub proof fn lemma_active_count_update(s: Seq<u8>, i: int, v: u8)
    requires
        0 <= i < s.len(),
    ensures
        active_count(s.update(i, v)) + (if s[i] != 0 { 1int } else { 0int }) == active_count(s)
            + (if v != 0 { 1int } else { 0int }),
    decreases s.len(),
{
    let t = s.update(i, v);
    if i == s.len() - 1 {
        assert(t.drop_last() == s.drop_last());
    } else {
        lemma_active_count_update(s.drop_last(), i, v);
        assert(t.drop_last() == s.drop_last().update(i, v));
    }
}

/// No slot of the silent table is nonzero.
pub proof fn lemma_active_count_silent(n: nat)
    requires
        n <= 128,
    ensures
        active_count(silent_counts().take(n as int)) == 0,
    decreases n,
{
    if n > 0 {
        lemma_active_count_silent((n - 1) as nat);
        assert(silent_counts().take(n as int).drop_last() == silent_counts().take(n - 1));
    }
    if n == 128 {
        assert(silent_counts().take(128) == silent_counts());
    }
}

/// The silent state, as counts and a length.
pub open spec fn silent_model() -> NotesModel {
    NotesModel { counts: silent_counts(), len: 0 }
}

/// The length counts exactly the nonzero slots of a table of 128 counts.
pub open spec fn model_wf(m: NotesModel) -> bool {
    m.counts.len() == 128 && m.len == active_count(m.counts)
}

/// No more slots are nonzero than there are slots.
pub proof fn lemma_active_count_bound(s: Seq<u8>)
    ensures
        active_count(s) <= s.len(),
    decreases s.len(),
{
    if s.len() > 0 {
        lemma_active_count_bound(s.drop_last());
    }
}

/// Adding an entry keeps the length equal to the number of notes that are on.
pub proof fn lemma_extend_step_wf(m: NotesModel, entry: (Note, u8))
    requires
        model_wf(m),
    ensures
        model_wf(extend_step(m, entry)),
{
    let prev = m.counts[entry.0.index()];
    let sum = prev + entry.1;
    lemma_active_count_update(
        m.counts,
        entry.0.index(),
        if sum > 255 { 255u8 } else { sum as u8 },
    );
}

/// Adding entries keeps the length equal to the number of notes that are on.
pub proof fn lemma_extend_all_wf(m: NotesModel, entries: Seq<(Note, u8)>)
    requires
        model_wf(m),
    ensures
        model_wf(extend_all(m, entries)),
    decreases entries.len(),
{
    if entries.len() > 0 {
        lemma_extend_all_wf(m, entries.drop_last());
        lemma_extend_step_wf(extend_all(m, entries.drop_last()), entries.last());
    }
}

/// Adding entries never lowers the length.
pub proof fn lemma_extend_all_monotone(m: NotesModel, entries: Seq<(Note, u8)>, k: int)
    requires
        0 <= k <= entries.len(),
    ensures
        extend_all(m, entries.take(k)).len <= extend_all(m, entries).len,
        m.len <= extend_all(m, entries).len,
    decreases entries.len(),
{
    if entries.len() > 0 {
        if k == entries.len() {
            assert(entries.take(k) == entries);
        } else {
            assert(entries.drop_last().take(k) == entries.take(k));
        }
        if k < entries.len() {
            lemma_extend_all_monotone(m, entries.drop_last(), k);
        } else {
            lemma_extend_all_monotone(m, entries.drop_last(), 0);
        }
    }
}

/// Walks the nonzero counts of a table of notes, in note order.
pub struct Iter {
    idx: usize,
    state: [u8; 128],
    len: usize,
}

impl Iter {
    /// The (note, count) pairs still to come.
    pub closed spec fn spec_entries(self) -> Seq<(Note, u8)> {
        entries_from(self.state@, self.idx as int, self.len as nat)
    }

    /// How many entries are recorded as still to come.
    pub closed spec fn recorded_len(self) -> usize {
        self.len
    }

    /// The recorded number is the number of nonzero counts still to come.
    pub closed spec fn counted(self) -> bool {
        self.len == active_from(self.state@, self.idx as int)
    }

    /// The next nonzero count and its note.
    #[inline]
    pub fn next(&mut self) -> (r: Option<(Note, u8)>)
        ensures
            r is None ==> old(self).spec_entries() == Seq::<(Note, u8)>::empty(),
            r is None ==> final(self).spec_entries() == old(self).spec_entries(),
            r matches Some(e) ==> old(self).spec_entries() == seq![e] + final(self).spec_entries(),
            old(self).counted() ==> final(self).counted(),
    {
        while self.len > 0
            invariant
                self.state == old(self).state,
                self.len == old(self).len,
                self.spec_entries() == old(self).spec_entries(),
                old(self).counted() ==> self.counted(),
            decreases 128 - self.idx,
        {
            let idx = self.idx;
            if idx >= 128 {
                return None;
            }
            let count = self.state[idx];
            self.idx = self.idx + 1;

            if count == 0 {
                continue;
            }

            self.len = self.len - 1;

            return Some((Note(idx as u8), count));
        }

        None
    }

    /// At most and at least this many entries are still to come, as recorded.
    #[inline]
    pub fn size_hint(&self) -> (r: (usize, Option<usize>))
        ensures
            r == (self.recorded_len(), Some(self.recorded_len())),
            self.counted() ==> r.0 == self.spec_entries().len(),
    {
        proof {
            if self.counted() {
                lemma_entries_from_len(self.state@, self.idx as int, self.len as nat);
            }
        }
        (self.len, Some(self.len))
    }
}

impl Notes {
    /// An iterator over the nonzero counts, consuming the table.
    #[inline]
    pub fn into_iter(self) -> (r: Iter)
        ensures
            r.spec_entries() == self.spec_entries(),
            r.recorded_len() == self.spec_len(),
            self.wf() ==> r.counted(),
            self.wf() ==> r.recorded_len() == r.spec_entries().len(),
    {
        proof {
            if self.wf() {
                self.lemma_counts_len();
                lemma_active_split(self.counts(), 0);
                assert(self.counts().take(0) =~= Seq::<u8>::empty());
                lemma_entries_from_len(self.counts(), 0, self.spec_len() as nat);
            }
        }
        Iter { idx: 0, state: self.state, len: self.len as usize }
    }

    /// The nonzero counts and their notes, in note order.
    #[inline]
    pub fn entries(&self) -> (r: Iter)
        ensures
            r.spec_entries() == self.spec_entries(),
            r.recorded_len() == self.spec_len(),
            self.wf() ==> r.counted(),
            self.wf() ==> r.recorded_len() == r.spec_entries().len(),
    {
        proof {
            if self.wf() {
                self.lemma_counts_len();
                lemma_active_split(self.counts(), 0);
                assert(self.counts().take(0) =~= Seq::<u8>::empty());
                lemma_entries_from_len(self.counts(), 0, self.spec_len() as nat);
            }
        }
        Iter { idx: 0, state: self.state, len: self.len as usize }
    }

    /// The notes that are on, in note order.
    #[inline]
    pub fn active(&self) -> (r: Vec<Note>)
        ensures
            r@ == self.spec_entries().map_values(|e: (Note, u8)| e.0),
    {
        let ghost all = self.spec_entries();
        let mut iter = self.entries();
        let mut out: Vec<Note> = Vec::new();
        let ghost consumed: Seq<(Note, u8)> = seq![];
        loop
            invariant
                consumed + iter.spec_entries() == all,
                out@ == consumed.map_values(|e: (Note, u8)| e.0),
            ensures
                out@ == all.map_values(|e: (Note, u8)| e.0),
            decreases iter.spec_entries().len(),
        {
            match iter.next() {
                None => {
                    assert(consumed == all);
                    break;
                },
                Some((note, count)) => {
                    let ghost before = consumed;
                    proof {
                        consumed = consumed.push((note, count));
                    }
                    out.push(note);
                    assert(consumed.map_values(|e: (Note, u8)| e.0) == before.map_values(
                        |e: (Note, u8)| e.0,
                    ).push(note));
                },
            }
        }
        out
    }

    /// Adds `count` to the count of `note`, saturating.
    fn add(&mut self, note: Note, count: u8)
        requires
            old(self).counts()[note.index()] == 0 && count > 0 ==> old(self).spec_len() < 255,
        ensures
            final(self).model() == extend_step(old(self).model(), (note, count)),
    {
        let prev = self.get(note);
        self.set(note, prev.saturating_add(count));
        if prev == 0 && count > 0 {
            self.len = self.len + 1;
        }
    }

    /// Adds each (note, count) pair in turn to the counts.
    #[inline]
    pub fn extend(&mut self, entries: &[(Note, u8)])
        requires
            extend_all(old(self).model(), entries@).len <= 255,
        ensures
            final(self).model() == extend_all(old(self).model(), entries@),
            old(self).wf() ==> final(self).wf(),
    {
        let ghost start = self.model();
        let mut i: usize = 0;
        while i < entries.len()
            invariant
                i <= entries@.len(),
                start == old(self).model(),
                extend_all(start, entries@).len <= 255,
                self.model() == extend_all(start, entries@.take(i as int)),
            decreases entries@.len() - i,
        {
            let (note, count) = entries[i];
            proof {
                lemma_extend_all_monotone(start, entries@, i + 1);
                assert(entries@.take(i + 1).drop_last() == entries@.take(i as int));
            }
            self.add(note, count);
            i = i + 1;
        }
        proof {
            assert(entries@.take(entries@.len() as int) == entries@);
            if old(self).wf() {
                lemma_extend_all_wf(start, entries@);
            }
        }
    }

    /// The table that the (note, count) pairs add up to.
    #[inline]
    pub fn from_iter(entries: &[(Note, u8)]) -> (r: Notes)
        ensures
            r.model() == extend_all(silent_model(), entries@),
            r.wf(),
    {
        let mut notes = Self::default();
        proof {
            lemma_extend_all_wf(silent_model(), entries@);
            lemma_active_count_bound(extend_all(silent_model(), entries@).counts);
        }
        notes.extend(entries);
        notes
    }

    /// The table with each note replaced by what `f` maps it to, leaving out
    /// the notes that `f` maps to `None`.
    #[inline]
    pub fn map<F: Fn(Note) -> Option<Note>>(&self, f: F) -> (r: Notes)
        requires
            forall|k: int|
                0 <= k < self.spec_entries().len() ==> call_requires(
                    f,
                    (#[trigger] self.spec_entries()[k].0,),
                ),
        ensures
            exists|outs: Seq<Option<Note>>|
                {
                    &&& outs.len() == self.spec_entries().len()
                    &&& forall|k: int|
                        0 <= k < outs.len() ==> call_ensures(
                            f,
                            (#[trigger] self.spec_entries()[k].0,),
                            outs[k],
                        )
                    &&& r.model() == extend_all(
                        silent_model(),
                        mapped_entries(self.spec_entries(), outs),
                    )
                },
            r.wf(),
    {
        let ghost all = self.spec_entries();
        let mut iter = self.entries();
        let mut out = Self::default();
        let ghost consumed: Seq<(Note, u8)> = seq![];
        let ghost outs: Seq<Option<Note>> = seq![];
        loop
            invariant
                all == self.spec_entries(),
                forall|k: int|
                    0 <= k < all.len() ==> call_requires(f, (#[trigger] all[k].0,)),
                consumed + iter.spec_entries() == all,
                outs.len() == consumed.len(),
                forall|k: int|
                    0 <= k < outs.len() ==> call_ensures(f, (#[trigger] all[k].0,), outs[k]),
                out.model() == extend_all(silent_model(), mapped_entries(consumed, outs)),
                out.wf(),
            ensures
                consumed == all,
                outs.len() == consumed.len(),
                forall|k: int|
                    0 <= k < outs.len() ==> call_ensures(f, (#[trigger] all[k].0,), outs[k]),
                out.model() == extend_all(silent_model(), mapped_entries(consumed, outs)),
                out.wf(),
            decreases iter.spec_entries().len(),
        {
            let ghost before = iter.spec_entries();
            match iter.next() {
                None => {
                    assert(consumed == all);
                    break;
                },
                Some((note, count)) => {
                    assert(all[consumed.len() as int] == (note, count));
                    let mapped = f(note);
                    let ghost pushed = consumed.push((note, count));
                    let ghost pushed_outs = outs.push(mapped);
                    proof {
                        assert(pushed.drop_last() == consumed);
                        assert(pushed_outs.take(pushed.len() - 1) == outs);
                        lemma_active_count_bound(out.counts());
                        out.lemma_counts_len();
                    }
                    if let Some(n) = mapped {
                        let ghost m0 = out.model();
                        out.add(n, count);
                        proof {
                            lemma_extend_step_wf(m0, (n, count));
                            let prefix = mapped_entries(consumed, outs);
                            assert(mapped_entries(pushed, pushed_outs) == prefix.push((n, count)));
                            assert(prefix.push((n, count)).drop_last() == prefix);
                        }
                    } else {
                        assert(mapped_entries(pushed, pushed_outs) == mapped_entries(consumed, outs));
                    }
                    proof {
                        consumed = pushed;
                        outs = pushed_outs;
                    }
                },
            }
        }
        assert(outs.len() == all.len());
        assert(forall|k: int|
            0 <= k < outs.len() ==> call_ensures(f, (#[trigger] all[k].0,), outs[k]));
        out
    }

    /// The table with every note moved by `amount` semitones; notes that
    /// would leave the range of notes are dropped.
    #[inline]
    pub fn transpose(&self, amount: i8) -> (r: Notes)
        requires
            amount != i8::MIN,
        ensures
            r.model() == extend_all(silent_model(), transposed_entries(self.spec_entries(), amount)),
            r.wf(),
    {
        let shift = |note: Note| -> (t: Option<Note>)
            requires
                amount != i8::MIN,
            ensures
                t == note.spec_transpose(amount),
            { note.transpose(amount) };
        let r = self.map(shift);
        proof {
            let all = self.spec_entries();
            let outs = choose|outs: Seq<Option<Note>>|
                {
                    &&& outs.len() == all.len()
                    &&& forall|k: int|
                        0 <= k < outs.len() ==> call_ensures(shift, (#[trigger] all[k].0,), outs[k])
                    &&& r.model() == extend_all(silent_model(), mapped_entries(all, outs))
                };
            let expected = Seq::new(all.len(), |k: int| all[k].0.spec_transpose(amount));
            assert forall|k: int| 0 <= k < outs.len() implies outs[k] == expected[k] by {
                assert(call_ensures(shift, (all[k].0,), outs[k]));
            }
            assert(outs == expected);
        }
        r
    }

    /// The events that lead from these notes to `next`, over the first
    /// `max(len, next.len)` note numbers.
    #[inline]
    pub fn diff(&self, next: &Self) -> (r: Vec<Event>)
        ensures
            r@ == diff_events(
                self.counts(),
                next.counts(),
                vstd::math::min(
                    vstd::math::max(self.spec_len() as int, next.spec_len() as int),
                    128,
                ),
            ),
            forall|i: int|
                0 <= i < vstd::math::min(
                    vstd::math::max(self.spec_len() as int, next.spec_len() as int),
                    128,
                ) ==> (r@.contains(Event::On { note: #[trigger] Note::spec_from_value(i as u8) })
                    <==> (self.counts()[i] == 0 && next.counts()[i] != 0)),
            forall|i: int|
                0 <= i < vstd::math::min(
                    vstd::math::max(self.spec_len() as int, next.spec_len() as int),
                    128,
                ) ==> (r@.contains(Event::Off { note: #[trigger] Note::spec_from_value(i as u8) })
                    <==> (self.counts()[i] != 0 && next.counts()[i] == 0)),
    {
        proof {
            self.lemma_counts_len();
            next.lemma_counts_len();
            lemma_diff_events_exact(
                self.counts(),
                next.counts(),
                vstd::math::min(
                    vstd::math::max(self.spec_len() as int, next.spec_len() as int),
                    128,
                ),
            );
        }
        let len: usize = if self.len >= next.len {
            self.len as usize
        } else {
            next.len as usize
        };
        let mut out: Vec<Event> = Vec::new();
        let mut note: usize = 0;
        while note < len && note < 128
            invariant
                note <= 128,
                note <= len,
                len == vstd::math::max(self.spec_len() as int, next.spec_len() as int),
                out@ == diff_events(self.counts(), next.counts(), note as int),
            decreases 128 - note,
        {
            let prev_count = self.state[note];
            let next_count = next.state[note];
            let ghost before = out@;
            if prev_count == 0 && next_count > 0 {
                out.push(Event::On { note: Note(note as u8) });
            } else if prev_count > 0 && next_count == 0 {
                out.push(Event::Off { note: Note(note as u8) });
            }
            proof {
                assert(diff_events(self.counts(), next.counts(), note + 1) == before
                    + diff_event(self.counts(), next.counts(), note as int));
            }
            note = note + 1;
        }
        out
    }
}

/// Over the first `n` note numbers, the events from `prev` to `next` turn a
/// note on exactly where its count goes from zero to nonzero, turn it off
/// exactly where its count goes from nonzero to zero, and name no other note
/// and no note twice: a note sounding in both tables, or in neither, gives no
/// event.
pub proof fn lemma_diff_events_exact(prev: Seq<u8>, next: Seq<u8>, n: int)
    requires
        0 <= n <= 128,
        n <= prev.len(),
        n <= next.len(),
    ensures
        forall|i: int|
            0 <= i < n ==> (diff_events(prev, next, n).contains(
                Event::On { note: #[trigger] Note::spec_from_value(i as u8) },
            ) <==> (prev[i] == 0 && next[i] != 0)),
        forall|i: int|
            0 <= i < n ==> (diff_events(prev, next, n).contains(
                Event::Off { note: #[trigger] Note::spec_from_value(i as u8) },
            ) <==> (prev[i] != 0 && next[i] == 0)),
        forall|e: Event|
            #[trigger] diff_events(prev, next, n).contains(e) ==> exists|i: int|
                #![trigger Note::spec_from_value(i as u8)]
                0 <= i < n && (e == Event::On { note: Note::spec_from_value(i as u8) } || e
                    == Event::Off { note: Note::spec_from_value(i as u8) }),
        diff_events(prev, next, n).len() <= n,
    decreases n,
{
    if n > 0 {
        lemma_diff_events_exact(prev, next, n - 1);
        let before = diff_events(prev, next, n - 1);
        let last = diff_event(prev, next, n - 1);
        let all = diff_events(prev, next, n);
        assert(all == before + last);
        assert forall|e: Event| all.contains(e) implies (before.contains(e) || last.contains(e)) by {
            let k = choose|k: int| 0 <= k < all.len() && all[k] == e;
            if k < before.len() {
                assert(before[k] == e);
            } else {
                assert(last[k - before.len()] == e);
            }
        }
        assert forall|e: Event| before.contains(e) || last.contains(e) implies all.contains(e) by {
            if before.contains(e) {
                let k = choose|k: int| 0 <= k < before.len() && before[k] == e;
                assert(all[k] == e);
            } else {
                let k = choose|k: int| 0 <= k < last.len() && last[k] == e;
                assert(all[before.len() + k] == e);
            }
        }
        assert forall|i: int| 0 <= i < n implies (all.contains(
            Event::On { note: #[trigger] Note::spec_from_value(i as u8) },
        ) <==> (prev[i] == 0 && next[i] != 0)) by {
            let ev = Event::On { note: Note::spec_from_value(i as u8) };
            if i < n - 1 {
                if last.contains(ev) {
                    let k = choose|k: int| 0 <= k < last.len() && last[k] == ev;
                    Note::lemma_from_value(i as u8, Note::spec_from_value(i as u8));
                    Note::lemma_from_value((n - 1) as u8, Note::spec_from_value((n - 1) as u8));
                }
            } else {
                if before.contains(ev) {
                    assert(exists|j: int|
                        #![trigger Note::spec_from_value(j as u8)]
                        0 <= j < n - 1 && (ev == Event::On { note: Note::spec_from_value(j as u8) }
                            || ev == Event::Off { note: Note::spec_from_value(j as u8) }));
                    let j = choose|j: int|
                        #![trigger Note::spec_from_value(j as u8)]
                        0 <= j < n - 1 && (ev == Event::On { note: Note::spec_from_value(j as u8) }
                            || ev == Event::Off { note: Note::spec_from_value(j as u8) });
                    Note::lemma_from_value(i as u8, Note::spec_from_value(i as u8));
                    Note::lemma_from_value(j as u8, Note::spec_from_value(j as u8));
                }
                if prev[i] == 0 && next[i] != 0 {
                    assert(last[0] == ev);
                }
            }
        }
        assert forall|i: int| 0 <= i < n implies (all.contains(
            Event::Off { note: #[trigger] Note::spec_from_value(i as u8) },
        ) <==> (prev[i] != 0 && next[i] == 0)) by {
            let ev = Event::Off { note: Note::spec_from_value(i as u8) };
            if i < n - 1 {
                if last.contains(ev) {
                    let k = choose|k: int| 0 <= k < last.len() && last[k] == ev;
                    Note::lemma_from_value(i as u8, Note::spec_from_value(i as u8));
                    Note::lemma_from_value((n - 1) as u8, Note::spec_from_value((n - 1) as u8));
                }
            } else {
                if before.contains(ev) {
                    assert(exists|j: int|
                        #![trigger Note::spec_from_value(j as u8)]
                        0 <= j < n - 1 && (ev == Event::On { note: Note::spec_from_value(j as u8) }
                            || ev == Event::Off { note: Note::spec_from_value(j as u8) }));
                    let j = choose|j: int|
                        #![trigger Note::spec_from_value(j as u8)]
                        0 <= j < n - 1 && (ev == Event::On { note: Note::spec_from_value(j as u8) }
                            || ev == Event::Off { note: Note::spec_from_value(j as u8) });
                    Note::lemma_from_value(i as u8, Note::spec_from_value(i as u8));
                    Note::lemma_from_value(j as u8, Note::spec_from_value(j as u8));
                }
                if prev[i] != 0 && next[i] == 0 {
                    assert(last[0] == ev);
                }
            }
        }
        assert forall|e: Event| #[trigger] all.contains(e) implies exists|i: int|
            #![trigger Note::spec_from_value(i as u8)]
            0 <= i < n && (e == Event::On { note: Note::spec_from_value(i as u8) } || e
                == Event::Off { note: Note::spec_from_value(i as u8) }) by {
            if before.contains(e) {
                let j = choose|j: int|
                    #![trigger Note::spec_from_value(j as u8)]
                    0 <= j < n - 1 && (e == Event::On { note: Note::spec_from_value(j as u8) } || e
                        == Event::Off { note: Note::spec_from_value(j as u8) });
                assert(0 <= j < n);
            } else {
                let k = choose|k: int| 0 <= k < last.len() && last[k] == e;
                assert(0 <= n - 1 < n);
            }
        }
    }
}

/// Turning a note off right after turning it on gives back the state before,
/// unless its count was already at the ceiling of 255.
pub proof fn lemma_off_undoes_on(m: NotesModel, note: Note)
    requires
        0 <= note.index() < m.counts.len(),
        m.counts[note.index()] < 255,
    ensures
        off_model(on_model(m, note), note) == m,
{
    let i = note.index();
    let c = m.counts[i];
    assert(on_model(m, note).counts[i] == c + 1);
    assert(off_model(on_model(m, note), note).counts =~= m.counts);
}

/// A table has no events leading to itself.
pub proof fn lemma_diff_self_is_empty(counts: Seq<u8>, n: int)
    requires
        n <= counts.len(),
    ensures
        diff_events(counts, counts, n) == Seq::<Event>::empty(),
    decreases n,
{
    if n > 0 {
        lemma_diff_self_is_empty(counts, n - 1);
    }
}

/// Moving a note by `amount` and then back by `-amount` gives the note back.
pub proof fn lemma_transpose_inverse(n: Note, amount: i8)
    requires
        amount != i8::MIN,
        n.value() < 128,
        n.spec_transpose(amount) is Some,
    ensures
        n.spec_transpose(amount).unwrap().spec_transpose((-amount) as i8) == Some(n),
{
    let m = n.spec_transpose(amount).unwrap();
    let t = (n.value() + amount) as u8;
    Note::lemma_from_value(t, m);
    Note::lemma_from_value(n.value(), n);
    assert(m.value() == t);
}

} // verus!
