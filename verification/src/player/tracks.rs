//! Which tracks of a project are heard, and which one is selected.
use crate::text::same_text;
use vstd::prelude::*;

verus! {

/// Whether a track is muted and whether it is soloed.
#[derive(Clone, Copy, Debug, PartialEq, Eq)]
pub struct TrackFlags {
    pub mute: bool,
    pub solo: bool,
}

/// Whether any of the tracks is soloed.
pub open spec fn any_solo(flags: Seq<TrackFlags>) -> bool {
    exists|i: int| 0 <= i < flags.len() && #[trigger] flags[i].solo
}

/// Whether a track is heard: it is not muted, and either it is soloed or,
/// where no track is soloed, it is not.
pub open spec fn is_audible(flags: Seq<TrackFlags>, i: int) -> bool {
    !flags[i].mute && (any_solo(flags) == flags[i].solo)
}

/// The mute and solo switches of the tracks of a project, and whether the
/// mix has to be made again.
pub struct Tracks {
    flags: Vec<TrackFlags>,
    needs_update: bool,
}

impl Tracks {
    pub closed spec fn spec_flags(&self) -> Seq<TrackFlags> {
        self.flags@
    }

    pub closed spec fn spec_needs_update(&self) -> bool {
        self.needs_update
    }

    /// `n` tracks, none muted or soloed.
    pub fn new(n: usize) -> (r: Self)
        ensures
            r.spec_flags() == Seq::new(n as nat, |i: int| TrackFlags { mute: false, solo: false }),
            !r.spec_needs_update(),
    {
        let mut flags: Vec<TrackFlags> = Vec::new();
        let mut i: usize = 0;
        while i < n
            invariant
                i <= n,
                flags@ == Seq::new(i as nat, |k: int| TrackFlags { mute: false, solo: false }),
            decreases n - i,
        {
            flags.push(TrackFlags { mute: false, solo: false });
            i = i + 1;
        }
        Tracks { flags, needs_update: false }
    }

    /// Tracks with the given switches.
    pub fn from_flags(flags: Vec<TrackFlags>) -> (r: Self)
        ensures
            r.spec_flags() == flags@,
            !r.spec_needs_update(),
    {
        Tracks { flags, needs_update: false }
    }

    pub fn len(&self) -> (r: usize)
        ensures
            r == self.spec_flags().len(),
    {
        self.flags.len()
    }

    pub fn flags(&self) -> (r: &Vec<TrackFlags>)
        ensures
            r@ == self.spec_flags(),
    {
        &self.flags
    }

    /// Whether the mix has to be made again; clears the mark.
    pub fn take_needs_update(&mut self) -> (r: bool)
        ensures
            r == old(self).spec_needs_update(),
            !final(self).spec_needs_update(),
            final(self).spec_flags() == old(self).spec_flags(),
    {
        let r = self.needs_update;
        self.needs_update = false;
        r
    }

    /// Turns the mute of track `idx` over, where there is such a track.
    pub fn mute(&mut self, idx: usize)
        ensures
            idx < old(self).spec_flags().len() ==> final(self).spec_flags() == old(self).spec_flags().update(
                idx as int,
                TrackFlags { mute: !old(self).spec_flags()[idx as int].mute, ..old(self).spec_flags()[idx as int] },
            ) && final(self).spec_needs_update(),
            idx >= old(self).spec_flags().len() ==> *final(self) == *old(self),
    {
        if idx < self.flags.len() {
            let f = self.flags[idx];
            self.flags.set(idx, TrackFlags { mute: !f.mute, ..f });
            self.needs_update = true;
        }
    }

    /// Turns the solo of track `idx` over, where there is such a track.
    pub fn solo(&mut self, idx: usize)
        ensures
            idx < old(self).spec_flags().len() ==> final(self).spec_flags() == old(self).spec_flags().update(
                idx as int,
                TrackFlags { solo: !old(self).spec_flags()[idx as int].solo, ..old(self).spec_flags()[idx as int] },
            ) && final(self).spec_needs_update(),
            idx >= old(self).spec_flags().len() ==> *final(self) == *old(self),
    {
        if idx < self.flags.len() {
            let f = self.flags[idx];
            self.flags.set(idx, TrackFlags { solo: !f.solo, ..f });
            self.needs_update = true;
        }
    }

    /// Turns the mute of every track over.
    pub fn mute_all(&mut self)
        ensures
            final(self).spec_flags().len() == old(self).spec_flags().len(),
            forall|i: int|
                0 <= i < old(self).spec_flags().len() ==> #[trigger] final(self).spec_flags()[i] == (
                TrackFlags { mute: !old(self).spec_flags()[i].mute, ..old(self).spec_flags()[i] }),
            final(self).spec_needs_update(),
    {
        let mut i: usize = 0;
        while i < self.flags.len()
            invariant
                i <= self.flags@.len(),
                self.flags@.len() == old(self).flags@.len(),
                forall|k: int|
                    0 <= k < i ==> #[trigger] self.flags@[k] == (TrackFlags {
                        mute: !old(self).flags@[k].mute,
                        ..old(self).flags@[k]
                    }),
                forall|k: int| i <= k < self.flags@.len() ==> #[trigger] self.flags@[k] == old(self).flags@[k],
            decreases self.flags@.len() - i,
        {
            let f = self.flags[i];
            self.flags.set(i, TrackFlags { mute: !f.mute, ..f });
            i = i + 1;
        }
        self.needs_update = true;
    }

    /// Turns the solo of every track over.
    pub fn solo_all(&mut self)
        ensures
            final(self).spec_flags().len() == old(self).spec_flags().len(),
            forall|i: int|
                0 <= i < old(self).spec_flags().len() ==> #[trigger] final(self).spec_flags()[i] == (
                TrackFlags { solo: !old(self).spec_flags()[i].solo, ..old(self).spec_flags()[i] }),
            final(self).spec_needs_update(),
    {
        let mut i: usize = 0;
        while i < self.flags.len()
            invariant
                i <= self.flags@.len(),
                self.flags@.len() == old(self).flags@.len(),
                forall|k: int|
                    0 <= k < i ==> #[trigger] self.flags@[k] == (TrackFlags {
                        solo: !old(self).flags@[k].solo,
                        ..old(self).flags@[k]
                    }),
                forall|k: int| i <= k < self.flags@.len() ==> #[trigger] self.flags@[k] == old(self).flags@[k],
            decreases self.flags@.len() - i,
        {
            let f = self.flags[i];
            self.flags.set(i, TrackFlags { solo: !f.solo, ..f });
            i = i + 1;
        }
        self.needs_update = true;
    }

    /// For each track, whether it is heard in the mix.
    pub fn audible(&self) -> (r: Vec<bool>)
        ensures
            r@.len() == self.spec_flags().len(),
            forall|i: int| 0 <= i < r@.len() ==> r@[i] == is_audible(self.spec_flags(), i),
    {
        let mut any = false;
        let mut i: usize = 0;
        while i < self.flags.len()
            invariant
                i <= self.flags@.len(),
                any == exists|k: int| 0 <= k < i && #[trigger] self.flags@[k].solo,
            decreases self.flags@.len() - i,
        {
            if self.flags[i].solo {
                any = true;
            }
            i = i + 1;
        }
        let mut out: Vec<bool> = Vec::new();
        let mut j: usize = 0;
        while j < self.flags.len()
            invariant
                j <= self.flags@.len(),
                any == any_solo(self.flags@),
                out@.len() == j,
                forall|k: int| 0 <= k < j ==> out@[k] == is_audible(self.flags@, k),
            decreases self.flags@.len() - j,
        {
            let f = self.flags[j];
            out.push(!f.mute && (any == f.solo));
            j = j + 1;
        }
        out
    }
}

/// Turning the mute of a track over twice leaves every track as it was.
pub proof fn lemma_mute_twice(flags: Seq<TrackFlags>, idx: int)
    requires
        0 <= idx < flags.len(),
    ensures
        ({
            let once = flags.update(idx, TrackFlags { mute: !flags[idx].mute, ..flags[idx] });
            once.update(idx, TrackFlags { mute: !once[idx].mute, ..once[idx] }) == flags
        }),
{
    let once = flags.update(idx, TrackFlags { mute: !flags[idx].mute, ..flags[idx] });
    assert(once.update(idx, TrackFlags { mute: !once[idx].mute, ..once[idx] }) =~= flags);
}

/// With no track soloed, exactly the tracks that are not muted are heard;
/// with one soloed, exactly the soloed tracks that are not muted are.
pub proof fn lemma_audible_cases(flags: Seq<TrackFlags>, i: int)
    requires
        0 <= i < flags.len(),
    ensures
        !any_solo(flags) ==> (is_audible(flags, i) <==> !flags[i].mute),
        any_solo(flags) ==> (is_audible(flags, i) <==> !flags[i].mute && flags[i].solo),
{
}

/// The row selected after moving down from `selected` in a table of `len`
/// rows: the next row, the first after the last, the first where none is
/// selected.
pub open spec fn spec_select_next(selected: Option<usize>, len: usize) -> usize {
    match selected {
        Some(i) => if i >= len - 1 {
            0
        } else {
            (i + 1) as usize
        },
        None => 0,
    }
}

/// The row selected after moving up from `selected` in a table of `len`
/// rows: the row before, the last before the first, the first where none is
/// selected.
pub open spec fn spec_select_previous(selected: Option<usize>, len: usize) -> usize {
    match selected {
        Some(i) => if i == 0 {
            (len - 1) as usize
        } else {
            (i - 1) as usize
        },
        None => 0,
    }
}

pub fn select_next(selected: Option<usize>, len: usize) -> (r: usize)
    requires
        selected is Some ==> len > 0,
    ensures
        r == spec_select_next(selected, len),
{
    match selected {
        Some(i) => if i >= len - 1 {
            0
        } else {
            i + 1
        },
        None => 0,
    }
}

pub fn select_previous(selected: Option<usize>, len: usize) -> (r: usize)
    requires
        selected is Some ==> len > 0,
    ensures
        r == spec_select_previous(selected, len),
{
    match selected {
        Some(i) => if i == 0 {
            len - 1
        } else {
            i - 1
        },
        None => 0,
    }
}

/// Moving down and then up from a row of the table comes back to it, and so
/// does moving up and then down.
pub proof fn lemma_select_inverse(i: usize, len: usize)
    requires
        i < len,
    ensures
        spec_select_previous(Some(spec_select_next(Some(i), len)), len) == i,
        spec_select_next(Some(spec_select_previous(Some(i), len)), len) == i,
{
}

/// The switches last recorded under `name`, or none set where no track
/// had that name.
pub open spec fn flags_under(names: Seq<String>, flags: Seq<TrackFlags>, name: Seq<char>) -> TrackFlags
    decreases names.len(),
{
    if names.len() == 0 || flags.len() == 0 {
        TrackFlags { mute: false, solo: false }
    } else if names.last()@ == name {
        flags[names.len() - 1]
    } else {
        flags_under(names.drop_last(), flags.take(names.len() - 1), name)
    }
}

/// The switches of reloaded tracks named `names`: each keeps the switches
/// that a track of the same name had among the old tracks (`old_names`,
/// with `old_flags`), and a new track starts with none set.
pub fn carry_over(old_names: &Vec<String>, old_flags: &Vec<TrackFlags>, names: &Vec<String>) -> (r:
    Tracks)
    requires
        old_names.len() == old_flags.len(),
    ensures
        r.spec_flags().len() == names.len(),
        forall|i: int|
            0 <= i < names.len() ==> #[trigger] r.spec_flags()[i] == flags_under(
                old_names@,
                old_flags@,
                names@[i]@,
            ),
        !r.spec_needs_update(),
{
    let mut flags: Vec<TrackFlags> = Vec::new();
    let mut i: usize = 0;
    while i < names.len()
        invariant
            i <= names.len(),
            old_names.len() == old_flags.len(),
            flags@.len() == i,
            forall|j: int|
                0 <= j < i ==> #[trigger] flags@[j] == flags_under(old_names@, old_flags@, names@[j]@),
        decreases names.len() - i,
    {
        let name = names[i].as_str();
        let mut k: usize = old_names.len();
        let mut found = TrackFlags { mute: false, solo: false };
        assert(old_names@.take(k as int) =~= old_names@);
        assert(old_flags@.take(k as int) =~= old_flags@);
        while k > 0
            invariant_except_break
                found == (TrackFlags { mute: false, solo: false }),
            invariant
                k <= old_names.len(),
                old_names.len() == old_flags.len(),
                flags_under(old_names@, old_flags@, name@) == flags_under(
                    old_names@.take(k as int),
                    old_flags@.take(k as int),
                    name@,
                ),
            ensures
                found == flags_under(old_names@, old_flags@, name@),
            decreases k,
        {
            assert(old_names@.take(k as int).drop_last() =~= old_names@.take(k - 1));
            assert(old_flags@.take(k as int).take(k - 1) =~= old_flags@.take(k - 1));
            if same_text(old_names[k - 1].as_str(), name) {
                found = old_flags[k - 1];
                break;
            }
            k = k - 1;
        }
        flags.push(found);
        i = i + 1;
    }
    Tracks::from_flags(flags)
}

} // verus!
