use core::time::Duration;
use vstd::prelude::*;

verus! {

/// The changes an update makes: each field that is `Some` replaces the
/// control of that name.
#[derive(Clone, Copy, Debug, PartialEq)]
pub struct Changes {
    pub playing: Option<bool>,
    pub looping: Option<bool>,
    pub set: Option<Duration>,
    pub clipped: Option<bool>,
    pub clip_start: Option<Option<Duration>>,
    pub clip_end: Option<Option<Duration>>,
    pub volume: Option<u8>,
}

/// A change to the controls of a timeline, built up by its setters. A volume
/// in it is at most 100.
pub struct Update {
    changes: Changes,
}

impl Update {
    #[verifier::type_invariant]
    spec fn volume_in_range(&self) -> bool {
        match self.changes.volume {
            Some(v) => v <= 100,
            None => true,
        }
    }

    /// The changes that the update makes.
    pub closed spec fn spec_changes(&self) -> Changes {
        self.changes
    }

    /// An update that changes nothing.
    pub fn new() -> (r: Self)
        ensures
            r.spec_changes() == (Changes {
                playing: None,
                looping: None,
                set: None,
                clipped: None,
                clip_start: None,
                clip_end: None,
                volume: None,
            }),
    {
        Self {
            changes: Changes {
                playing: None,
                looping: None,
                set: None,
                clipped: None,
                clip_start: None,
                clip_end: None,
                volume: None,
            },
        }
    }

    /// The changes that the update makes; a volume among them is at most 100.
    pub fn changes(&self) -> (r: Changes)
        ensures
            r == self.spec_changes(),
            r.volume matches Some(v) ==> v <= 100,
    {
        proof {
            use_type_invariant(self);
        }
        self.changes
    }

    pub fn playing(&mut self, playing: bool) -> (r: &mut Self)
        ensures
            r.spec_changes() == (Changes { playing: Some(playing), ..old(self).spec_changes() }),
            *final(self) == *final(r),
    {
        proof {
            use_type_invariant(&*self);
        }
        self.changes.playing = Some(playing);
        self
    }

    pub fn looping(&mut self, looping: bool) -> (r: &mut Self)
        ensures
            r.spec_changes() == (Changes { looping: Some(looping), ..old(self).spec_changes() }),
            *final(self) == *final(r),
    {
        proof {
            use_type_invariant(&*self);
        }
        self.changes.looping = Some(looping);
        self
    }

    pub fn clipped(&mut self, clipped: bool) -> (r: &mut Self)
        ensures
            r.spec_changes() == (Changes { clipped: Some(clipped), ..old(self).spec_changes() }),
            *final(self) == *final(r),
    {
        proof {
            use_type_invariant(&*self);
        }
        self.changes.clipped = Some(clipped);
        self
    }

    pub fn set(&mut self, value: Duration) -> (r: &mut Self)
        ensures
            r.spec_changes() == (Changes { set: Some(value), ..old(self).spec_changes() }),
            *final(self) == *final(r),
    {
        proof {
            use_type_invariant(&*self);
        }
        self.changes.set = Some(value);
        self
    }

    pub fn clip_start(&mut self, start: Option<Duration>) -> (r: &mut Self)
        ensures
            r.spec_changes() == (Changes { clip_start: Some(start), ..old(self).spec_changes() }),
            *final(self) == *final(r),
    {
        proof {
            use_type_invariant(&*self);
        }
        self.changes.clip_start = Some(start);
        self
    }

    pub fn clip_end(&mut self, end: Option<Duration>) -> (r: &mut Self)
        ensures
            r.spec_changes() == (Changes { clip_end: Some(end), ..old(self).spec_changes() }),
            *final(self) == *final(r),
    {
        proof {
            use_type_invariant(&*self);
        }
        self.changes.clip_end = Some(end);
        self
    }

    /// Sets the volume in percent; a value over 100 sets 100.
    pub fn volume(&mut self, value: u8) -> (r: &mut Self)
        ensures
            r.spec_changes() == (Changes {
                volume: Some(if value < 100 { value } else { 100u8 }),
                ..old(self).spec_changes()
            }),
            *final(self) == *final(r),
    {
        self.changes.volume = Some(if value < 100 {
            value
        } else {
            100
        });
        self
    }
}

/// The controls of a timeline's playhead. Positions are counted in samples
/// of the interleaved stereo buffer; `usize::MAX` as a clip position means
/// that it is not set.
#[derive(Clone, Copy, Debug, PartialEq, Eq)]
pub struct Controls {
    pub playing: bool,
    pub looping: bool,
    pub ending: bool,
    pub cursor: usize,
    pub clipped: bool,
    pub clip_start: usize,
    pub clip_end: usize,
    pub volume: u8,
}

/// The number of samples that can be played: up to the end of the clip when
/// clipping, else the whole buffer.
pub open spec fn playable_len(c: Controls, buffer_len: usize) -> usize {
    if c.clipped && c.clip_end < buffer_len {
        c.clip_end
    } else {
        buffer_len
    }
}

/// Where the playhead goes back to when it runs past the end: the start of
/// the clip when clipping and that start lies before the end, else 0.
pub open spec fn restart_position(c: Controls, buffer_len: usize) -> usize {
    if c.clipped && c.clip_start < playable_len(c, buffer_len) {
        c.clip_start
    } else {
        0
    }
}

/// The clip position that a duration, or its absence, sets.
pub open spec fn clip_value<F: Fn(Duration) -> usize>(f: F, pos: Option<Duration>, v: usize) -> bool {
    match pos {
        Some(d) => call_ensures(f, (d,), v),
        None => v == usize::MAX,
    }
}

impl Controls {
    /// A playhead at the start, playing, not looping, not clipped, at full
    /// volume.
    pub fn new() -> (r: Self)
        ensures
            r == (Controls {
                playing: true,
                looping: false,
                ending: false,
                cursor: 0,
                clipped: false,
                clip_start: usize::MAX,
                clip_end: usize::MAX,
                volume: 100,
            }),
    {
        Controls {
            playing: true,
            looping: false,
            ending: false,
            cursor: 0,
            clipped: false,
            clip_start: usize::MAX,
            clip_end: usize::MAX,
            volume: 100,
        }
    }

    /// Applies an update; `to_samples` turns each duration in it into a
    /// position.
    pub fn apply<F: Fn(Duration) -> usize>(&mut self, update: &Update, to_samples: F)
        requires
            forall|d: Duration| to_samples.requires((d,)),
        ensures
            old(self).volume <= 100 ==> final(self).volume <= 100,
            final(self).playing == match update.spec_changes().playing {
                Some(v) => v,
                None => old(self).playing,
            },
            final(self).looping == match update.spec_changes().looping {
                Some(v) => v,
                None => old(self).looping,
            },
            final(self).clipped == match update.spec_changes().clipped {
                Some(v) => v,
                None => old(self).clipped,
            },
            final(self).volume == match update.spec_changes().volume {
                Some(v) => v,
                None => old(self).volume,
            },
            match update.spec_changes().clip_start {
                Some(pos) => clip_value(to_samples, pos, final(self).clip_start),
                None => final(self).clip_start == old(self).clip_start,
            },
            match update.spec_changes().clip_end {
                Some(pos) => clip_value(to_samples, pos, final(self).clip_end),
                None => final(self).clip_end == old(self).clip_end,
            },
            match update.spec_changes().set {
                Some(d) => call_ensures(to_samples, (d,), final(self).cursor),
                None => final(self).cursor == old(self).cursor,
            },
            final(self).ending == old(self).ending,
    {
        proof {
            use_type_invariant(update);
        }
        if let Some(playing) = update.changes.playing {
            self.playing = playing;
        }
        if let Some(looping) = update.changes.looping {
            self.looping = looping;
        }
        if let Some(pos) = update.changes.clip_start {
            if let Some(pos) = pos {
                self.clip_start = to_samples(pos);
            } else {
                self.clip_start = usize::MAX;
            }
        }
        if let Some(pos) = update.changes.clip_end {
            if let Some(pos) = pos {
                self.clip_end = to_samples(pos);
            } else {
                self.clip_end = usize::MAX;
            }
        }
        if let Some(clipped) = update.changes.clipped {
            self.clipped = clipped;
        }
        if let Some(volume) = update.changes.volume {
            self.volume = volume;
        }
        if let Some(value) = update.changes.set {
            self.cursor = to_samples(value);
        }
    }

    /// The start of the clip, if it is set.
    pub fn clip_start_position(&self) -> (r: Option<usize>)
        ensures
            r == (if self.clip_start == usize::MAX {
                None::<usize>
            } else {
                Some(self.clip_start)
            }),
    {
        if self.clip_start == usize::MAX {
            None
        } else {
            Some(self.clip_start)
        }
    }

    /// The end of the clip, if it is set.
    pub fn clip_end_position(&self) -> (r: Option<usize>)
        ensures
            r == (if self.clip_end == usize::MAX {
                None::<usize>
            } else {
                Some(self.clip_end)
            }),
    {
        if self.clip_end == usize::MAX {
            None
        } else {
            Some(self.clip_end)
        }
    }

    /// One step of playback over a buffer of `buffer_len` samples: gives the
    /// index of the sample to play, or `None` for silence.
    ///
    /// A stopped playhead stays as it is. A playing one plays the sample
    /// under the cursor and moves on while the cursor is before the end of
    /// what can be played; past it, a looping or clipping playhead goes back
    /// to its restart position (and a clipping one that does not loop stops
    /// where the cursor is exactly at the end), any other stops. Unclipped,
    /// the end is that of the buffer and a loop starts again at 0, wherever a
    /// clip would start; clipped, the end is the clip's end where that lies
    /// within the buffer, and the loop starts at the clip's start where that
    /// lies before the end.
    pub fn next(&mut self, buffer_len: usize) -> (r: Option<usize>)
        ensures
            ({
                let o = *old(self);
                let f = *final(self);
                let end = playable_len(o, buffer_len);
                if !o.playing {
                    r is None && f == o
                } else if o.cursor < end {
                    r == Some(o.cursor) && f == (Controls { cursor: (o.cursor + 1) as usize, ..o })
                } else if o.looping || o.clipped {
                    &&& r is None
                    &&& f == (Controls {
                        cursor: restart_position(o, buffer_len),
                        playing: o.looping || o.cursor != end,
                        ..o
                    })
                } else {
                    r is None && f == (Controls {
                        cursor: o.cursor.wrapping_add(1),
                        playing: false,
                        ..o
                    })
                }
            }),
            old(self).playing && !old(self).clipped ==> (r is Some <==> old(self).cursor
                < buffer_len),
            old(self).playing && !old(self).clipped && old(self).looping && old(self).cursor
                >= buffer_len ==> final(self).cursor == 0 && final(self).playing,
            old(self).playing && old(self).clipped && old(self).cursor >= (if old(self).clip_end
                < buffer_len {
                old(self).clip_end
            } else {
                buffer_len
            }) ==> r is None && final(self).cursor == (if old(self).clip_start < (if old(
                self,
            ).clip_end < buffer_len {
                old(self).clip_end
            } else {
                buffer_len
            }) {
                old(self).clip_start
            } else {
                0
            }),
            !old(self).playing ==> *final(self) == *old(self) && r is None,
    {
        if !self.playing {
            return None;
        }
        let cursor = self.cursor;
        self.cursor = cursor.wrapping_add(1);
        let end = if self.clipped && self.clip_end < buffer_len {
            self.clip_end
        } else {
            buffer_len
        };
        if cursor < end {
            Some(cursor)
        } else {
            if self.looping || self.clipped {
                let mut start: usize = 0;
                if self.clipped {
                    start = self.clip_start;
                    if start >= end {
                        start = 0;
                    }
                }
                self.cursor = start;
                if !self.looping && cursor == end {
                    self.playing = false;
                }
            } else {
                self.playing = false;
            }
            None
        }
    }
}

} // verus!
