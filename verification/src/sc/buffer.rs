//! Buffers of samples that a composition loads into the server.
use crate::sc::osc;
use core::time::Duration;
use vstd::prelude::*;

verus! {

/// The contents of a buffer as its user supplies them: their hash, the file
/// that holds them under a directory (paths are given as strings) and their
/// bytes.
pub trait Contents: Send + Sync {
    /// The hash that these contents give.
    spec fn spec_hash(&self) -> [u8; 32];

    /// The file that these contents give under the directory `out_dir`.
    spec fn spec_as_path<'a>(&'a self, out_dir: &'a str) -> &'a str;

    fn hash(&self) -> (r: &[u8; 32])
        ensures
            *r == self.spec_hash(),
    ;

    fn as_path<'a>(&'a self, out_dir: &'a str) -> (r: &'a str)
        ensures
            r@ == self.spec_as_path(out_dir)@,
    ;

    fn as_slice(&self) -> &[u8];
}

/// What `Duration::from_secs` gives for a number of whole seconds.
pub uninterp spec fn secs_duration(secs: u64) -> Duration;

/// What dividing a duration by a number gives.
pub uninterp spec fn divided_duration(d: Duration, rhs: u32) -> Duration;

/// Calls `Duration::from_secs`: the duration of `secs` whole seconds, which
/// depends on `secs` alone.
#[verifier::external_body]
fn duration_from_secs(secs: u64) -> (r: Duration)
    ensures
        r == secs_duration(secs),
{
    Duration::from_secs(secs)
}

/// Calls `<Duration as Div<u32>>::div`, which divides a duration by a
/// number and panics where the number is zero; the quotient depends on the
/// two operands alone.
#[verifier::external_body]
fn duration_div(d: Duration, rhs: u32) -> (r: Duration)
    requires
        rhs != 0,
    ensures
        r == divided_duration(d, rhs),
{
    d / rhs
}

/// A buffer of samples: its layout and its contents.
pub struct BufDef {
    pub channels: u32,
    pub sample_rate: u32,
    pub bit_depth: u16,
    pub frames: u32,
    pub contents: &'static dyn Contents,
}

impl BufDef {
    /// The hash of the contents, as the contents give it.
    pub fn hash(&self) -> (r: &'static [u8; 32])
        ensures
            *r == self.contents.spec_hash(),
    {
        self.contents.hash()
    }

    /// The file of the contents under `out_dir`, as the contents give it.
    pub fn path<'a>(&'a self, out_dir: &'a str) -> (r: &'a str)
        ensures
            r@ == self.contents.spec_as_path(out_dir)@,
    {
        self.contents.as_path(out_dir)
    }

    /// How long the buffer plays: its frames at its sample rate.
    pub fn duration(&self) -> (r: Duration)
        requires
            self.sample_rate != 0,
        ensures
            r == divided_duration(secs_duration(self.frames as u64), self.sample_rate),
    {
        duration_div(duration_from_secs(self.frames as u64), self.sample_rate)
    }
}

/// A range of frames of a buffer.
#[derive(Clone, Copy)]
pub struct BufView {
    start_frame: u32,
    end_frame: u32,
    def: &'static BufDef,
}

impl BufView {
    #[verifier::type_invariant]
    spec fn ordered(&self) -> bool {
        self.start_frame <= self.end_frame
    }

    pub closed spec fn spec_start(&self) -> u32 {
        self.start_frame
    }

    pub closed spec fn spec_end(&self) -> u32 {
        self.end_frame
    }

    pub closed spec fn spec_def(&self) -> &'static BufDef {
        self.def
    }

    /// The whole of a buffer.
    pub fn from_def(def: &'static BufDef) -> (r: Self)
        ensures
            r.spec_start() == 0,
            r.spec_end() == def.frames,
            r.spec_def() == def,
    {
        BufView { start_frame: 0, end_frame: def.frames, def }
    }

    /// The frames of the view, as a start and an end.
    pub fn frames(&self) -> (r: core::ops::Range<u32>)
        ensures
            r.start == self.spec_start(),
            r.end == self.spec_end(),
            r.start <= r.end,
    {
        proof {
            use_type_invariant(self);
        }
        self.start_frame..self.end_frame
    }

    /// The buffer the view is of.
    pub fn def(&self) -> (r: &'static BufDef)
        ensures
            r == self.spec_def(),
    {
        self.def
    }
}

/// A group of buffers, indexed round the group.
pub struct BufDefGroup {
    pub buffers: &'static [&'static BufDef],
}

impl BufDefGroup {
    pub fn len(&self) -> (r: usize)
        ensures
            r == self.buffers@.len(),
    {
        self.buffers.len()
    }

    pub fn is_empty(&self) -> (r: bool)
        ensures
            r == (self.buffers@.len() == 0),
    {
        self.len() == 0
    }

    /// The first buffer of the group.
    pub fn first(&self) -> (r: &'static BufDef)
        requires
            self.buffers@.len() > 0,
        ensures
            r == self.buffers@[0],
    {
        self.buffers[0]
    }

    /// The buffer at `index`, counted round the group.
    pub fn get(&self, index: usize) -> (r: &'static BufDef)
        requires
            self.buffers@.len() > 0,
        ensures
            r == self.buffers@[(index as int) % (self.buffers@.len() as int)],
    {
        self.buffers[index % self.len()]
    }
}

/// A buffer loaded into the server under an id.
#[derive(Clone, Copy)]
pub struct Buffer {
    id: osc::buffer::Id,
    view: BufView,
}

impl Buffer {
    pub closed spec fn spec_id(&self) -> osc::buffer::Id {
        self.id
    }

    pub closed spec fn spec_view(&self) -> BufView {
        self.view
    }

    pub fn new(id: osc::buffer::Id, view: BufView) -> (r: Self)
        ensures
            r.spec_id() == id,
            r.spec_view() == view,
    {
        Self { id, view }
    }

    pub fn id(&self) -> (r: osc::buffer::Id)
        ensures
            r == self.spec_id(),
    {
        self.id
    }

    pub fn view(&self) -> (r: &BufView)
        ensures
            *r == self.spec_view(),
    {
        &self.view
    }

    /// The command that loads the frames of the view from the file of its
    /// buffer under `out_dir`.
    pub fn to_osc<'a>(&'a self, out_dir: &'a str) -> (r: osc::buffer::AllocRead<'a>)
        ensures
            r.id == self.spec_id(),
            r.path@ == self.spec_view().spec_def().contents.spec_as_path(out_dir)@,
            r.offset == self.spec_view().spec_start() as i32,
            r.len == (self.spec_view().spec_end() - self.spec_view().spec_start()) as i32,
    {
        let view = self.view();
        let path = view.def().path(out_dir);
        let frames = view.frames();
        osc::buffer::AllocRead {
            id: self.id(),
            path,
            offset: frames.start as i32,
            len: (frames.end - frames.start) as i32,
        }
    }
}

} // verus!
