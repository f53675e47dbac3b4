//! Multichannel expansion: the inputs of a unit generator, each a list of
//! values, are read as channels, and the unit generator is instantiated once
//! for each channel of the widest input, the narrower inputs wrapping round.
use crate::sc::synthdef::{CalculationRate, Input};
use core::ops::Range;
use vstd::prelude::*;

verus! {

/// An input together with the rate at which it computes.
#[derive(Clone, Copy, Debug)]
pub struct InputInfo {
    pub input: Input,
    pub rate: CalculationRate,
}

/// The inputs of a unit generator being compiled: for each input, the
/// values given to it. An input that reads a unit generator reads one
/// channel from each of that generator's instantiations: `ranges` gives,
/// for each generator compiled so far, the range of `outputs` that its
/// instantiations produced.
pub struct Inputs<'a> {
    pub inputs: Vec<Vec<Input>>,
    pub ranges: &'a Vec<Range<usize>>,
    pub outputs: &'a Vec<Vec<InputInfo>>,
}

/// A value reads things that exist: a unit generator compiled before, whose
/// range of instantiations lies within `outputs`, each of which has the
/// output that is read.
pub open spec fn input_valid(
    input: Input,
    ranges: Seq<Range<usize>>,
    outputs: Seq<Vec<InputInfo>>,
) -> bool {
    match input {
        Input::UGen { index, output } => {
            &&& 0 <= index < ranges.len()
            &&& ranges[index as int].start <= ranges[index as int].end <= outputs.len()
            &&& 0 <= output
            &&& forall|m: int|
                ranges[index as int].start <= m < ranges[index as int].end ==> output
                    < (#[trigger] outputs[m])@.len()
        },
        Input::Constant { .. } => true,
    }
}

/// Every value of an input is valid.
pub open spec fn set_valid(
    set: Seq<Input>,
    ranges: Seq<Range<usize>>,
    outputs: Seq<Vec<InputInfo>>,
) -> bool {
    forall|k: int| 0 <= k < set.len() ==> input_valid(#[trigger] set[k], ranges, outputs)
}

/// The channels that a value stands for: the output it reads of each
/// instantiation of a unit generator, or a constant at scalar rate.
pub open spec fn value_channels(
    input: Input,
    ranges: Seq<Range<usize>>,
    outputs: Seq<Vec<InputInfo>>,
) -> Seq<InputInfo> {
    match input {
        Input::UGen { index, output } => {
            let r = ranges[index as int];
            Seq::new(
                (r.end - r.start) as nat,
                |m: int| outputs[r.start + m]@[output as int],
            )
        },
        Input::Constant { .. } => seq![InputInfo { input, rate: CalculationRate::Scalar }],
    }
}

/// The channels of an input: those of its values, one after another.
pub open spec fn input_channels(
    set: Seq<Input>,
    ranges: Seq<Range<usize>>,
    outputs: Seq<Vec<InputInfo>>,
) -> Seq<InputInfo>
    decreases set.len(),
{
    if set.len() == 0 {
        Seq::empty()
    } else {
        input_channels(set.drop_last(), ranges, outputs) + value_channels(
            set.last(),
            ranges,
            outputs,
        )
    }
}

/// The inputs before `j` are valid and have channels.
pub open spec fn valid_before(
    sets: Seq<Seq<Input>>,
    ranges: Seq<Range<usize>>,
    outputs: Seq<Vec<InputInfo>>,
    j: int,
) -> bool {
    forall|i: int|
        0 <= i < j ==> set_valid(#[trigger] sets[i], ranges, outputs) && input_channels(
            sets[i],
            ranges,
            outputs,
        ).len() > 0
}

/// What expansion reads is there: each input is valid that expansion
/// reaches, which is each input up to the first that has no channels. Its
/// channels are counted in a `usize`.
pub open spec fn expandable(
    sets: Seq<Seq<Input>>,
    ranges: Seq<Range<usize>>,
    outputs: Seq<Vec<InputInfo>>,
) -> bool {
    forall|j: int|
        0 <= j < sets.len() && valid_before(sets, ranges, outputs, j) ==> set_valid(
            #[trigger] sets[j],
            ranges,
            outputs,
        ) && input_channels(sets[j], ranges, outputs).len() <= usize::MAX
}

/// Some input has no channels.
pub open spec fn some_input_empty(
    sets: Seq<Seq<Input>>,
    ranges: Seq<Range<usize>>,
    outputs: Seq<Vec<InputInfo>>,
) -> bool {
    exists|j: int|
        0 <= j < sets.len() && input_channels(#[trigger] sets[j], ranges, outputs).len() == 0
}

/// The number of channels of the widest input.
pub open spec fn widest(
    sets: Seq<Seq<Input>>,
    ranges: Seq<Range<usize>>,
    outputs: Seq<Vec<InputInfo>>,
) -> nat
    decreases sets.len(),
{
    if sets.len() == 0 {
        0
    } else {
        let w = widest(sets.drop_last(), ranges, outputs);
        let l = input_channels(sets.last(), ranges, outputs).len();
        if w < l {
            l
        } else {
            w
        }
    }
}

/// The number of instantiations: none where some input has no channels,
/// else as many as the widest input has channels.
pub open spec fn expansion_len(
    sets: Seq<Seq<Input>>,
    ranges: Seq<Range<usize>>,
    outputs: Seq<Vec<InputInfo>>,
) -> nat {
    if some_input_empty(sets, ranges, outputs) {
        0
    } else {
        widest(sets, ranges, outputs)
    }
}

/// The channels `s` repeated round to `len` of them.
pub open spec fn cycled(s: Seq<InputInfo>, len: nat) -> Seq<InputInfo> {
    Seq::new(len, |k: int| s[k % s.len() as int])
}

/// The channels of each input, wrapped round to the number of
/// instantiations; none at all where there are no instantiations.
pub open spec fn expansion_inputs(
    sets: Seq<Seq<Input>>,
    ranges: Seq<Range<usize>>,
    outputs: Seq<Vec<InputInfo>>,
) -> Seq<Seq<InputInfo>> {
    let len = expansion_len(sets, ranges, outputs);
    if len == 0 {
        Seq::empty()
    } else {
        Seq::new(sets.len(), |j: int| cycled(input_channels(sets[j], ranges, outputs), len))
    }
}

/// The instantiations of a unit generator: their number, and for each input
/// the channel that each instantiation reads.
pub struct Expand {
    len: usize,
    inputs: Vec<Vec<InputInfo>>,
}

impl<'a> Inputs<'a> {
    pub open spec fn spec_sets(&self) -> Seq<Seq<Input>> {
        Seq::new(self.inputs@.len(), |j: int| self.inputs@[j]@)
    }

    pub open spec fn spec_expandable(&self) -> bool {
        expandable(self.spec_sets(), self.ranges@, self.outputs@)
    }

    pub fn new(
        inputs: Vec<Vec<Input>>,
        ranges: &'a Vec<Range<usize>>,
        outputs: &'a Vec<Vec<InputInfo>>,
    ) -> (r: Self)
        ensures
            r.inputs == inputs,
            r.ranges == ranges,
            r.outputs == outputs,
    {
        Inputs { inputs, ranges, outputs }
    }

    /// The instantiations that these inputs call for.
    pub fn expand(&self) -> (r: Expand)
        requires
            self.spec_expandable(),
        ensures
            r.spec_len() == expansion_len(self.spec_sets(), self.ranges@, self.outputs@),
            r.spec_inputs() == expansion_inputs(self.spec_sets(), self.ranges@, self.outputs@),
    {
        Expand::new(self)
    }
}

/// Appends the channels of one value.
fn push_value_channels(
    out: &mut Vec<InputInfo>,
    input: Input,
    ranges: &Vec<Range<usize>>,
    outputs: &Vec<Vec<InputInfo>>,
)
    requires
        input_valid(input, ranges@, outputs@),
    ensures
        final(out)@ == old(out)@ + value_channels(input, ranges@, outputs@),
{
    match input {
        Input::UGen { index, output } => {
            let r = &ranges[index as usize];
            let start = r.start;
            let end = r.end;
            let mut m = start;
            while m < end
                invariant
                    input_valid(input, ranges@, outputs@),
                    input == (Input::UGen { index, output }),
                    start == ranges@[index as int].start,
                    end == ranges@[index as int].end,
                    start <= m <= end,
                    out@ == old(out)@ + value_channels(input, ranges@, outputs@).subrange(
                        0,
                        m - start,
                    ),
                decreases end - m,
            {
                let o = &outputs[m];
                out.push(o[output as usize]);
                assert(value_channels(input, ranges@, outputs@).subrange(0, m + 1 - start)
                    =~= value_channels(input, ranges@, outputs@).subrange(0, m - start).push(
                    outputs@[m as int]@[output as int],
                ));
                m = m + 1;
            }
            assert(value_channels(input, ranges@, outputs@).subrange(0, end - start)
                =~= value_channels(input, ranges@, outputs@));
        },
        Input::Constant { .. } => {
            out.push(InputInfo { input, rate: CalculationRate::Scalar });
            assert(out@ =~= old(out)@ + value_channels(input, ranges@, outputs@));
        },
    }
}

/// The channels of one input.
fn channels_of(set: &Vec<Input>, ranges: &Vec<Range<usize>>, outputs: &Vec<Vec<InputInfo>>) -> (r:
    Vec<InputInfo>)
    requires
        set_valid(set@, ranges@, outputs@),
        input_channels(set@, ranges@, outputs@).len() <= usize::MAX,
    ensures
        r@ == input_channels(set@, ranges@, outputs@),
{
    let mut out: Vec<InputInfo> = Vec::new();
    let mut k: usize = 0;
    while k < set.len()
        invariant
            k <= set.len(),
            set_valid(set@, ranges@, outputs@),
            out@ == input_channels(set@.take(k as int), ranges@, outputs@),
        decreases set.len() - k,
    {
        assert(input_valid(set@[k as int], ranges@, outputs@));
        push_value_channels(&mut out, set[k], ranges, outputs);
        assert(set@.take(k + 1).drop_last() =~= set@.take(k as int));
        k = k + 1;
    }
    assert(set@.take(set.len() as int) =~= set@);
    out
}

impl Expand {
    #[verifier::type_invariant]
    spec fn inputs_as_long(&self) -> bool {
        forall|j: int| 0 <= j < self.inputs@.len() ==> (#[trigger] self.inputs@[j])@.len() == self.len
    }

    pub closed spec fn spec_len(&self) -> nat {
        self.len as nat
    }

    pub closed spec fn spec_inputs(&self) -> Seq<Seq<InputInfo>> {
        Seq::new(self.inputs@.len(), |j: int| self.inputs@[j]@)
    }

    /// The instantiations that `inputs` call for.
    pub fn new(inputs: &Inputs) -> (r: Self)
        requires
            inputs.spec_expandable(),
        ensures
            r.spec_len() == expansion_len(inputs.spec_sets(), inputs.ranges@, inputs.outputs@),
            r.spec_inputs() == expansion_inputs(inputs.spec_sets(), inputs.ranges@, inputs.outputs@),
    {
        let ghost sets = inputs.spec_sets();
        let ghost rs = inputs.ranges@;
        let ghost os = inputs.outputs@;
        let mut len: usize = 0;
        let mut channels: Vec<Vec<InputInfo>> = Vec::new();
        let mut j: usize = 0;
        while j < inputs.inputs.len()
            invariant
                j <= inputs.inputs.len(),
                sets == inputs.spec_sets(),
                rs == inputs.ranges@,
                os == inputs.outputs@,
                expandable(sets, rs, os),
                valid_before(sets, rs, os, j as int),
                len == widest(sets.take(j as int), rs, os),
                channels@.len() == j,
                forall|i: int|
                    0 <= i < j ==> (#[trigger] channels@[i])@ == input_channels(sets[i], rs, os),
            decreases inputs.inputs.len() - j,
        {
            assert(sets[j as int] == inputs.inputs@[j as int]@);
            let set_channels = channels_of(&inputs.inputs[j], inputs.ranges, inputs.outputs);
            assert(sets.take(j + 1).drop_last() =~= sets.take(j as int));
            if set_channels.len() == 0 {
                // an input without channels cancels every instantiation
                proof {
                    assert(some_input_empty(sets, rs, os));
                }
                return Expand { len: 0, inputs: Vec::new() };
            }
            if len < set_channels.len() {
                len = set_channels.len();
            }
            channels.push(set_channels);
            j = j + 1;
        }
        assert(sets.take(sets.len() as int) =~= sets);
        proof {
            if some_input_empty(sets, rs, os) {
                let i = choose|i: int|
                    0 <= i < sets.len() && input_channels(#[trigger] sets[i], rs, os).len() == 0;
                assert(input_channels(sets[i], rs, os).len() > 0);
            }
        }
        if len == 0 {
            return Expand { len: 0, inputs: Vec::new() };
        }
        let mut expanded: Vec<Vec<InputInfo>> = Vec::new();
        let mut j: usize = 0;
        while j < channels.len()
            invariant
                j <= channels.len(),
                channels@.len() == sets.len(),
                len > 0,
                len == expansion_len(sets, rs, os),
                valid_before(sets, rs, os, sets.len() as int),
                forall|i: int|
                    0 <= i < sets.len() ==> (#[trigger] channels@[i])@ == input_channels(
                        sets[i],
                        rs,
                        os,
                    ),
                expanded@.len() == j,
                forall|i: int|
                    0 <= i < j ==> (#[trigger] expanded@[i])@ == cycled(
                        input_channels(sets[i], rs, os),
                        len as nat,
                    ),
            decreases channels.len() - j,
        {
            let source = &channels[j];
            assert(source@.len() > 0);
            let mut wrapped: Vec<InputInfo> = Vec::new();
            let mut k: usize = 0;
            while k < len
                invariant
                    k <= len,
                    source@.len() > 0,
                    wrapped@.len() == k,
                    forall|m: int|
                        0 <= m < k ==> #[trigger] wrapped@[m] == source@[m % source@.len() as int],
                decreases len - k,
            {
                wrapped.push(source[k % source.len()]);
                k = k + 1;
            }
            assert(wrapped@ =~= cycled(source@, len as nat));
            expanded.push(wrapped);
            j = j + 1;
        }
        let r = Expand { len, inputs: expanded };
        assert(r.spec_inputs() =~= expansion_inputs(sets, rs, os));
        r
    }

    /// The number of instantiations.
    pub fn len(&self) -> (r: usize)
        ensures
            r == self.spec_len(),
    {
        self.len
    }

    /// What instantiation `idx` reads: the channel at `idx` of each input.
    pub fn expansion(&self, idx: usize) -> (r: Vec<InputInfo>)
        requires
            idx < self.spec_len(),
        ensures
            r@ == Seq::new(self.spec_inputs().len(), |j: int| self.spec_inputs()[j][idx as int]),
    {
        proof {
            use_type_invariant(self);
        }
        let mut r: Vec<InputInfo> = Vec::new();
        let mut j: usize = 0;
        while j < self.inputs.len()
            invariant
                j <= self.inputs@.len(),
                idx < self.spec_len(),
                forall|j: int| 0 <= j < self.spec_inputs().len() ==> #[trigger] self.spec_inputs()[j].len()
                    == self.spec_len(),
                r@ == Seq::new(j as nat, |k: int| self.spec_inputs()[k][idx as int]),
            decreases self.inputs@.len() - j,
        {
            assert(self.spec_inputs()[j as int] == self.inputs@[j as int]@);
            r.push(self.inputs[j][idx]);
            assert(r@ =~= Seq::new((j + 1) as nat, |k: int| self.spec_inputs()[k][idx as int]));
            j = j + 1;
        }
        r
    }

    /// Whether there are no instantiations.
    pub fn is_empty(&self) -> (r: bool)
        ensures
            r == (self.spec_len() == 0),
    {
        self.len == 0
    }
}

} // verus!
