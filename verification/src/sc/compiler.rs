//! The last pass of the synth definition compiler: unit generators whose
//! outputs nothing uses and that have no side effects are removed, and the
//! rest and their constants are numbered afresh.
use crate::sc::builder::UgenMeta;
use crate::sc::synthdef::{CalculationRate, Input, UGen, UGenModel};
use std::collections::HashMap;
use vstd::prelude::*;

verus! {

/// The first index at which `v` occurs in `t` (its length where it does
/// not occur).
pub open spec fn position(t: Seq<u32>, v: u32) -> nat
    decreases t.len(),
{
    if t.len() == 0 {
        0
    } else if t.last() == v && !t.drop_last().contains(v) {
        (t.len() - 1) as nat
    } else if t.drop_last().contains(v) {
        position(t.drop_last(), v)
    } else {
        t.len()
    }
}

/// `t` with `v` at its end unless it holds `v` already.
pub open spec fn add_value(t: Seq<u32>, v: u32) -> Seq<u32> {
    if t.contains(v) {
        t
    } else {
        t.push(v)
    }
}

proof fn lemma_position_push(t: Seq<u32>, v: u32, w: u32)
    requires
        t.contains(w),
    ensures
        position(t.push(v), w) == position(t, w),
{
    assert(t.push(v).drop_last() == t);
    assert(t.push(v).last() == v);
}

proof fn lemma_position_new(t: Seq<u32>, v: u32)
    requires
        !t.contains(v),
    ensures
        position(t.push(v), v) == t.len(),
{
    assert(t.push(v).drop_last() == t);
}

/// The constants of a definition, each once, with the index of each.
pub struct ConstIds {
    values: Vec<u32>,
    ids: HashMap<u32, i32>,
}

impl ConstIds {
    pub closed spec fn spec_values(&self) -> Seq<u32> {
        self.values@
    }

    /// Each value is known under the index where it first occurs.
    pub closed spec fn wf(&self) -> bool {
        &&& forall|v: u32| #[trigger] self.ids@.contains_key(v) <==> self.values@.contains(v)
        &&& forall|v: u32|
            self.ids@.contains_key(v) ==> #[trigger] self.ids@[v] == position(self.values@, v) as i32
    }

    pub fn new() -> (r: Self)
        ensures
            r.wf(),
            r.spec_values() == Seq::<u32>::empty(),
    {
        ConstIds { values: Vec::new(), ids: HashMap::new() }
    }

    /// The values, in the order they were first given.
    pub fn into_values(self) -> (r: Vec<u32>)
        ensures
            r@ == self.spec_values(),
    {
        self.values
    }

    /// The index of `value` (the bit pattern of a float), added at the end
    /// where it is new.
    pub fn get(&mut self, value: u32) -> (r: i32)
        requires
            old(self).wf(),
        ensures
            final(self).wf(),
            final(self).spec_values() == add_value(old(self).spec_values(), value),
            r == position(final(self).spec_values(), value) as i32,
    {
        broadcast use vstd::std_specs::hash::group_hash_axioms;

        match self.ids.get(&value) {
            Some(index) => {
                let index = *index;
                assert(self.ids@.contains_key(value));
                index
            },
            None => {
                let ghost old_values = self.values@;
                let index = self.values.len() as i32;
                self.values.push(value);
                self.ids.insert(value, index);
                proof {
                    lemma_position_new(old_values, value);
                    assert forall|v: u32| #[trigger] self.ids@.contains_key(v) <==> self.values@.contains(v) by {
                        if v != value && old_values.contains(v) {
                            let i = choose|i: int| 0 <= i < old_values.len() && old_values[i] == v;
                            assert(self.values@[i] == v);
                        }
                        if v == value {
                            assert(self.values@[old_values.len() as int] == v);
                        }
                        if self.values@.contains(v) && v != value {
                            let i = choose|i: int| 0 <= i < self.values@.len() && self.values@[i] == v;
                            assert(old_values[i] == v);
                        }
                    }
                    assert forall|v: u32| self.ids@.contains_key(v) implies #[trigger] self.ids@[v]
                        == position(self.values@, v) as i32 by {
                        if v != value {
                            lemma_position_push(old_values, value, v);
                        }
                    }
                }
                index
            },
        }
    }
}

// ---------------------------------------------------------------------------
// Removing unused unit generators.
// ---------------------------------------------------------------------------

/// The number of inputs among `ins` that read an output of unit generator
/// `j`.
pub open spec fn refs_in(ins: Seq<Input>, j: int) -> nat
    decreases ins.len(),
{
    if ins.len() == 0 {
        0
    } else {
        refs_in(ins.drop_last(), j) + match ins.last() {
            Input::UGen { index, .. } => if index == j {
                1nat
            } else {
                0nat
            },
            Input::Constant { .. } => 0nat,
        }
    }
}

/// The number of inputs of the first `n` unit generators that read an
/// output of unit generator `j`.
pub open spec fn refs(ugens: Seq<UGenModel>, j: int, n: int) -> nat
    decreases n,
{
    if n <= 0 {
        0
    } else {
        refs(ugens, j, n - 1) + refs_in(ugens[n - 1].ins, j)
    }
}

/// Whether the unit generators only read outputs of unit generators before
/// them, and only constants that exist: the order a graph is built in.
pub open spec fn well_ordered(ugens: Seq<UGenModel>, nconsts: int) -> bool {
    forall|i: int, k: int|
        0 <= i < ugens.len() && 0 <= k < ugens[i].ins.len() ==> match #[trigger] ugens[i].ins[k] {
            Input::UGen { index, .. } => 0 <= index < i,
            Input::Constant { index } => 0 <= index < nconsts,
        }
}

/// The counts of uses after each input among `ins` that reads a unit
/// generator takes one off that generator's count.
pub open spec fn release(u: Seq<int>, ins: Seq<Input>) -> Seq<int>
    decreases ins.len(),
{
    if ins.len() == 0 {
        u
    } else {
        let u1 = release(u, ins.drop_last());
        match ins.last() {
            Input::UGen { index, .. } => u1.update(index as int, u1[index as int] - 1),
            Input::Constant { .. } => u1,
        }
    }
}

/// Whether unit generator `i` goes: nothing uses it and it has no side
/// effects.
pub open spec fn dropped(u: Seq<int>, meta: Seq<UgenMeta>, i: int) -> bool {
    u[i] == 0 && meta[i].is_pure
}

/// The counts of uses after the unit generators from `n - 1` down to 0
/// were looked at, each one that goes releasing its inputs.
pub open spec fn eliminate(ugens: Seq<UGenModel>, meta: Seq<UgenMeta>, u: Seq<int>, n: int) -> Seq<
    int,
>
    decreases n,
{
    if n <= 0 {
        u
    } else {
        let i = n - 1;
        let u2 = if dropped(u, meta, i) {
            release(u, ugens[i].ins)
        } else {
            u
        };
        eliminate(ugens, meta, u2, i)
    }
}

/// The number of unit generators before `i` that stay.
pub open spec fn kept_before(fu: Seq<int>, meta: Seq<UgenMeta>, i: int) -> nat
    decreases i,
{
    if i <= 0 {
        0
    } else {
        kept_before(fu, meta, i - 1) + if dropped(fu, meta, i - 1) {
            0nat
        } else {
            1nat
        }
    }
}

/// The new index of unit generator `j`; `usize::MAX` for one that goes.
pub open spec fn new_id(fu: Seq<int>, meta: Seq<UgenMeta>, j: int) -> usize {
    if dropped(fu, meta, j) {
        usize::MAX
    } else {
        kept_before(fu, meta, j) as usize
    }
}

/// The table of constants after the constants read by `ins` were added.
pub open spec fn add_inputs(t: Seq<u32>, prev: Seq<u32>, ins: Seq<Input>) -> Seq<u32>
    decreases ins.len(),
{
    if ins.len() == 0 {
        t
    } else {
        let t1 = add_inputs(t, prev, ins.drop_last());
        match ins.last() {
            Input::Constant { index } => add_value(t1, prev[index as int]),
            Input::UGen { .. } => t1,
        }
    }
}

/// The table of constants read by the first `n` unit generators that stay,
/// each once, in the order they are first read.
pub open spec fn const_table(
    prev: Seq<u32>,
    ugens: Seq<UGenModel>,
    fu: Seq<int>,
    meta: Seq<UgenMeta>,
    n: int,
) -> Seq<u32>
    decreases n,
{
    if n <= 0 {
        Seq::empty()
    } else {
        let t = const_table(prev, ugens, fu, meta, n - 1);
        if dropped(fu, meta, n - 1) {
            t
        } else {
            add_inputs(t, prev, ugens[n - 1].ins)
        }
    }
}

/// An input numbered afresh: a constant by its place in the new table, a
/// unit generator by its new index.
pub open spec fn renumber(
    input: Input,
    table: Seq<u32>,
    prev: Seq<u32>,
    fu: Seq<int>,
    meta: Seq<UgenMeta>,
) -> Input {
    match input {
        Input::Constant { index } => Input::Constant {
            index: position(table, prev[index as int]) as i32,
        },
        Input::UGen { index, output } => Input::UGen {
            index: new_id(fu, meta, index as int) as i32,
            output,
        },
    }
}

pub open spec fn renumber_ugen(
    u: UGenModel,
    table: Seq<u32>,
    prev: Seq<u32>,
    fu: Seq<int>,
    meta: Seq<UgenMeta>,
) -> UGenModel {
    UGenModel { ins: u.ins.map_values(|i: Input| renumber(i, table, prev, fu, meta)), ..u }
}

/// The first `n` unit generators that stay, numbered afresh.
pub open spec fn optimized(
    ugens: Seq<UGenModel>,
    table: Seq<u32>,
    prev: Seq<u32>,
    fu: Seq<int>,
    meta: Seq<UgenMeta>,
    n: int,
) -> Seq<UGenModel>
    decreases n,
{
    if n <= 0 {
        Seq::empty()
    } else {
        let s = optimized(ugens, table, prev, fu, meta, n - 1);
        if dropped(fu, meta, n - 1) {
            s
        } else {
            s.push(renumber_ugen(ugens[n - 1], table, prev, fu, meta))
        }
    }
}

/// Counts of uses as integers.
pub open spec fn counts(u: Seq<usize>) -> Seq<int> {
    u.map_values(|x: usize| x as int)
}

/// The views of unit generators.
pub open spec fn models(ugens: Seq<UGen>) -> Seq<UGenModel> {
    ugens.map_values(|u: UGen| u@)
}

proof fn lemma_refs_in_take(ins: Seq<Input>, j: int, t: int)
    requires
        0 <= t < ins.len(),
    ensures
        refs_in(ins.take(t + 1), j) == refs_in(ins.take(t), j) + match ins[t] {
            Input::UGen { index, .. } => if index == j {
                1nat
            } else {
                0nat
            },
            Input::Constant { .. } => 0nat,
        },
{
    assert(ins.take(t + 1).drop_last() == ins.take(t));
}

proof fn lemma_refs_in_prefix(ins: Seq<Input>, j: int, t: int)
    requires
        0 <= t <= ins.len(),
    ensures
        refs_in(ins.take(t), j) <= refs_in(ins, j),
    decreases ins.len() - t,
{
    if t < ins.len() {
        lemma_refs_in_take(ins, j, t);
        lemma_refs_in_prefix(ins, j, t + 1);
    } else {
        assert(ins.take(t) == ins);
    }
}

/// Takes one off the count of each unit generator that an input among
/// `ins` reads.
fn release_inputs(ins: &Vec<Input>, uses: &mut Vec<usize>, Ghost(floor): Ghost<Seq<int>>)
    requires
        forall|k: int|
            0 <= k < ins@.len() ==> match #[trigger] ins@[k] {
                Input::UGen { index, .. } => 0 <= index < old(uses)@.len(),
                Input::Constant { .. } => true,
            },
        floor.len() == old(uses)@.len(),
        forall|j: int|
            0 <= j < old(uses)@.len() ==> #[trigger] old(uses)@[j] >= floor[j] + refs_in(ins@, j),
        forall|j: int| 0 <= j < floor.len() ==> #[trigger] floor[j] >= 0,
    ensures
        counts(final(uses)@) == release(counts(old(uses)@), ins@),
        final(uses)@.len() == old(uses)@.len(),
        forall|j: int| 0 <= j < final(uses)@.len() ==> #[trigger] final(uses)@[j] >= floor[j],
{
    let mut t: usize = 0;
    while t < ins.len()
        invariant
            t <= ins@.len(),
            uses@.len() == old(uses)@.len(),
            forall|k: int|
                0 <= k < ins@.len() ==> match #[trigger] ins@[k] {
                    Input::UGen { index, .. } => 0 <= index < old(uses)@.len(),
                    Input::Constant { .. } => true,
                },
            counts(uses@) == release(counts(old(uses)@), ins@.take(t as int)),
            forall|j: int|
                0 <= j < uses@.len() ==> #[trigger] uses@[j] + refs_in(ins@.take(t as int), j) >= floor[j]
                    + refs_in(ins@, j),
            forall|j: int| 0 <= j < floor.len() ==> #[trigger] floor[j] >= 0,
            floor.len() == old(uses)@.len(),
        decreases ins@.len() - t,
    {
        proof {
            assert(ins@.take(t + 1).drop_last() == ins@.take(t as int));
            assert forall|j: int| 0 <= j < uses@.len() implies refs_in(ins@.take(t + 1), j) <= refs_in(
                ins@,
                j,
            ) && refs_in(ins@.take(t + 1), j) == refs_in(ins@.take(t as int), j) + match ins@[t as int] {
                Input::UGen { index, .. } => if index == j {
                    1nat
                } else {
                    0nat
                },
                Input::Constant { .. } => 0nat,
            } by {
                lemma_refs_in_take(ins@, j, t as int);
                lemma_refs_in_prefix(ins@, j, t + 1);
            }
        }
        match ins[t] {
            Input::UGen { index, .. } => {
                let j = index as usize;
                proof {
                    assert(uses@[j as int] + refs_in(ins@.take(t as int), j as int) >= floor[j as int]
                        + refs_in(ins@, j as int));
                }
                let v = uses[j] - 1;
                uses.set(j, v);
            },
            Input::Constant { .. } => {},
        }
        proof {
            assert(counts(uses@) =~= release(counts(old(uses)@), ins@.take(t + 1)));
        }
        t = t + 1;
    }
    proof {
        assert(ins@.take(ins@.len() as int) == ins@);
    }
}

/// Looks at the unit generators from the last to the first; each that
/// nothing uses and that has no side effects releases its inputs.
fn eliminate_unused(
    ugens: &Vec<UGen>,
    uses: &mut Vec<usize>,
    meta: &Vec<UgenMeta>,
    Ghost(nconsts): Ghost<int>,
)
    requires
        ugens@.len() == old(uses)@.len(),
        ugens@.len() == meta@.len(),
        well_ordered(models(ugens@), nconsts),
        forall|j: int|
            0 <= j < ugens@.len() ==> #[trigger] old(uses)@[j] == refs(models(ugens@), j, ugens@.len() as int),
    ensures
        counts(final(uses)@) == eliminate(
            models(ugens@),
            meta@,
            counts(old(uses)@),
            ugens@.len() as int,
        ),
        final(uses)@.len() == old(uses)@.len(),
{
    let ghost m = models(ugens@);
    let ghost n = ugens@.len() as int;
    let mut k: usize = ugens.len();
    while k > 0
        invariant
            k <= n,
            n == ugens@.len(),
            m == models(ugens@),
            uses@.len() == n,
            meta@.len() == n,
            well_ordered(m, nconsts),
            eliminate(m, meta@, counts(uses@), k as int) == eliminate(m, meta@, counts(old(uses)@), n),
            forall|j: int| 0 <= j < n ==> #[trigger] uses@[j] >= refs(m, j, k as int),
        decreases k,
    {
        let i = k - 1;
        let ghost before = uses@;
        if uses[i] == 0 && meta[i].is_pure {
            let ghost floor = Seq::new(n as nat, |j: int| refs(m, j, i as int) as int);
            proof {
                assert(m[i as int] == ugens@[i as int]@);
                assert forall|t: int| 0 <= t < ugens@[i as int].ins@.len() implies match #[trigger] ugens@[i as int].ins@[t] {
                    Input::UGen { index, .. } => 0 <= index < uses@.len(),
                    Input::Constant { .. } => true,
                } by {
                    assert(m[i as int].ins[t] == ugens@[i as int].ins@[t]);
                }
                assert forall|j: int| 0 <= j < uses@.len() implies #[trigger] uses@[j] >= floor[j]
                    + refs_in(ugens@[i as int].ins@, j) by {
                    assert(refs(m, j, k as int) == refs(m, j, i as int) + refs_in(m[i as int].ins, j));
                }
            }
            release_inputs(&ugens[i].ins, uses, Ghost(floor));
            proof {
                assert(dropped(counts(before), meta@, i as int));
                assert(eliminate(m, meta@, counts(before), k as int) == eliminate(
                    m,
                    meta@,
                    release(counts(before), m[i as int].ins),
                    i as int,
                ));
            }
        } else {
            proof {
                assert(!dropped(counts(before), meta@, i as int));
                assert forall|j: int| 0 <= j < n implies #[trigger] uses@[j] >= refs(m, j, i as int) by {
                    assert(refs(m, j, k as int) == refs(m, j, i as int) + refs_in(m[i as int].ins, j));
                }
            }
        }
        k = i;
    }
}

/// Where `s` begins `t` and holds `v`, `v` is first found at the same place
/// in both.
proof fn lemma_position_prefix(s: Seq<u32>, t: Seq<u32>, v: u32)
    requires
        s.is_prefix_of(t),
        s.contains(v),
    ensures
        position(t, v) == position(s, v),
    decreases t.len(),
{
    if t.len() > s.len() {
        let i = choose|i: int| 0 <= i < s.len() && s[i] == v;
        assert(t.drop_last()[i] == v);
        assert(s.is_prefix_of(t.drop_last()));
        lemma_position_prefix(s, t.drop_last(), v);
    } else {
        assert(s == t);
    }
}

proof fn lemma_prefix_trans(a: Seq<u32>, b: Seq<u32>, c: Seq<u32>)
    requires
        a.is_prefix_of(b),
        b.is_prefix_of(c),
    ensures
        a.is_prefix_of(c),
{
    assert(a =~= c.subrange(0, a.len() as int));
}

/// Adding the constants of a list of inputs only appends to the table.
proof fn lemma_add_inputs_extends(t: Seq<u32>, prev: Seq<u32>, ins: Seq<Input>, a: int)
    requires
        0 <= a <= ins.len(),
    ensures
        add_inputs(t, prev, ins.take(a)).is_prefix_of(add_inputs(t, prev, ins)),
        t.is_prefix_of(add_inputs(t, prev, ins)),
    decreases ins.len(),
{
    if ins.len() == 0 {
        assert(ins.take(a) == ins);
    } else {
        let init = ins.drop_last();
        let t1 = add_inputs(t, prev, init);
        let t2 = add_inputs(t, prev, ins);
        assert(t1.is_prefix_of(t2)) by {
            match ins.last() {
                Input::Constant { index } => {
                    assert(t1 =~= t2.subrange(0, t1.len() as int));
                },
                Input::UGen { .. } => {},
            }
        }
        if a < ins.len() {
            lemma_add_inputs_extends(t, prev, init, a);
            assert(init.take(a) == ins.take(a));
            lemma_prefix_trans(add_inputs(t, prev, ins.take(a)), t1, t2);
        } else {
            assert(ins.take(a) == ins);
        }
        lemma_add_inputs_extends(t, prev, init, 0);
        lemma_prefix_trans(t, t1, t2);
    }
}

/// The table of the first `i` unit generators begins the table of the
/// first `n`.
proof fn lemma_const_table_extends(
    prev: Seq<u32>,
    ugens: Seq<UGenModel>,
    fu: Seq<int>,
    meta: Seq<UgenMeta>,
    i: int,
    n: int,
)
    requires
        0 <= i <= n,
    ensures
        const_table(prev, ugens, fu, meta, i).is_prefix_of(const_table(prev, ugens, fu, meta, n)),
    decreases n - i,
{
    if i < n {
        lemma_const_table_extends(prev, ugens, fu, meta, i, n - 1);
        let a = const_table(prev, ugens, fu, meta, n - 1);
        let b = const_table(prev, ugens, fu, meta, n);
        if !dropped(fu, meta, n - 1) {
            lemma_add_inputs_extends(a, prev, ugens[n - 1].ins, 0);
        }
        lemma_prefix_trans(const_table(prev, ugens, fu, meta, i), a, b);
    }
}

proof fn lemma_optimized_len(
    ugens: Seq<UGenModel>,
    table: Seq<u32>,
    prev: Seq<u32>,
    fu: Seq<int>,
    meta: Seq<UgenMeta>,
    n: int,
)
    requires
        n >= 0,
    ensures
        optimized(ugens, table, prev, fu, meta, n).len() == kept_before(fu, meta, n),
    decreases n,
{
    if n > 0 {
        lemma_optimized_len(ugens, table, prev, fu, meta, n - 1);
    }
}

/// Renumbers the inputs of one unit generator that stays, adding the
/// constants it reads to the table.
fn renumber_inputs(
    ins: &Vec<Input>,
    prev: &Vec<u32>,
    consts: &mut ConstIds,
    ids: &Vec<usize>,
    Ghost(table): Ghost<Seq<u32>>,
    Ghost(fu): Ghost<Seq<int>>,
    Ghost(meta): Ghost<Seq<UgenMeta>>,
    Ghost(pos): Ghost<int>,
) -> (r: Vec<Input>)
    requires
        old(consts).wf(),
        add_inputs(old(consts).spec_values(), prev@, ins@).is_prefix_of(table),
        forall|k: int|
            0 <= k < ins@.len() ==> match #[trigger] ins@[k] {
                Input::UGen { index, .. } => 0 <= index < pos,
                Input::Constant { index } => 0 <= index < prev@.len(),
            },
        pos <= ids@.len(),
        forall|j: int| 0 <= j < pos ==> #[trigger] ids@[j] == new_id(fu, meta, j),
    ensures
        final(consts).wf(),
        final(consts).spec_values() == add_inputs(old(consts).spec_values(), prev@, ins@),
        r@ == ins@.map_values(|i: Input| renumber(i, table, prev@, fu, meta)),
{
    let ghost start = consts.spec_values();
    let mut out: Vec<Input> = Vec::new();
    let mut t: usize = 0;
    while t < ins.len()
        invariant
            t <= ins@.len(),
            consts.wf(),
            consts.spec_values() == add_inputs(start, prev@, ins@.take(t as int)),
            add_inputs(start, prev@, ins@).is_prefix_of(table),
            forall|k: int|
                0 <= k < ins@.len() ==> match #[trigger] ins@[k] {
                    Input::UGen { index, .. } => 0 <= index < pos,
                    Input::Constant { index } => 0 <= index < prev@.len(),
                },
            pos <= ids@.len(),
            forall|j: int| 0 <= j < pos ==> #[trigger] ids@[j] == new_id(fu, meta, j),
            out@ == ins@.take(t as int).map_values(|i: Input| renumber(i, table, prev@, fu, meta)),
        decreases ins@.len() - t,
    {
        proof {
            assert(ins@.take(t + 1).drop_last() == ins@.take(t as int));
            lemma_add_inputs_extends(start, prev@, ins@, t + 1);
            lemma_prefix_trans(
                add_inputs(start, prev@, ins@.take(t + 1)),
                add_inputs(start, prev@, ins@),
                table,
            );
        }
        let input = ins[t];
        let renumbered = match input {
            Input::Constant { index } => {
                let value = prev[index as usize];
                let c = consts.get(value);
                proof {
                    let cur = consts.spec_values();
                    assert(cur == add_inputs(start, prev@, ins@.take(t + 1)));
                    assert(cur.contains(value)) by {
                        if !add_inputs(start, prev@, ins@.take(t as int)).contains(value) {
                            assert(cur.last() == value);
                        }
                    }
                    lemma_position_prefix(cur, table, value);
                }
                Input::Constant { index: c }
            },
            Input::UGen { index, output } => {
                let id = ids[index as usize];
                Input::UGen { index: id as i32, output }
            },
        };
        out.push(renumbered);
        proof {
            assert(out@ =~= ins@.take(t + 1).map_values(
                |i: Input| renumber(i, table, prev@, fu, meta),
            ));
        }
        t = t + 1;
    }
    proof {
        assert(ins@.take(ins@.len() as int) == ins@);
    }
    out
}

/// Removes the unit generators that nothing uses and that have no side
/// effects (looking from the last to the first, so that what only they
/// used goes too), then numbers the rest in order and gives them a table of
/// the constants they read, each once, in the order first read.
///
/// `prev_consts` are the constants the inputs refer to by index (bit
/// patterns of floats), `uses` counts the inputs that read each unit
/// generator and `meta` tells which have no side effects. A unit generator
/// that stays but reads one that went would get the index
/// `usize::MAX as i32`.
pub fn optimize(prev_consts: &Vec<u32>, ugens: Vec<UGen>, uses: Vec<usize>, meta: &Vec<UgenMeta>) -> (r: (
    Vec<u32>,
    Vec<UGen>,
))
    requires
        ugens@.len() == uses@.len(),
        ugens@.len() == meta@.len(),
        well_ordered(models(ugens@), prev_consts@.len() as int),
        forall|j: int|
            0 <= j < ugens@.len() ==> #[trigger] uses@[j] == refs(models(ugens@), j, ugens@.len() as int),
    ensures
        ({
            let m = models(ugens@);
            let n = ugens@.len() as int;
            let fu = eliminate(m, meta@, counts(uses@), n);
            let table = const_table(prev_consts@, m, fu, meta@, n);
            &&& r.0@ == table
            &&& models(r.1@) == optimized(m, table, prev_consts@, fu, meta@, n)
        }),
{
    let ghost m = models(ugens@);
    let ghost n = ugens@.len() as int;
    let mut uses = uses;
    eliminate_unused(&ugens, &mut uses, meta, Ghost(prev_consts@.len() as int));
    let ghost fu = counts(uses@);
    let ghost table = const_table(prev_consts@, m, fu, meta@, n);

    let mut ids: Vec<usize> = Vec::new();
    let mut z: usize = 0;
    while z < ugens.len()
        invariant
            z <= ugens@.len(),
            ids@ == Seq::new(z as nat, |j: int| usize::MAX),
        decreases ugens@.len() - z,
    {
        ids.push(usize::MAX);
        z = z + 1;
    }

    let mut consts = ConstIds::new();
    let mut out: Vec<UGen> = Vec::new();
    let mut idx: usize = 0;
    while idx < ugens.len()
        invariant
            idx <= n,
            n == ugens@.len(),
            m == models(ugens@),
            uses@.len() == n,
            meta@.len() == n,
            fu == counts(uses@),
            table == const_table(prev_consts@, m, fu, meta@, n),
            well_ordered(m, prev_consts@.len() as int),
            consts.wf(),
            consts.spec_values() == const_table(prev_consts@, m, fu, meta@, idx as int),
            ids@.len() == n,
            forall|j: int| 0 <= j < idx ==> #[trigger] ids@[j] == new_id(fu, meta@, j),
            forall|j: int| idx <= j < n ==> #[trigger] ids@[j] == usize::MAX,
            models(out@) == optimized(m, table, prev_consts@, fu, meta@, idx as int),
            out@.len() == kept_before(fu, meta@, idx as int),
        decreases n - idx,
    {
        let ghost before = consts.spec_values();
        if uses[idx] == 0 && meta[idx].is_pure {
            proof {
                assert(dropped(fu, meta@, idx as int));
                assert(models(out@) == optimized(m, table, prev_consts@, fu, meta@, idx + 1));
            }
        } else {
            let ugen = &ugens[idx];
            proof {
                assert(m[idx as int] == ugen@);
                assert(!dropped(fu, meta@, idx as int));
                lemma_const_table_extends(prev_consts@, m, fu, meta@, idx + 1, n);
                assert forall|k: int| 0 <= k < ugen.ins@.len() implies match #[trigger] ugen.ins@[k] {
                    Input::UGen { index, .. } => 0 <= index < idx,
                    Input::Constant { index } => 0 <= index < prev_consts@.len(),
                } by {
                    assert(m[idx as int].ins[k] == ugen.ins@[k]);
                }
            }
            let ins = renumber_inputs(
                &ugen.ins,
                prev_consts,
                &mut consts,
                &ids,
                Ghost(table),
                Ghost(fu),
                Ghost(meta@),
                Ghost(idx as int),
            );
            let mut outs: Vec<CalculationRate> = Vec::new();
            let mut o: usize = 0;
            while o < ugen.outs.len()
                invariant
                    o <= ugen.outs@.len(),
                    outs@ == ugen.outs@.take(o as int),
                decreases ugen.outs@.len() - o,
            {
                outs.push(ugen.outs[o]);
                proof {
                    assert(ugen.outs@.take(o + 1) == ugen.outs@.take(o as int).push(ugen.outs@[o as int]));
                }
                o = o + 1;
            }
            proof {
                assert(ugen.outs@.take(ugen.outs@.len() as int) == ugen.outs@);
            }
            let renumbered = UGen {
                name: ugen.name.clone(),
                rate: ugen.rate,
                ins,
                outs,
                special_index: ugen.special_index,
            };
            let position = out.len();
            let ghost out_before = out@;
            proof {
                assert(renumbered@ == renumber_ugen(m[idx as int], table, prev_consts@, fu, meta@));
            }
            out.push(renumbered);
            ids.set(idx, position);
            proof {
                assert(models(out@) =~= models(out_before).push(renumbered@));
            }
        }
        idx = idx + 1;
    }
    proof {
        lemma_optimized_len(m, table, prev_consts@, fu, meta@, n);
    }
    (consts.into_values(), out)
}

// ---------------------------------------------------------------------------
// No unit generator that stays reads one that goes.
// ---------------------------------------------------------------------------

/// The inputs among those of the first `k` unit generators that go which
/// read unit generator `j`.
pub open spec fn dropped_refs(m: Seq<UGenModel>, fu: Seq<int>, meta: Seq<UgenMeta>, j: int, k: int) -> int
    decreases k,
{
    if k <= 0 {
        0
    } else {
        dropped_refs(m, fu, meta, j, k - 1) + if dropped(fu, meta, k - 1) {
            refs_in(m[k - 1].ins, j) as int
        } else {
            0
        }
    }
}

/// The inputs among those of the first `k` unit generators that stay which
/// read unit generator `j`.
pub open spec fn kept_refs(m: Seq<UGenModel>, fu: Seq<int>, meta: Seq<UgenMeta>, j: int, k: int) -> int
    decreases k,
{
    if k <= 0 {
        0
    } else {
        kept_refs(m, fu, meta, j, k - 1) + if dropped(fu, meta, k - 1) {
            0
        } else {
            refs_in(m[k - 1].ins, j) as int
        }
    }
}

/// Releasing inputs that read unit generators before `b` leaves the counts
/// from `b` on as they were, and takes off each count the inputs that read
/// it.
proof fn lemma_release(u: Seq<int>, ins: Seq<Input>, b: int)
    requires
        b <= u.len(),
        forall|k: int|
            0 <= k < ins.len() ==> match #[trigger] ins[k] {
                Input::UGen { index, .. } => 0 <= index < b,
                Input::Constant { .. } => true,
            },
    ensures
        release(u, ins).len() == u.len(),
        forall|x: int| b <= x < u.len() ==> #[trigger] release(u, ins)[x] == u[x],
        forall|x: int| 0 <= x < u.len() ==> #[trigger] release(u, ins)[x] == u[x] - refs_in(ins, x),
    decreases ins.len(),
{
    if ins.len() > 0 {
        let init = ins.drop_last();
        assert forall|k: int| 0 <= k < init.len() implies match #[trigger] init[k] {
            Input::UGen { index, .. } => 0 <= index < b,
            Input::Constant { .. } => true,
        } by {
            assert(init[k] == ins[k]);
        }
        lemma_release(u, init, b);
        assert(ins[ins.len() - 1] == ins.last());
    }
}

/// Looking at the unit generators before `k` leaves the counts from `k` on
/// as they were.
proof fn lemma_eliminate_keeps_later(
    m: Seq<UGenModel>,
    meta: Seq<UgenMeta>,
    u: Seq<int>,
    k: int,
    nconsts: int,
)
    requires
        well_ordered(m, nconsts),
        u.len() == m.len(),
        meta.len() == m.len(),
        0 <= k <= m.len(),
    ensures
        eliminate(m, meta, u, k).len() == u.len(),
        forall|x: int| k <= x < u.len() ==> #[trigger] eliminate(m, meta, u, k)[x] == u[x],
    decreases k,
{
    if k > 0 {
        let i = k - 1;
        let u2 = if dropped(u, meta, i) {
            release(u, m[i].ins)
        } else {
            u
        };
        assert forall|t: int| 0 <= t < m[i].ins.len() implies match #[trigger] m[i].ins[t] {
            Input::UGen { index, .. } => 0 <= index < i,
            Input::Constant { .. } => true,
        } by {}
        lemma_release(u, m[i].ins, i);
        lemma_eliminate_keeps_later(m, meta, u2, i, nconsts);
    }
}

/// After looking at the first `k` unit generators, each count is what it
/// was less the inputs of those that went.
proof fn lemma_eliminate_counts(
    m: Seq<UGenModel>,
    meta: Seq<UgenMeta>,
    u: Seq<int>,
    k: int,
    nconsts: int,
)
    requires
        well_ordered(m, nconsts),
        u.len() == m.len(),
        meta.len() == m.len(),
        0 <= k <= m.len(),
    ensures
        forall|j: int|
            0 <= j < u.len() ==> #[trigger] eliminate(m, meta, u, k)[j] == u[j] - dropped_refs(
                m,
                eliminate(m, meta, u, k),
                meta,
                j,
                k,
            ),
    decreases k,
{
    if k > 0 {
        let i = k - 1;
        let u2 = if dropped(u, meta, i) {
            release(u, m[i].ins)
        } else {
            u
        };
        assert forall|t: int| 0 <= t < m[i].ins.len() implies match #[trigger] m[i].ins[t] {
            Input::UGen { index, .. } => 0 <= index < i,
            Input::Constant { .. } => true,
        } by {}
        lemma_release(u, m[i].ins, i);
        lemma_eliminate_counts(m, meta, u2, i, nconsts);
        lemma_eliminate_keeps_later(m, meta, u2, i, nconsts);
        let fu = eliminate(m, meta, u, k);
        assert(fu == eliminate(m, meta, u2, i));
        assert(fu[i] == u2[i]);
        assert(u2[i] == u[i]);
        assert(dropped(fu, meta, i) == dropped(u, meta, i));
    }
}

proof fn lemma_refs_split(m: Seq<UGenModel>, fu: Seq<int>, meta: Seq<UgenMeta>, j: int, k: int)
    requires
        k >= 0,
    ensures
        refs(m, j, k) - dropped_refs(m, fu, meta, j, k) == kept_refs(m, fu, meta, j, k),
        kept_refs(m, fu, meta, j, k) >= 0,
    decreases k,
{
    if k > 0 {
        lemma_refs_split(m, fu, meta, j, k - 1);
    }
}

proof fn lemma_kept_refs_at_least(
    m: Seq<UGenModel>,
    fu: Seq<int>,
    meta: Seq<UgenMeta>,
    j: int,
    i: int,
    k: int,
)
    requires
        0 <= i < k,
        !dropped(fu, meta, i),
    ensures
        kept_refs(m, fu, meta, j, k) >= refs_in(m[i].ins, j),
    decreases k,
{
    lemma_refs_split(m, fu, meta, j, k - 1);
    if i < k - 1 {
        lemma_kept_refs_at_least(m, fu, meta, j, i, k - 1);
    }
}

proof fn lemma_refs_in_read(ins: Seq<Input>, j: int, t: int)
    requires
        0 <= t < ins.len(),
        ins[t] matches Input::UGen { index, .. } && index == j,
    ensures
        refs_in(ins, j) >= 1,
{
    lemma_refs_in_take(ins, j, t);
    lemma_refs_in_prefix(ins, j, t + 1);
}

/// Where the counts of uses are exact, every unit generator that stays
/// after `optimize` reads only unit generators that stay.
pub proof fn lemma_kept_inputs_stay(
    m: Seq<UGenModel>,
    meta: Seq<UgenMeta>,
    uses: Seq<usize>,
    nconsts: int,
    i: int,
    t: int,
)
    requires
        well_ordered(m, nconsts),
        uses.len() == m.len(),
        meta.len() == m.len(),
        forall|j: int| 0 <= j < m.len() ==> #[trigger] uses[j] == refs(m, j, m.len() as int),
        0 <= i < m.len(),
        0 <= t < m[i].ins.len(),
        !dropped(eliminate(m, meta, counts(uses), m.len() as int), meta, i),
        m[i].ins[t] is UGen,
    ensures
        !dropped(eliminate(m, meta, counts(uses), m.len() as int), meta, m[i].ins[t]->UGen_index as int),
{
    let n = m.len() as int;
    let u = counts(uses);
    let fu = eliminate(m, meta, u, n);
    let j = m[i].ins[t]->UGen_index as int;
    assert(0 <= j < i);
    lemma_eliminate_counts(m, meta, u, n, nconsts);
    lemma_refs_split(m, fu, meta, j, n);
    lemma_refs_in_read(m[i].ins, j, t);
    lemma_kept_refs_at_least(m, fu, meta, j, i, n);
    assert(fu[j] == u[j] - dropped_refs(m, fu, meta, j, n));
    assert(u[j] == refs(m, j, n));
}

} // verus!
