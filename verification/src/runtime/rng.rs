use rand::rngs::StdRng;
use rand::seq::SliceRandom;
use rand::{Rng, SeedableRng};
use vstd::prelude::*;

verus! {

#[verifier::external_type_specification]
#[verifier::external_body]
pub struct ExStdRng(rand::rngs::StdRng);

/// Calls `rand::SeedableRng::seed_from_u64` for `StdRng`: a generator whose
/// whole sequence of numbers is fixed by `seed`. Nothing is stated of the
/// generator itself, which Verus does not see into.
#[verifier::external_body]
fn std_rng_from_seed(seed: u64) -> StdRng {
    StdRng::seed_from_u64(seed)
}

/// Calls `rand::Rng::gen_range` on the range `0..len`. The crate asserts that
/// the range is not empty and otherwise gives a number inside it; which one
/// depends on the generator's state.
#[verifier::external_body]
fn gen_index(rng: &mut StdRng, len: usize) -> (r: usize)
    requires
        len > 0,
    ensures
        r < len,
{
    rng.gen_range(0..len)
}

/// Calls `rand::Rng::gen_range` on a range of `u64`. The crate asserts
/// that the range is not empty and otherwise gives a number inside it;
/// which one depends on the generator's state.
#[verifier::external_body]
fn gen_u64_in(rng: &mut StdRng, start: u64, end: u64) -> (r: u64)
    requires
        start < end,
    ensures
        start <= r < end,
{
    rng.gen_range(start..end)
}

/// Calls `rand::Rng::gen` for a `u64`: any number, depending on the
/// generator's state.
#[verifier::external_body]
fn gen_u64_from(rng: &mut StdRng) -> u64 {
    rng.gen::<u64>()
}

/// Calls `rand::seq::SliceRandom::shuffle`, which goes down the slice and
/// swaps each item with one at a random index no greater than its own, so
/// the slice keeps its items in some order. Which order depends on the
/// generator's state.
#[verifier::external_body]
fn shuffle_items<T>(items: &mut [T], rng: &mut StdRng)
    ensures
        final(items)@.len() == old(items)@.len(),
        final(items)@.to_multiset() == old(items)@.to_multiset(),
{
    items.shuffle(rng)
}

/// Calls `<[T]>::swap`, which exchanges the items at `a` and `b` and panics
/// where either index is out of bounds.
#[verifier::external_body]
fn swap_items<T>(items: &mut [T], a: usize, b: usize)
    requires
        a < old(items)@.len(),
        b < old(items)@.len(),
    ensures
        final(items)@ == old(items)@.update(a as int, old(items)@[b as int]).update(
            b as int,
            old(items)@[a as int],
        ),
{
    items.swap(a, b)
}

/// A seed and the generator it seeded.
#[derive(Debug)]
pub struct Scope {
    seed: u64,
    rng: StdRng,
}

impl Scope {
    /// The seed the scope was made with.
    pub closed spec fn spec_seed(&self) -> u64 {
        self.seed
    }

    pub fn new(seed: u64) -> (r: Self)
        ensures
            r.spec_seed() == seed,
    {
        Self { seed, rng: std_rng_from_seed(seed) }
    }
}

/// The seed of the scope.
pub fn seed(scope: &Scope) -> (r: u64)
    ensures
        r == scope.spec_seed(),
{
    scope.seed
}

/// A random number.
pub fn gen_u64(scope: &mut Scope) -> (r: u64)
    ensures
        final(scope).spec_seed() == old(scope).spec_seed(),
{
    gen_u64_from(&mut scope.rng)
}

/// A random number in the range `range`, which must not be empty.
pub fn gen_range(scope: &mut Scope, range: core::ops::Range<u64>) -> (r: u64)
    requires
        range.start < range.end,
    ensures
        range.start <= r < range.end,
        final(scope).spec_seed() == old(scope).spec_seed(),
{
    gen_u64_in(&mut scope.rng, range.start, range.end)
}

/// Puts the items in a random order.
pub fn shuffle<T>(scope: &mut Scope, items: &mut [T])
    ensures
        final(items)@.len() == old(items)@.len(),
        final(items)@.to_multiset() == old(items)@.to_multiset(),
        final(scope).spec_seed() == old(scope).spec_seed(),
{
    shuffle_items(items, &mut scope.rng)
}

/// `s` with the items at `a` and `b` exchanged.
pub open spec fn swapped<T>(s: Seq<T>, a: int, b: int) -> Seq<T> {
    s.update(a, s[b]).update(b, s[a])
}

/// `s` after exchanging the items of each pair of indices in turn.
pub open spec fn swapped_all<T>(s: Seq<T>, pairs: Seq<(int, int)>) -> Seq<T>
    decreases pairs.len(),
{
    if pairs.len() == 0 {
        s
    } else {
        swapped(swapped_all(s, pairs.drop_last()), pairs.last().0, pairs.last().1)
    }
}

/// Every index of every pair is below `len`.
pub open spec fn pairs_within(pairs: Seq<(int, int)>, len: nat) -> bool {
    forall|i: int|
        0 <= i < pairs.len() ==> 0 <= #[trigger] pairs[i].0 < len && 0 <= pairs[i].1 < len
}

/// Exchanges two items picked at random (possibly the same one).
pub fn swap<T>(scope: &mut Scope, items: &mut [T])
    requires
        old(items)@.len() > 0,
    ensures
        exists|a: int, b: int|
            0 <= a < old(items)@.len() && 0 <= b < old(items)@.len() && final(items)@
                == swapped(old(items)@, a, b),
        final(items)@.len() == old(items)@.len(),
        final(items)@.to_multiset() == old(items)@.to_multiset(),
        final(scope).spec_seed() == old(scope).spec_seed(),
{
    swap_count(scope, items, 1);
    proof {
        let pairs = choose|pairs: Seq<(int, int)>|
            pairs.len() == 1 && pairs_within(pairs, old(items)@.len())
                && items@ == swapped_all(old(items)@, pairs);
        assert(pairs.drop_last() =~= Seq::<(int, int)>::empty());
        assert(swapped_all(old(items)@, pairs.drop_last()) == old(items)@);
        assert(pairs.last() == pairs[0]);
        assert(pairs_within(pairs, old(items)@.len()));
        assert(0 <= pairs[0].0 < old(items)@.len());
        assert(items@ == swapped(old(items)@, pairs[0].0, pairs[0].1));
    }
}

/// Exchanges two items picked at random, `count` times over.
pub fn swap_count<T>(scope: &mut Scope, items: &mut [T], count: usize)
    requires
        count > 0 ==> old(items)@.len() > 0,
    ensures
        exists|pairs: Seq<(int, int)>|
            pairs.len() == count && pairs_within(pairs, old(items)@.len()) && final(items)@
                == swapped_all(old(items)@, pairs),
        final(items)@.len() == old(items)@.len(),
        final(items)@.to_multiset() == old(items)@.to_multiset(),
        count == 0 ==> final(items)@ == old(items)@,
        final(scope).spec_seed() == old(scope).spec_seed(),
{
    let ghost mut pairs: Seq<(int, int)> = Seq::empty();
    let mut i: usize = 0;
    while i < count
        invariant
            i <= count,
            count > 0 ==> items@.len() > 0,
            items@.len() == old(items)@.len(),
            items@.to_multiset() == old(items)@.to_multiset(),
            i == 0 ==> items@ == old(items)@,
            pairs.len() == i,
            pairs_within(pairs, old(items)@.len()),
            items@ == swapped_all(old(items)@, pairs),
            scope.spec_seed() == old(scope).spec_seed(),
        decreases count - i,
    {
        let len = items.len();
        let a = gen_index(&mut scope.rng, len);
        let b = gen_index(&mut scope.rng, len);
        let ghost s = items@;
        swap_items(items, a, b);
        proof {
            let s1 = s.update(a as int, s[b as int]);
            vstd::seq_lib::to_multiset_update(s, a as int, s[b as int]);
            vstd::seq_lib::to_multiset_update(s1, b as int, s[a as int]);
            assert(s1[b as int] == s[b as int]);
            broadcast use vstd::multiset::group_multiset_axioms;
            broadcast use vstd::seq_lib::group_to_multiset_ensures;
            let m = s.to_multiset();
            assert(s.contains(s[a as int]));
            assert(m.count(s[a as int]) > 0);
            let m1 = m.insert(s[b as int]).remove(s[a as int]);
            assert(m1.insert(s[a as int]).remove(s[b as int]) =~= m);
            let next = pairs.push((a as int, b as int));
            assert(next.drop_last() =~= pairs);
            assert(items@ == swapped_all(old(items)@, next));
            assert forall|k: int| 0 <= k < next.len() implies 0 <= #[trigger] next[k].0 < old(
                items,
            )@.len() && 0 <= next[k].1 < old(items)@.len() by {
                if k < pairs.len() {
                    assert(next[k] == pairs[k]);
                }
            }
            pairs = next;
        }
        i = i + 1;
    }
}

/// One of the items, picked at random.
pub fn one_of<'a, T>(scope: &mut Scope, items: &'a [T]) -> (r: &'a T)
    requires
        items@.len() > 0,
    ensures
        items@.contains(*r),
        final(scope).spec_seed() == old(scope).spec_seed(),
{
    let index = gen_index(&mut scope.rng, items.len());
    &items[index]
}

} // verus!
