//! The random numbers of a pattern: a state of four words is seeded from the
//! current instant, the expansion and the seed with the splitmix64
//! finalizer, then stepped once as in xoshiro256++.
use vstd::prelude::*;

verus! {

/// The constants of the splitmix64 finalizer.
pub const SPLIT_MIX: [u64; 3] = [0x9e3779b97f4a7c15, 0xbf58476d1ce4e5b9, 0x94d049bb133111eb];

/// The finalizer constants used for the numerator of the instant.
pub const THING_A: [u64; 3] = [0x3c8cc7219755f437, 0x671dbd34af54e996, 0x919652ae67f1d181];

/// The finalizer constants used for the denominator of the instant.
pub const THING_B: [u64; 3] = [0x9326a101ae57df9f, 0xdd5a3fbfc88ba5d1, 0x2822711d222b55dc];

/// The finalizer constants used for the expansion.
pub const THING_C: [u64; 3] = [0x8f91ea12c6653f76, 0xa19b234057f9b967, 0x8464e496f81bb3f9];

/// The splitmix64 finalizer of `x` with the constants `k`, in wrapping
/// 64-bit arithmetic.
pub open spec fn spec_mix(x: u64, k: [u64; 3]) -> u64 {
    let z = x.wrapping_add(k[0]);
    let z = (z ^ (z >> 30u64)).wrapping_mul(k[1]);
    let z = (z ^ (z >> 27u64)).wrapping_mul(k[2]);
    z ^ (z >> 31u64)
}

/// `x` rotated left by `k` bits.
pub open spec fn spec_rotl(x: u64, k: u64) -> u64 {
    (x << k) | (x >> (64 - k) as u64)
}

/// One step of the xoshiro256++ state.
pub open spec fn spec_rotate(s: [u64; 4]) -> [u64; 4] {
    let t = s[1] << 17u64;
    let s2 = s[2] ^ s[0];
    let s3 = s[3] ^ s[1];
    let s1 = s[1] ^ s2;
    let s0 = s[0] ^ s3;
    [s0, s1, s2 ^ t, spec_rotl(s3, 45)]
}

/// The output of a xoshiro256++ state.
pub open spec fn spec_read(s: [u64; 4]) -> u64 {
    spec_rotl(s[0].wrapping_add(s[3]), 23).wrapping_add(s[0])
}

/// The state seeded from an instant (as numerator and denominator), an
/// expansion and a seed.
pub open spec fn spec_seed(now: (u64, u64), expansion: u64, seed: u64) -> [u64; 4] {
    [
        spec_mix(now.0, THING_A),
        spec_mix(seed, SPLIT_MIX),
        spec_mix(now.1, THING_B),
        spec_mix(expansion, THING_C),
    ]
}

/// The random number of an instant, an expansion and a seed.
pub open spec fn spec_get(now: (u64, u64), expansion: u64, seed: u64) -> u64 {
    spec_read(spec_rotate(spec_seed(now, expansion, seed)))
}

/// A xoshiro256++ generator.
pub struct State(pub [u64; 4]);

impl State {
    pub fn new(now: (u64, u64), expansion: u64, seed: u64) -> (r: Self)
        ensures
            r.0 == spec_seed(now, expansion, seed),
    {
        State([mix(now.0, THING_A), mix(seed, SPLIT_MIX), mix(now.1, THING_B), mix(expansion, THING_C)])
    }

    pub fn rotate(&mut self)
        ensures
            final(self).0 == spec_rotate(old(self).0),
    {
        let t = self.0[1] << 17u64;
        let s2 = self.0[2] ^ self.0[0];
        let s3 = self.0[3] ^ self.0[1];
        let s1 = self.0[1] ^ s2;
        let s0 = self.0[0] ^ s3;
        self.0 = [s0, s1, s2 ^ t, rotl(s3, 45)];
    }

    pub fn read(&self) -> (r: u64)
        ensures
            r == spec_read(self.0),
    {
        rotl(self.0[0].wrapping_add(self.0[3]), 23).wrapping_add(self.0[0])
    }

    /// Steps the state and gives its output.
    pub fn next_u64(&mut self) -> (r: u64)
        ensures
            final(self).0 == spec_rotate(old(self).0),
            r == spec_read(final(self).0),
    {
        self.rotate();
        self.read()
    }

    /// Steps the state and gives the low 32 bits of its output.
    pub fn next_u32(&mut self) -> (r: u32)
        ensures
            final(self).0 == spec_rotate(old(self).0),
            r == spec_read(final(self).0) as u32,
    {
        let v = self.next_u64();
        v as u32
    }
}

/// The random number of an instant (as numerator and denominator), an
/// expansion and a seed.
pub fn get(now: (u64, u64), expansion: u64, seed: u64) -> (r: u64)
    ensures
        r == spec_get(now, expansion, seed),
{
    let mut state = State::new(now, expansion, seed);
    state.rotate();
    state.read()
}

fn rotl(x: u64, k: u64) -> (r: u64)
    requires
        0 < k < 64,
    ensures
        r == spec_rotl(x, k),
{
    (x << k) | (x >> (64 - k))
}

fn mix(x: u64, k: [u64; 3]) -> (r: u64)
    ensures
        r == spec_mix(x, k),
{
    let z = x.wrapping_add(k[0]);
    let z = (z ^ (z >> 30u64)).wrapping_mul(k[1]);
    let z = (z ^ (z >> 27u64)).wrapping_mul(k[2]);
    z ^ (z >> 31u64)
}

} // verus!
