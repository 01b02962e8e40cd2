use vstd::prelude::*;
use vstd::arithmetic::div_mod::lemma_add_mod_noop;

use crate::model::{
    lcg_step, modulus, output_stream, permute, rotate_right_32, seeded_inc,
    seeded_state, MUL,
};

verus! {

/// The state of the reference library's default-seeded generator.
pub const DEFAULT_STATE: u64 = 0x853c49e6748fea9b;

/// The increment of the reference library's default-seeded generator.
pub const DEFAULT_INC: u64 = 0xda3e39cb94b95bdb;

/// A PCG32 random number generator.
#[derive(Clone, Debug, PartialEq, Eq, Structural, Hash)]
pub struct Pcg32 {
    state: u64,
    inc: u64,
}

impl Pcg32 {
    /// The current linear congruential state.
    pub closed spec fn spec_state(&self) -> u64 {
        self.state
    }

    /// The stream increment, fixed for the generator's lifetime.
    pub closed spec fn spec_inc(&self) -> u64 {
        self.inc
    }

    /// Well-formed: the increment is odd.
    pub open spec fn wf(&self) -> bool {
        self.spec_inc() % 2 == 1
    }

    /// This generator is exactly the one seeded with `(initstate, initseq)`.
    pub open spec fn is_seeded_with(&self, initstate: u64, initseq: u64) -> bool {
        &&& self.spec_state() == seeded_state(initstate, initseq)
        &&& self.spec_inc() == seeded_inc(initseq)
    }

    /// The next `n` outputs this generator will produce.
    pub open spec fn outputs(&self, n: nat) -> Seq<u32> {
        output_stream(self.spec_state(), self.spec_inc(), n)
    }

    /// Initializes a PCG32 generator from a starting state and a stream
    /// selector. Every pair of values is accepted; the most significant bit
    /// of `initseq` is ignored.
    pub fn new(initstate: u64, initseq: u64) -> (r: Self)
        ensures
            r.is_seeded_with(initstate, initseq),
            r.wf(),
    {
        let inc = (initseq << 1u64) | 1u64;
        proof {
            lemma_shift_or_one(initseq);
        }
        let start = inc.wrapping_add(initstate);
        assert(start as int == (inc + initstate) % modulus());
        let state = wrapping_lcg_step(start, inc);
        Pcg32 { state, inc }
    }

    /// Generates a pseudorandom uniformly distributed 32-bit unsigned integer.
    pub fn generate(&mut self) -> (r: u32)
        ensures
            r == permute(old(self).spec_state()),
            final(self).spec_state() == lcg_step(old(self).spec_state(), old(self).spec_inc()),
            final(self).spec_inc() == old(self).spec_inc(),
    {
        let s = self.state;
        self.state = wrapping_lcg_step(s, self.inc);
        let xorshifted = (((s >> 18u64) ^ s) >> 27u64) as u32;
        assert(s >> 59u64 < 32) by (bit_vector);
        rotate_right(xorshifted, (s >> 59u64) as u32)
    }

    /// Alias of `generate`.
    pub fn gen(&mut self) -> (r: u32)
        ensures
            r == permute(old(self).spec_state()),
            final(self).spec_state() == lcg_step(old(self).spec_state(), old(self).spec_inc()),
            final(self).spec_inc() == old(self).spec_inc(),
    {
        self.generate()
    }
}

impl Default for Pcg32 {
    /// The reference library's default-seeded generator.
    fn default() -> (r: Self)
        ensures
            r.spec_state() == DEFAULT_STATE,
            r.spec_inc() == DEFAULT_INC,
            r.wf(),
    {
        Pcg32 { state: DEFAULT_STATE, inc: DEFAULT_INC }
    }
}

/// Two generators seeded with the same pair are the same generator, and so
/// produce the same outputs at every position.
pub proof fn lemma_determinism(a: Pcg32, b: Pcg32, initstate: u64, initseq: u64, n: nat)
    requires
        a.is_seeded_with(initstate, initseq),
        b.is_seeded_with(initstate, initseq),
    ensures
        a == b,
        a.outputs(n) == b.outputs(n),
{
}

/// `state * MUL + inc` with 64-bit wraparound.
fn wrapping_lcg_step(state: u64, inc: u64) -> (r: u64)
    ensures
        r == lcg_step(state, inc),
{
    let m = state.wrapping_mul(MUL);
    let r = m.wrapping_add(inc);
    proof {
        let p = state as int * MUL as int;
        lemma_add_mod_noop(p, inc as int, modulus());
        assert(inc as int % modulus() == inc as int);
        assert(m as int == p % modulus());
        if m + inc > u64::MAX {
            assert(r as int == (m + inc) % modulus());
        } else {
            assert(r as int == (m + inc) % modulus());
        }
    }
    r
}

/// Circular right rotation of `x` by `r` places.
fn rotate_right(x: u32, r: u32) -> (y: u32)
    requires
        r < 32,
    ensures
        y == rotate_right_32(x, r),
{
    if r == 0 {
        x
    } else {
        (x >> r) | (x << (32 - r))
    }
}

proof fn lemma_shift_or_one(initseq: u64)
    ensures
        (initseq << 1u64) | 1u64 == seeded_inc(initseq),
{
    assert((initseq << 1u64) | 1u64 == ((2 * initseq) % 0x1_0000_0000_0000_0000 + 1) as u64)
        by (bit_vector);
}

} // verus!
