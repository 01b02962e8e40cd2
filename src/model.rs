use vstd::prelude::*;

verus! {

/// The 64-bit multiplier of the PCG linear congruential step.
pub const MUL: u64 = 6364136223846793005;

/// The modulus of all state arithmetic, 2^64.
pub open spec fn modulus() -> int {
    0x1_0000_0000_0000_0000
}

/// One linear congruential step: `state * MUL + inc`, taken modulo 2^64.
pub open spec fn lcg_step(state: u64, inc: u64) -> u64 {
    ((state * MUL + inc) % modulus()) as u64
}

/// The stream increment selected by `initseq`: twice the sequence number,
/// modulo 2^64, plus one. The top bit of `initseq` is lost and the result
/// is always odd.
pub open spec fn seeded_inc(initseq: u64) -> u64 {
    ((2 * initseq) % modulus() + 1) as u64
}

/// The first state of a generator seeded with `(initstate, initseq)`:
/// one step taken from `inc + initstate`.
pub open spec fn seeded_state(initstate: u64, initseq: u64) -> u64 {
    let inc = seeded_inc(initseq);
    lcg_step(((inc + initstate) % modulus()) as u64, inc)
}

/// The xor-folded high bits of a state: bits 27 through 58 of
/// `(s >> 18) ^ s`.
pub open spec fn xorshift_fold(s: u64) -> u32 {
    (((s >> 18u64) ^ s) >> 27u64) as u32
}

/// The rotation amount read from a state: its top five bits.
pub open spec fn rotation_of(s: u64) -> u32 {
    (s >> 59u64) as u32
}

/// Circular right rotation of a 32-bit word by `r` places, `r` below 32.
pub open spec fn rotate_right_32(x: u32, r: u32) -> u32 {
    if r == 0 {
        x
    } else {
        (x >> r) | (x << (32 - r) as u32)
    }
}

/// The 32-bit output drawn from a state.
pub open spec fn permute(s: u64) -> u32 {
    rotate_right_32(xorshift_fold(s), rotation_of(s))
}

/// The state reached after `n` steps from `state`.
pub open spec fn advance(state: u64, inc: u64, n: nat) -> u64
    decreases n,
{
    if n == 0 {
        state
    } else {
        advance(lcg_step(state, inc), inc, (n - 1) as nat)
    }
}

/// The first `n` outputs drawn from `state` with increment `inc`.
pub open spec fn output_stream(state: u64, inc: u64, n: nat) -> Seq<u32> {
    Seq::new(n, |i: int| permute(advance(state, inc, i as nat)))
}

/// Every derived increment is odd, whatever the sequence number.
pub proof fn lemma_seeded_inc_odd(initseq: u64)
    ensures
        seeded_inc(initseq) % 2 == 1,
{
    assert(((2 * initseq) % 0x1_0000_0000_0000_0000 + 1) as u64 % 2 == 1) by (bit_vector);
}

/// The most significant bit of the sequence number does not affect the
/// increment.
pub proof fn lemma_seeded_inc_ignores_top_bit(initseq: u64)
    ensures
        seeded_inc(initseq) == seeded_inc(initseq ^ 0x8000_0000_0000_0000),
{
    assert(((2 * initseq) % 0x1_0000_0000_0000_0000 + 1) as u64 == ((2 * (initseq
        ^ 0x8000_0000_0000_0000u64)) % 0x1_0000_0000_0000_0000 + 1) as u64) by (bit_vector);
}

/// When the top five bits of the state are zero the output is the
/// xor-folded word, unrotated.
pub proof fn lemma_zero_rotation(s: u64)
    requires
        s >> 59u64 == 0,
    ensures
        permute(s) == xorshift_fold(s),
{
}

/// Drawing one output consumes the head of the stream: the next `n + 1`
/// outputs are the output of the current state followed by the next `n`
/// outputs from the stepped state.
pub proof fn lemma_output_stream_step(state: u64, inc: u64, n: nat)
    ensures
        output_stream(state, inc, n + 1) == seq![permute(state)] + output_stream(
            lcg_step(state, inc),
            inc,
            n,
        ),
{
    let lhs = output_stream(state, inc, n + 1);
    let rhs = seq![permute(state)] + output_stream(lcg_step(state, inc), inc, n);
    assert forall|i: int| 0 <= i < n + 1 implies lhs[i] == rhs[i] by {
        if i > 0 {
            assert(advance(state, inc, i as nat) == advance(
                lcg_step(state, inc),
                inc,
                (i - 1) as nat,
            ));
        }
    }
    assert(lhs =~= rhs);
}

} // verus!
