//! The seeded pseudo-random source for parameter generation.
//!
//! The generator is SplitMix64 (Steele, Lea & Flood, "Fast splittable
//! pseudorandom number generators", OOPSLA 2014): the state advances by the
//! golden-ratio increment and each output is a fixed bit mix of the new
//! state. A scalar draw takes the top 25 bits `k` of one output word and
//! returns the binary32 bit pattern of the exact value `(k - 2^24) / 2^24`,
//! a grid point of the closed interval `[-1.0, 1.0]`. Every step is integer
//! arithmetic on bit patterns, so the whole draw sequence is verified: the
//! same seed yields the same bits on every run and every machine.

use crate::scalar::SIGN_BIT;
use vstd::arithmetic::power2::{
    lemma2_to64, lemma_pow2_adds, lemma_pow2_strictly_increases, lemma_pow2_unfold, pow2,
};
use vstd::prelude::*;

verus! {

/// The SplitMix64 state increment: 2^64 divided by the golden ratio.
pub const GOLDEN_GAMMA: u64 = 0x9E37_79B9_7F4A_7C15;

/// First multiplier of the SplitMix64 output mix.
pub const MIX_MUL_1: u64 = 0xBF58_476D_1CE4_E5B9;

/// Second multiplier of the SplitMix64 output mix.
pub const MIX_MUL_2: u64 = 0x94D0_49BB_1331_11EB;

/// The state that follows `s`: one golden-ratio step, wrapping at 2^64.
pub open spec fn next_state(s: u64) -> u64 {
    s.wrapping_add(GOLDEN_GAMMA)
}

/// The SplitMix64 output mix of a state word.
pub open spec fn mix64(z: u64) -> u64 {
    let a = (z ^ (z >> 30u64)).wrapping_mul(MIX_MUL_1);
    let b = (a ^ (a >> 27u64)).wrapping_mul(MIX_MUL_2);
    b ^ (b >> 31u64)
}

/// The state reached from `s` after `n` draws.
pub open spec fn rng_after(s: u64, n: nat) -> u64
    decreases n,
{
    if n == 0 {
        s
    } else {
        next_state(rng_after(s, (n - 1) as nat))
    }
}

/// The number of bits of `n`: the unique `l` with `2^(l-1) <= n < 2^l`
/// (and 1 for `n == 0`, which never arises below).
pub open spec fn bit_len(n: nat) -> nat
    decreases n,
{
    if n <= 1 {
        1
    } else {
        1 + bit_len(n / 2)
    }
}

/// The binary32 bit pattern of the exact value `n * 2^-24`, negated when
/// `negative` is set: sign bit, biased exponent `bit_len(n) + 102`, and the
/// bits of `n` below its leading one as the mantissa. Every such value is a
/// dyadic rational with at most 24 significant bits, so no rounding occurs.
pub open spec fn frac_bits(n: nat, negative: bool) -> u32
    recommends
        1 <= n <= pow2(24),
{
    let sign: nat = if negative {
        SIGN_BIT as nat
    } else {
        0
    };
    if n == pow2(24) {
        (sign + 0x3F80_0000) as u32
    } else {
        let l = bit_len(n);
        (sign + (l + 102) * pow2(23) + (n - pow2((l - 1) as nat)) * pow2((24 - l) as nat)) as u32
    }
}

/// The scalar drawn from one output word `z`: the top 25 bits `k` of `z`,
/// mapped to the binary32 pattern of `(k - 2^24) / 2^24`.
pub open spec fn scalar_of_word(z: u64) -> u32 {
    let k = (z >> 39u64) as nat;
    if k == pow2(24) {
        0u32
    } else if k > pow2(24) {
        frac_bits((k - pow2(24)) as nat, false)
    } else {
        frac_bits((pow2(24) - k) as nat, true)
    }
}

/// The scalar produced by draw number `i` (counted from 0) of a source
/// whose state is `s`.
pub open spec fn draw_at(s: u64, i: nat) -> u32 {
    scalar_of_word(mix64(rng_after(s, i + 1)))
}

/// Drawing `a + b` times is drawing `a` times, then `b` times.
pub proof fn lemma_rng_after_add(s: u64, a: nat, b: nat)
    ensures
        rng_after(s, a + b) == rng_after(rng_after(s, a), b),
    decreases b,
{
    if b > 0 {
        lemma_rng_after_add(s, a, (b - 1) as nat);
    }
}

/// A seeded SplitMix64 source. The sequence of scalars it yields is a pure
/// function of the seed, fixed by `draw_at`; reordering or interleaving
/// draws therefore changes every later value, which is why generation takes
/// the source by exclusive reference.
pub struct SplitMix64 {
    pub state: u64,
}

impl SplitMix64 {
    /// A source whose first draw is `draw_at(seed, 0)`.
    pub fn new(seed: u64) -> (r: SplitMix64)
        ensures
            r.state == seed,
    {
        SplitMix64 { state: seed }
    }

    /// One raw 64-bit draw: advance the state and mix it.
    pub fn next_u64(&mut self) -> (r: u64)
        ensures
            final(self).state == next_state(old(self).state),
            r == mix64(next_state(old(self).state)),
    {
        self.state = self.state.wrapping_add(GOLDEN_GAMMA);
        let z = self.state;
        let a = (z ^ (z >> 30u64)).wrapping_mul(MIX_MUL_1);
        let b = (a ^ (a >> 27u64)).wrapping_mul(MIX_MUL_2);
        b ^ (b >> 31u64)
    }

    /// One scalar draw from the closed interval `[-1.0, 1.0]`, as a binary32
    /// bit pattern.
    pub fn next_scalar(&mut self) -> (r: u32)
        ensures
            final(self).state == next_state(old(self).state),
            r == draw_at(old(self).state, 0),
    {
        let z = self.next_u64();
        proof {
            assert(rng_after(old(self).state, 0) == old(self).state);
            assert(rng_after(old(self).state, 1) == next_state(old(self).state));
        }
        scalar_from_word(z)
    }
}

/// The exact computation of `scalar_of_word` on a drawn word.
fn scalar_from_word(z: u64) -> (r: u32)
    ensures
        r == scalar_of_word(z),
{
    proof {
        lemma2_to64();
        assert(z >> 39u64 < 0x200_0000) by (bit_vector);
    }
    let k: u32 = (z >> 39) as u32;
    if k == 0x0100_0000 {
        0
    } else if k > 0x0100_0000 {
        frac_to_bits(k - 0x0100_0000, false)
    } else {
        frac_to_bits(0x0100_0000 - k, true)
    }
}

/// `bit_len(n)` is the unique bit length: it is pinned by the bracketing
/// powers of two.
proof fn lemma_bit_len_of_range(n: nat, l: nat)
    requires
        1 <= l,
        pow2((l - 1) as nat) <= n,
        n < pow2(l),
    ensures
        bit_len(n) == l,
    decreases n,
{
    lemma2_to64();
    if n <= 1 {
        if l != 1 {
            lemma_pow2_strictly_increases(0, (l - 1) as nat);
        }
    } else {
        lemma_pow2_unfold(l);
        if l == 1 {
            assert(false);
        } else {
            lemma_pow2_unfold((l - 1) as nat);
            assert(pow2((l - 2) as nat) <= n / 2 && n / 2 < pow2((l - 1) as nat))
                by (nonlinear_arith)
                requires
                    n >= 2,
                    pow2((l - 1) as nat) == 2 * pow2((l - 2) as nat),
                    pow2(l) == 2 * pow2((l - 1) as nat),
                    pow2((l - 1) as nat) <= n,
                    n < pow2(l),
            ;
            lemma_bit_len_of_range(n / 2, (l - 1) as nat);
        }
    }
}

/// The exact computation of `frac_bits` on a 25-bit magnitude.
fn frac_to_bits(n: u32, negative: bool) -> (r: u32)
    requires
        1 <= n <= 0x0100_0000,
    ensures
        r == frac_bits(n as nat, negative),
{
    proof {
        lemma2_to64();
    }
    let sign: u32 = if negative {
        SIGN_BIT
    } else {
        0
    };
    if n == 0x0100_0000 {
        return sign + 0x3F80_0000;
    }
    let mut l: u32 = 1;
    let mut p: u32 = 1;
    let mut q: u32 = 0x0080_0000;
    while n >= 2 * p
        invariant
            1 <= n < 0x0100_0000,
            1 <= l <= 24,
            p == pow2((l - 1) as nat),
            q == pow2((24 - l) as nat),
            p <= n,
        decreases n - p,
    {
        proof {
            lemma2_to64();
            if l == 24 {
                assert(false);
            }
            lemma_pow2_unfold(l as nat);
            lemma_pow2_unfold((24 - l) as nat);
        }
        p = 2 * p;
        q = q / 2;
        l = l + 1;
    }
    proof {
        lemma2_to64();
        lemma_bit_len_of_range(n as nat, l as nat);
        lemma_pow2_adds((l - 1) as nat, (24 - l) as nat);
        assert((n - p) * q < pow2((l - 1) as nat) * pow2((24 - l) as nat)) by (nonlinear_arith)
            requires
                q == pow2((24 - l) as nat),
                p == pow2((l - 1) as nat),
                q >= 1,
                p <= n,
                n < 2 * p,
        ;
    }
    sign + (l + 102) * 0x0080_0000 + (n - p) * q
}

} // verus!

