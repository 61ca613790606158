//! A single neuron: a bias and one weight per input.
//!
//! Propagation is the left-fold dot product of inputs and weights in index
//! order, starting from `+0.0`, plus the bias, clamped by ReLU. The fold
//! order is part of the contract: binary32 addition does not associate, so
//! reordering the accumulation would change the result bits.

use crate::rng::{draw_at, lemma_rng_after_add, next_state, rng_after, SplitMix64};
use crate::scalar::{add_bits, f32_add_bits, f32_mul_bits, mul_bits, relu, relu_bits, SIGN_BIT};
use vstd::prelude::*;

verus! {

/// A neuron's parameters, as binary32 bit patterns.
pub struct Neuron {
    pub bias: u32,
    pub weights: Vec<u32>,
}

/// The dot product of `inputs` and `weights`, accumulated left to right:
/// `(..((+0.0 + i0*w0) + i1*w1)..) + i(n-1)*w(n-1)`, each step rounded as
/// binary32.
pub open spec fn dot_bits(inputs: Seq<u32>, weights: Seq<u32>) -> u32
    recommends
        inputs.len() == weights.len(),
    decreases inputs.len(),
{
    if inputs.len() == 0 {
        0u32
    } else {
        f32_add_bits(
            dot_bits(inputs.drop_last(), weights.drop_last()),
            f32_mul_bits(inputs.last(), weights.last()),
        )
    }
}

impl Neuron {
    /// A neuron accepts inputs of exactly its weight count.
    pub open spec fn wf(self, input_width: nat) -> bool {
        self.weights@.len() == input_width
    }

    /// The pre-activation sum: the dot product plus the bias.
    pub open spec fn pre_activation(self, inputs: Seq<u32>) -> u32 {
        f32_add_bits(dot_bits(inputs, self.weights@), self.bias)
    }

    /// What propagation returns: ReLU of the pre-activation sum.
    pub open spec fn propagate_spec(self, inputs: Seq<u32>) -> u32 {
        relu_bits(self.pre_activation(inputs))
    }

    /// The neuron that a draw from state `s` yields: the bias is draw 0 and
    /// weight `k` is draw `k + 1` of the seeded sequence — every parameter
    /// is pinned to its position, which is what makes construction
    /// reproducible.
    pub open spec fn random_model(self, s: u64, input_width: nat) -> bool {
        &&& self.wf(input_width)
        &&& self.bias == draw_at(s, 0)
        &&& forall|k: int| 0 <= k < input_width ==> self.weights@[k] == draw_at(s, (k + 1) as nat)
    }

    /// The forward pass of one neuron. The caller guarantees the shape by
    /// construction: one input per weight.
    pub fn propagate(&self, inputs: &Vec<u32>) -> (r: u32)
        requires
            inputs@.len() == self.weights@.len(),
        ensures
            r == self.propagate_spec(inputs@),
    {
        let mut acc: u32 = 0;
        let mut i: usize = 0;
        while i < inputs.len()
            invariant
                i <= inputs@.len(),
                inputs@.len() == self.weights@.len(),
                acc == dot_bits(inputs@.take(i as int), self.weights@.take(i as int)),
            decreases inputs@.len() - i,
        {
            let prod = mul_bits(inputs[i], self.weights[i]);
            acc = add_bits(acc, prod);
            proof {
                assert(inputs@.take(i as int + 1).drop_last() =~= inputs@.take(i as int));
                assert(self.weights@.take(i as int + 1).drop_last() =~= self.weights@.take(
                    i as int,
                ));
            }
            i = i + 1;
        }
        proof {
            assert(inputs@.take(inputs@.len() as int) =~= inputs@);
            assert(self.weights@.take(self.weights@.len() as int) =~= self.weights@);
        }
        let pre = add_bits(acc, self.bias);
        relu(pre)
    }

    /// A neuron drawn from the source: the bias first, then one weight per
    /// input in ascending index order. The draw order is part of the
    /// contract — each parameter is pinned to its position in the seeded
    /// draw sequence.
    pub fn random(rng: &mut SplitMix64, input_count: usize) -> (r: Neuron)
        ensures
            r.random_model(old(rng).state, input_count as nat),
            final(rng).state == rng_after(old(rng).state, input_count as nat + 1),
    {
        let ghost s0 = rng.state;
        let bias = rng.next_scalar();
        proof {
            assert(rng_after(s0, 0) == s0);
            assert(rng.state == rng_after(s0, 1));
        }
        let mut weights: Vec<u32> = Vec::new();
        let mut i: usize = 0;
        while i < input_count
            invariant
                i <= input_count,
                weights@.len() == i,
                forall|j: int| 0 <= j < i ==> weights@[j] == draw_at(s0, (j + 1) as nat),
                rng.state == rng_after(s0, i as nat + 1),
            decreases input_count - i,
        {
            let ghost st = rng.state;
            let w = rng.next_scalar();
            proof {
                lemma_rng_after_add(s0, i as nat + 1, 1);
                assert(rng_after(st, 0) == st);
                assert(rng_after(st, 1) == next_state(st));
                assert(w == draw_at(s0, i as nat + 1));
            }
            weights.push(w);
            i = i + 1;
        }
        Neuron { bias, weights }
    }
}

/// Law: the ReLU floor. Propagation never returns a bit pattern with the
/// sign bit set; for every non-NaN pattern a clear sign bit is exactly a
/// value at least `+0.0`.
pub proof fn lemma_propagate_nonnegative(n: Neuron, inputs: Seq<u32>)
    ensures
        n.propagate_spec(inputs) < SIGN_BIT,
{
}

/// Law: linearity below the floor. A pre-activation sum with a clear sign
/// bit passes through the activation bit-for-bit; one with the sign bit set
/// (a negative value, or a negative zero or NaN) comes out as exactly
/// `+0.0`.
pub proof fn lemma_propagate_relu_cases(n: Neuron, inputs: Seq<u32>)
    ensures
        n.pre_activation(inputs) < SIGN_BIT ==> n.propagate_spec(inputs) == n.pre_activation(
            inputs,
        ),
        n.pre_activation(inputs) >= SIGN_BIT ==> n.propagate_spec(inputs) == 0u32,
{
}

} // verus!
