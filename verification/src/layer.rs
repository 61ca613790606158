//! A layer: an ordered sequence of neurons sharing one input vector.
//!
//! Propagation applies every neuron to the same inputs and returns one
//! output per neuron, in neuron order. Construction draws the neurons in
//! ascending index order, each one fully drawn before the next begins.

use crate::neuron::Neuron;
use crate::rng::{lemma_rng_after_add, rng_after, SplitMix64};
use vstd::prelude::*;

verus! {

/// A layer's neurons; output index `i` belongs to neuron `i`.
pub struct Layer {
    pub neurons: Vec<Neuron>,
}

impl Layer {
    /// Every neuron of the layer accepts the same input width.
    pub open spec fn wf(self, input_width: nat) -> bool {
        forall|i: int| 0 <= i < self.neurons@.len() ==> self.neurons@[i].wf(input_width)
    }

    /// What propagation returns: neuron `i`'s output at index `i`.
    pub open spec fn propagate_spec(self, inputs: Seq<u32>) -> Seq<u32> {
        Seq::new(self.neurons@.len(), |i: int| self.neurons@[i].propagate_spec(inputs))
    }

    /// The layer that a draw from state `s` yields: `count` neurons, and
    /// neuron `j` is drawn from the state reached after the `j * (width+1)`
    /// draws of the neurons before it.
    pub open spec fn random_model(self, s: u64, input_width: nat, count: nat) -> bool {
        &&& self.neurons@.len() == count
        &&& forall|j: int|
            0 <= j < count ==> self.neurons@[j].random_model(
                rng_after(s, (j * (input_width + 1)) as nat),
                input_width,
            )
    }

    /// The forward pass of one layer, one output per neuron in neuron
    /// order.
    pub fn propagate(&self, inputs: Vec<u32>) -> (r: Vec<u32>)
        requires
            self.wf(inputs@.len()),
        ensures
            r@ == self.propagate_spec(inputs@),
    {
        let mut outputs: Vec<u32> = Vec::new();
        let mut i: usize = 0;
        while i < self.neurons.len()
            invariant
                i <= self.neurons@.len(),
                outputs@.len() == i,
                self.wf(inputs@.len()),
                forall|j: int|
                    0 <= j < i ==> outputs@[j] == self.neurons@[j].propagate_spec(inputs@),
            decreases self.neurons@.len() - i,
        {
            let o = self.neurons[i].propagate(&inputs);
            outputs.push(o);
            i = i + 1;
        }
        proof {
            assert(outputs@ =~= self.propagate_spec(inputs@));
        }
        outputs
    }

    /// A layer of `output_neurons` neurons drawn in index order, each
    /// accepting `input_neurons` inputs; neuron 0 is fully drawn before
    /// neuron 1 begins.
    pub fn random(input_neurons: usize, output_neurons: usize, rng: &mut SplitMix64) -> (r: Layer)
        ensures
            r.random_model(old(rng).state, input_neurons as nat, output_neurons as nat),
            final(rng).state == rng_after(
                old(rng).state,
                (output_neurons as nat) * (input_neurons as nat + 1),
            ),
    {
        let ghost s0 = rng.state;
        let mut neurons: Vec<Neuron> = Vec::new();
        let mut j: usize = 0;
        while j < output_neurons
            invariant
                j <= output_neurons,
                neurons@.len() == j,
                forall|t: int|
                    0 <= t < j ==> neurons@[t].random_model(
                        rng_after(s0, (t * (input_neurons as int + 1)) as nat),
                        input_neurons as nat,
                    ),
                rng.state == rng_after(s0, (j as nat) * (input_neurons as nat + 1)),
            decreases output_neurons - j,
        {
            let n = Neuron::random(rng, input_neurons);
            proof {
                lemma_rng_after_add(
                    s0,
                    (j as nat) * (input_neurons as nat + 1),
                    input_neurons as nat + 1,
                );
                assert((j as nat) * (input_neurons as nat + 1) + (input_neurons as nat + 1) == (
                j as nat + 1) * (input_neurons as nat + 1)) by (nonlinear_arith);
            }
            neurons.push(n);
            j = j + 1;
        }
        Layer { neurons }
    }
}

} // verus!
