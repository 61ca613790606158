//! A network: an ordered sequence of layers, each feeding the next.
//!
//! Propagation threads the input vector through the layers left to right.
//! Construction consumes a topology — the ordered list of stage widths —
//! and builds one layer per adjacent pair of stages, drawing the layers in
//! order from a single seeded source.

use crate::layer::Layer;
use crate::rng::{lemma_rng_after_add, rng_after, SplitMix64};
use vstd::prelude::*;

verus! {

/// One stage of a topology: the neuron count of that stage. Stage 0 is the
/// input width and produces no layer of its own.
#[derive(Clone, Copy, PartialEq, Eq, Structural)]
pub struct LayerTopology {
    pub neurons: usize,
}

/// The widths chain: the first layer accepts `input_width` inputs, and each
/// later layer accepts exactly one input per neuron of the layer before it.
pub open spec fn layers_wf(layers: Seq<Layer>, input_width: nat) -> bool
    decreases layers.len(),
{
    layers.len() == 0 || (layers[0].wf(input_width) && layers_wf(
        layers.drop_first(),
        layers[0].neurons@.len(),
    ))
}

/// The forward pass over a sequence of layers: feed `inputs` to the first
/// layer and its output to the rest. The left-to-right order is the
/// contract; an empty sequence passes the inputs through.
pub open spec fn propagate_layers(layers: Seq<Layer>, inputs: Seq<u32>) -> Seq<u32>
    decreases layers.len(),
{
    if layers.len() == 0 {
        inputs
    } else {
        propagate_layers(layers.drop_first(), layers[0].propagate_spec(inputs))
    }
}

/// The number of draws consumed by the first `k` layers of a network built
/// from `topology`: layer `j` draws `topology[j+1]` neurons of
/// `topology[j] + 1` parameters each.
pub open spec fn draws_used(topology: Seq<LayerTopology>, k: int) -> nat
    decreases k,
{
    if k <= 0 {
        0
    } else {
        draws_used(topology, k - 1) + (topology[k].neurons as nat) * (topology[k - 1].neurons
            as nat + 1)
    }
}

/// A feedforward network owning its layers.
pub struct Network {
    pub layers: Vec<Layer>,
}

impl Network {
    /// The network accepts inputs of width `input_width` and every
    /// adjacent pair of layers agrees on its width.
    pub open spec fn wf(self, input_width: nat) -> bool {
        layers_wf(self.layers@, input_width)
    }

    /// What propagation returns: the last layer's output of the
    /// left-to-right pass.
    pub open spec fn propagate_spec(self, inputs: Seq<u32>) -> Seq<u32> {
        propagate_layers(self.layers@, inputs)
    }

    /// The network that a draw from state `s` yields for `topology`: one
    /// layer per adjacent pair of stages, layer `k` drawn from the state
    /// reached after the draws of the layers before it.
    pub open spec fn random_model(self, topology: Seq<LayerTopology>, s: u64) -> bool {
        &&& self.layers@.len() + 1 == topology.len()
        &&& forall|k: int|
            0 <= k < self.layers@.len() ==> self.layers@[k].random_model(
                rng_after(s, draws_used(topology, k)),
                topology[k].neurons as nat,
                topology[k + 1].neurons as nat,
            )
    }

    /// The forward pass of the whole network. The caller guarantees the
    /// shape by construction: the input width is the first layer's weight
    /// count, and the chain of widths matches throughout.
    pub fn propagate(&self, inputs: Vec<u32>) -> (r: Vec<u32>)
        requires
            self.wf(inputs@.len()),
        ensures
            r@ == self.propagate_spec(inputs@),
    {
        let ghost ins0 = inputs@;
        let mut current = inputs;
        let mut k: usize = 0;
        proof {
            assert(self.layers@.skip(0) =~= self.layers@);
        }
        while k < self.layers.len()
            invariant
                k <= self.layers@.len(),
                layers_wf(self.layers@.skip(k as int), current@.len()),
                propagate_layers(self.layers@, ins0) == propagate_layers(
                    self.layers@.skip(k as int),
                    current@,
                ),
            decreases self.layers@.len() - k,
        {
            proof {
                assert(self.layers@.skip(k as int)[0] == self.layers@[k as int]);
                assert(self.layers@.skip(k as int).drop_first() =~= self.layers@.skip(
                    k as int + 1,
                ));
            }
            current = self.layers[k].propagate(current);
            k = k + 1;
        }
        proof {
            assert(self.layers@.skip(self.layers@.len() as int).len() == 0);
        }
        current
    }

    /// A network drawn from the source for `topology`: one layer per
    /// adjacent pair of stages, in ascending order, layer 0 fully drawn
    /// before layer 1 begins. A topology needs at least an input stage and
    /// one output-producing stage.
    pub fn random(topology: &Vec<LayerTopology>, rng: &mut SplitMix64) -> (r: Network)
        requires
            topology@.len() >= 2,
        ensures
            r.random_model(topology@, old(rng).state),
            final(rng).state == rng_after(
                old(rng).state,
                draws_used(topology@, topology@.len() - 1),
            ),
    {
        let ghost s0 = rng.state;
        let mut layers: Vec<Layer> = Vec::new();
        let mut k: usize = 0;
        while k < topology.len() - 1
            invariant
                topology@.len() >= 2,
                k <= topology@.len() - 1,
                layers@.len() == k,
                forall|t: int|
                    0 <= t < k ==> layers@[t].random_model(
                        rng_after(s0, draws_used(topology@, t)),
                        topology@[t].neurons as nat,
                        topology@[t + 1].neurons as nat,
                    ),
                rng.state == rng_after(s0, draws_used(topology@, k as int)),
            decreases topology@.len() - k,
        {
            let l = Layer::random(topology[k].neurons, topology[k + 1].neurons, rng);
            proof {
                lemma_rng_after_add(
                    s0,
                    draws_used(topology@, k as int),
                    (topology@[k as int + 1].neurons as nat) * (topology@[k as int].neurons
                        as nat + 1),
                );
            }
            layers.push(l);
            k = k + 1;
        }
        Network { layers }
    }
}

/// A drawn network is well formed for the first stage's width: each layer's
/// neurons accept exactly the width of the stage before them.
pub proof fn lemma_random_wf(n: Network, topology: Seq<LayerTopology>, s: u64)
    requires
        n.random_model(topology, s),
        topology.len() >= 2,
    ensures
        n.wf(topology[0].neurons as nat),
{
    lemma_model_wf_suffix(n, topology, s, 0);
    assert(n.layers@.skip(0) =~= n.layers@);
}

/// The suffix of a drawn network starting at layer `k` is a well-formed
/// chain for stage `k`'s width.
proof fn lemma_model_wf_suffix(n: Network, topology: Seq<LayerTopology>, s: u64, k: int)
    requires
        n.random_model(topology, s),
        0 <= k <= n.layers@.len(),
    ensures
        layers_wf(n.layers@.skip(k), topology[k].neurons as nat),
    decreases n.layers@.len() - k,
{
    if k < n.layers@.len() {
        assert(n.layers@.skip(k)[0] == n.layers@[k]);
        assert(n.layers@.skip(k).drop_first() =~= n.layers@.skip(k + 1));
        lemma_model_wf_suffix(n, topology, s, k + 1);
    }
}

/// The output length of a non-empty well-formed chain is its last layer's
/// neuron count.
pub proof fn lemma_propagate_shape(layers: Seq<Layer>, inputs: Seq<u32>, input_width: nat)
    requires
        layers_wf(layers, input_width),
        inputs.len() == input_width,
        layers.len() > 0,
    ensures
        propagate_layers(layers, inputs).len() == layers.last().neurons@.len(),
    decreases layers.len(),
{
    let first_out = layers[0].propagate_spec(inputs);
    assert(propagate_layers(layers, inputs) == propagate_layers(layers.drop_first(), first_out));
    if layers.len() == 1 {
        assert(layers.drop_first().len() == 0);
        assert(propagate_layers(layers.drop_first(), first_out) == first_out);
    } else {
        lemma_propagate_shape(layers.drop_first(), first_out, layers[0].neurons@.len());
        assert(layers.drop_first().last() == layers.last());
    }
}

/// Law: shape preservation. A network drawn for `topology` is well formed
/// for inputs of the first stage's width, and propagating such an input
/// yields exactly one output per neuron of the last stage.
pub proof fn lemma_random_then_propagate_shape(
    n: Network,
    topology: Seq<LayerTopology>,
    s: u64,
    inputs: Seq<u32>,
)
    requires
        n.random_model(topology, s),
        topology.len() >= 2,
        inputs.len() == topology[0].neurons,
    ensures
        n.wf(topology[0].neurons as nat),
        n.propagate_spec(inputs).len() == topology[topology.len() - 1].neurons,
{
    lemma_random_wf(n, topology, s);
    lemma_propagate_shape(n.layers@, inputs, topology[0].neurons as nat);
}

/// Law: determinism of seeded construction. Two networks that both fit the
/// random model for the same topology and the same seed agree bit for bit:
/// same layer count, same neuron counts, and identical bias and weight
/// patterns everywhere.
pub proof fn lemma_random_deterministic(
    a: Network,
    b: Network,
    topology: Seq<LayerTopology>,
    s: u64,
)
    requires
        a.random_model(topology, s),
        b.random_model(topology, s),
    ensures
        a.layers@.len() == b.layers@.len(),
        forall|k: int|
            0 <= k < a.layers@.len() ==> a.layers@[k].neurons@.len()
                == b.layers@[k].neurons@.len(),
        forall|k: int, j: int|
            0 <= k < a.layers@.len() && 0 <= j < a.layers@[k].neurons@.len() ==> (
            a.layers@[k].neurons@[j].bias == b.layers@[k].neurons@[j].bias
                && a.layers@[k].neurons@[j].weights@ == b.layers@[k].neurons@[j].weights@),
{
    assert forall|k: int, j: int|
        0 <= k < a.layers@.len() && 0 <= j < a.layers@[k].neurons@.len() implies (
    a.layers@[k].neurons@[j].bias == b.layers@[k].neurons@[j].bias && a.layers@[k].neurons@[j].weights@
        == b.layers@[k].neurons@[j].weights@) by {
        let na = a.layers@[k].neurons@[j];
        let nb = b.layers@[k].neurons@[j];
        let width = topology[k].neurons as nat;
        assert(na.random_model(
            rng_after(rng_after(s, draws_used(topology, k)), (j * (width + 1)) as nat),
            width,
        ));
        assert(nb.random_model(
            rng_after(rng_after(s, draws_used(topology, k)), (j * (width + 1)) as nat),
            width,
        ));
        assert(na.weights@ =~= nb.weights@);
    }
}

/// Law: composition. Propagating a network is the left fold of layer
/// propagation over its layers, in order — both in vstd's canonical
/// `fold_left` form and in its first-element recursion `fold_left_alt`.
pub proof fn lemma_propagate_is_fold(layers: Seq<Layer>, inputs: Seq<u32>)
    ensures
        propagate_layers(layers, inputs) == layers.fold_left_alt(
            inputs,
            (|acc: Seq<u32>, l: Layer| l.propagate_spec(acc)),
        ),
        propagate_layers(layers, inputs) == layers.fold_left(
            inputs,
            (|acc: Seq<u32>, l: Layer| l.propagate_spec(acc)),
        ),
    decreases layers.len(),
{
    if layers.len() > 0 {
        lemma_propagate_is_fold(layers.drop_first(), layers[0].propagate_spec(inputs));
        assert(layers.drop_first() =~= layers.subrange(1, layers.len() as int));
    }
    layers.lemma_fold_left_alt(inputs, (|acc: Seq<u32>, l: Layer| l.propagate_spec(acc)));
}

} // verus!
