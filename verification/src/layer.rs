//! Layers: an ordered sequence of neurons of equal fan-in.

use vstd::prelude::*;

use crate::base::Signal;
use crate::neuron::spec_neuron_out;
use crate::neuron::Neuron;
use crate::neuron::NeuronModel;
use crate::neuron::SigmoidNeuron;

verus! {

/// Every neuron of the layer has exactly `fan_in` incoming weights.
pub open spec fn layer_wf<S: Signal>(layer: Seq<NeuronModel<S>>, fan_in: int) -> bool {
    forall|j: int|
        0 <= j < layer.len() ==> (#[trigger] layer[j]).weights.len() == fan_in
}

/// The forward pass of one layer: each neuron's activation on the upstream
/// outputs, in neuron order.
pub open spec fn spec_forward<S: Signal>(layer: Seq<NeuronModel<S>>, inputs: Seq<S>) -> Seq<S> {
    Seq::new(layer.len(), |j: int| spec_neuron_out(layer[j], inputs))
}

/// A neural network layer.
pub trait Layer<S: Signal>: Sized {
    type Neuron: Neuron<S>;

    /// The mathematical value of this layer: its neurons, in order.
    spec fn model(&self) -> Seq<NeuronModel<S>>;

    /// The layer's neurons.
    fn neurons(&self) -> (r: &Vec<Self::Neuron>)
        ensures
            r@.map_values(|n: Self::Neuron| n.model()) == self.model(),
    ;

    /// The layer's width.
    fn len(&self) -> (r: usize)
        ensures
            r == self.model().len(),
    ;

    /// Forward calculation: the activations of all neurons on the previous
    /// layer's results, preserving neuron order. Reads, never mutates, the
    /// neurons.
    fn forward(&self, pre_layer_results: &Vec<S>) -> (r: Vec<S>)
        requires
            layer_wf(self.model(), pre_layer_results@.len() as int),
        ensures
            r@ == spec_forward(self.model(), pre_layer_results@),
    ;
}

/// The concrete layer of sigmoid neurons.
pub struct SigmoidLayer<S: Signal> {
    pub neurons: Vec<SigmoidNeuron<S>>,
}

impl<S: Signal> View for SigmoidLayer<S> {
    type V = Seq<NeuronModel<S>>;

    open spec fn view(&self) -> Seq<NeuronModel<S>> {
        self.neurons@.map_values(|n: SigmoidNeuron<S>| n@)
    }
}

impl<S: Signal> SigmoidLayer<S> {
    /// A layer made of the given neurons, in the given order.
    pub fn from_vec(vec: Vec<SigmoidNeuron<S>>) -> (r: SigmoidLayer<S>)
        ensures
            r@ == vec@.map_values(|n: SigmoidNeuron<S>| n@),
    {
        SigmoidLayer { neurons: vec }
    }

    /// A layer of `neurons_cnt` fresh neurons, each with
    /// `pre_layer_neurons_cnt` incoming weights taken in order from `init`
    /// and threshold zero.
    pub fn new(neurons_cnt: usize, pre_layer_neurons_cnt: usize, init: &Vec<S>) -> (r:
        SigmoidLayer<S>)
        requires
            init@.len() == neurons_cnt * pre_layer_neurons_cnt,
        ensures
            r@.len() == neurons_cnt,
            forall|j: int|
                0 <= j < neurons_cnt ==> (#[trigger] r@[j]) == (NeuronModel {
                    threshold: S::zero_spec(),
                    weights: init@.subrange(
                        j * pre_layer_neurons_cnt,
                        (j + 1) * pre_layer_neurons_cnt,
                    ),
                }),
    {
        // pins the fact that `init` fits in a usize-indexed vector, for the
        // index arithmetic of the loops below
        let _init_len: usize = init.len();
        let mut ns: Vec<SigmoidNeuron<S>> = Vec::new();
        let mut pos: usize = 0;
        let mut j: usize = 0;
        while j < neurons_cnt
            invariant
                j <= neurons_cnt,
                init@.len() <= usize::MAX,
                init@.len() == neurons_cnt * pre_layer_neurons_cnt,
                pos == j * pre_layer_neurons_cnt,
                ns@.len() == j,
                forall|k: int|
                    0 <= k < j ==> (#[trigger] ns@[k])@ == (NeuronModel {
                        threshold: S::zero_spec(),
                        weights: init@.subrange(
                            k * pre_layer_neurons_cnt,
                            (k + 1) * pre_layer_neurons_cnt,
                        ),
                    }),
            decreases neurons_cnt - j,
        {
            proof {
                vstd::arithmetic::mul::lemma_mul_inequality(
                    j as int + 1,
                    neurons_cnt as int,
                    pre_layer_neurons_cnt as int,
                );
                assert((j + 1) * pre_layer_neurons_cnt == j * pre_layer_neurons_cnt
                    + pre_layer_neurons_cnt) by (nonlinear_arith);
            }
            let mut ws: Vec<S> = Vec::new();
            let mut w: usize = 0;
            while w < pre_layer_neurons_cnt
                invariant
                    w <= pre_layer_neurons_cnt,
                    init@.len() <= usize::MAX,
                    init@.len() == neurons_cnt * pre_layer_neurons_cnt,
                    pos == j * pre_layer_neurons_cnt,
                    j < neurons_cnt,
                    (j + 1) * pre_layer_neurons_cnt <= init@.len(),
                    (j + 1) * pre_layer_neurons_cnt == pos + pre_layer_neurons_cnt,
                    ws@ == init@.subrange(pos as int, pos as int + w as int),
                decreases pre_layer_neurons_cnt - w,
            {
                ws.push(init[pos + w]);
                proof {
                    assert(ws@ =~= init@.subrange(pos as int, pos as int + w as int + 1));
                }
                w = w + 1;
            }
            let n = SigmoidNeuron { threshold: S::zero(), weights: ws };
            ns.push(n);
            pos = pos + pre_layer_neurons_cnt;
            j = j + 1;
        }
        let r = SigmoidLayer { neurons: ns };
        proof {
            assert(r@.len() == neurons_cnt);
        }
        r
    }
}

impl<S: Signal> Layer<S> for SigmoidLayer<S> {
    type Neuron = SigmoidNeuron<S>;

    open spec fn model(&self) -> Seq<NeuronModel<S>> {
        self@
    }

    fn neurons(&self) -> (r: &Vec<SigmoidNeuron<S>>) {
        proof {
            assert(self.neurons@.map_values(|n: SigmoidNeuron<S>| n.model()) =~= self@);
        }
        &self.neurons
    }

    fn len(&self) -> (r: usize) {
        self.neurons.len()
    }

    fn forward(&self, pre_layer_results: &Vec<S>) -> (r: Vec<S>) {
        let mut results: Vec<S> = Vec::new();
        let mut j: usize = 0;
        while j < self.neurons.len()
            invariant
                j <= self.neurons.len(),
                layer_wf(self@, pre_layer_results@.len() as int),
                results@ == spec_forward(self@, pre_layer_results@).take(j as int),
            decreases self.neurons.len() - j,
        {
            proof {
                assert(self@[j as int] == self.neurons@[j as int]@);
            }
            let result = self.neurons[j].function(pre_layer_results);
            results.push(result);
            proof {
                assert(results@ =~= spec_forward(self@, pre_layer_results@).take(j as int + 1));
            }
            j = j + 1;
        }
        proof {
            assert(results@ =~= spec_forward(self@, pre_layer_results@));
        }
        results
    }
}

} // verus!
