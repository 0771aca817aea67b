//! Neurons: one threshold and one incoming weight per upstream output.

use vstd::prelude::*;

use crate::base::copy_signals;
use crate::base::spec_sigmoid;
use crate::base::Signal;

verus! {

/// The mathematical content of a neuron: its threshold and its ordered
/// incoming weights.
pub struct NeuronModel<S> {
    pub threshold: S,
    pub weights: Seq<S>,
}

/// The linear combination `threshold + Σ inputs[i] * weights[i]`, folded left
/// over the first `n` terms exactly as the executable loop accumulates it.
pub open spec fn spec_lc_prefix<S: Signal>(
    threshold: S,
    weights: Seq<S>,
    inputs: Seq<S>,
    n: int,
) -> S
    decreases n,
{
    if n <= 0 {
        threshold
    } else {
        spec_lc_prefix(threshold, weights, inputs, n - 1).add_spec(
            inputs[n - 1].mul_spec(weights[n - 1]),
        )
    }
}

/// The neuron's full linear combination factor.
pub open spec fn spec_lc<S: Signal>(n: NeuronModel<S>, inputs: Seq<S>) -> S {
    spec_lc_prefix(n.threshold, n.weights, inputs, n.weights.len() as int)
}

/// The neuron's activation: the sigmoid of its linear combination factor.
pub open spec fn spec_neuron_out<S: Signal>(n: NeuronModel<S>, inputs: Seq<S>) -> S {
    spec_sigmoid(spec_lc(n, inputs))
}

/// A neuron: several input semaphores, each with a weight, and one output.
///
/// The contracts are stated over [`NeuronModel`], so a conforming
/// implementation computes the sigmoid of the linear combination of its
/// inputs, exactly in the fold order [`spec_lc_prefix`] gives.
pub trait Neuron<S: Signal>: Sized {
    /// The mathematical value of this neuron.
    spec fn model(&self) -> NeuronModel<S>;

    /// The threshold (bias).
    fn threshold(&self) -> (r: S)
        ensures
            r == self.model().threshold,
    ;

    fn set_threshold(&mut self, threshold: S)
        ensures
            final(self).model() == (NeuronModel { threshold, ..old(self).model() }),
    ;

    /// The weights of the interconnections, updated during learning.
    fn weights(&self) -> (r: &Vec<S>)
        ensures
            r@ == self.model().weights,
    ;

    /// `Sum = Σ ω_i g_i(x) + threshold`, the linear combination factor.
    fn liner_combination_factor(&self, inputs: &Vec<S>) -> (r: S)
        requires
            inputs@.len() == self.model().weights.len(),
        ensures
            r == spec_lc(self.model(), inputs@),
    ;

    /// The activation function `K = S(t) = 1 / (1 + exp(-t))`.
    fn activation(&self, invalue: S) -> (r: S)
        ensures
            r == spec_sigmoid(invalue),
    ;

    /// The network function `f(x) = K(Σ ω_i g_i(x))`.
    fn function(&self, inputs: &Vec<S>) -> (r: S)
        requires
            inputs@.len() == self.model().weights.len(),
        ensures
            r == spec_neuron_out(self.model(), inputs@),
    ;
}

/// The concrete sigmoid neuron.
pub struct SigmoidNeuron<S: Signal> {
    pub threshold: S,
    pub weights: Vec<S>,
}

impl<S: Signal> View for SigmoidNeuron<S> {
    type V = NeuronModel<S>;

    open spec fn view(&self) -> NeuronModel<S> {
        NeuronModel { threshold: self.threshold, weights: self.weights@ }
    }
}

impl<S: Signal> SigmoidNeuron<S> {
    /// A fresh neuron: threshold zero, and one weight per upstream output,
    /// taken in order from `init`.
    ///
    /// Initial weights are the caller's strategy (a seeded uniform draw, a
    /// ramp): the engine only asks for the values.
    pub fn new(weight_cnt: usize, init: &Vec<S>) -> (r: SigmoidNeuron<S>)
        requires
            init@.len() == weight_cnt,
        ensures
            r@ == (NeuronModel { threshold: S::zero_spec(), weights: init@ }),
    {
        SigmoidNeuron { threshold: S::zero(), weights: copy_signals(init) }
    }
}

impl<S: Signal> Neuron<S> for SigmoidNeuron<S> {
    open spec fn model(&self) -> NeuronModel<S> {
        self@
    }

    fn threshold(&self) -> (r: S) {
        self.threshold
    }

    fn set_threshold(&mut self, threshold: S) {
        self.threshold = threshold;
    }

    fn weights(&self) -> (r: &Vec<S>) {
        &self.weights
    }

    fn liner_combination_factor(&self, inputs: &Vec<S>) -> (r: S) {
        let mut liner_combination_factor: S = self.threshold;
        let mut i: usize = 0;
        while i < self.weights.len()
            invariant
                i <= self.weights.len(),
                inputs@.len() == self@.weights.len(),
                liner_combination_factor == spec_lc_prefix(
                    self@.threshold,
                    self@.weights,
                    inputs@,
                    i as int,
                ),
            decreases self.weights.len() - i,
        {
            liner_combination_factor = liner_combination_factor.add(
                inputs[i].mul(self.weights[i]),
            );
            i = i + 1;
        }
        liner_combination_factor
    }

    fn activation(&self, invalue: S) -> (r: S) {
        S::one().div(S::one().add(invalue.neg().exp()))
    }

    fn function(&self, inputs: &Vec<S>) -> (r: S) {
        let liner_combination_factor = self.liner_combination_factor(inputs);
        self.activation(liner_combination_factor)
    }
}

} // verus!
