//! Networks: ordered layers, input side first, chained by forward passes.

use vstd::prelude::*;

use crate::base::copy_signals;
use crate::base::Signal;
use crate::layer::layer_wf;
use crate::layer::spec_forward;
use crate::layer::Layer;
use crate::layer::SigmoidLayer;
use crate::neuron::NeuronModel;
use crate::neuron::SigmoidNeuron;

verus! {

/// Shape consistency: the first layer's fan-in is the declared input width,
/// and every later layer's fan-in is the width of the layer before it.
pub open spec fn net_wf<S: Signal>(m: Seq<Seq<NeuronModel<S>>>, input_width: int) -> bool {
    &&& (m.len() > 0 ==> layer_wf(m[0], input_width))
    &&& (forall|i: int| 1 <= i < m.len() ==> layer_wf(#[trigger] m[i], m[i - 1].len() as int))
}

/// The activation vector after `i` layers: the inputs themselves for `i == 0`,
/// else layer `i - 1`'s forward pass on the vector before it.
pub open spec fn spec_act_at<S: Signal>(
    m: Seq<Seq<NeuronModel<S>>>,
    inputs: Seq<S>,
    i: int,
) -> Seq<S>
    decreases i,
{
    if i <= 0 {
        inputs
    } else {
        spec_forward(m[i - 1], spec_act_at(m, inputs, i - 1))
    }
}

/// The full activation stack `[inputs, layer 0's output, ..., final output]`,
/// of length `m.len() + 1`.
pub open spec fn spec_stack<S: Signal>(m: Seq<Seq<NeuronModel<S>>>, inputs: Seq<S>) -> Seq<
    Seq<S>,
> {
    Seq::new(m.len() + 1, |i: int| spec_act_at(m, inputs, i))
}

/// A feed-forward neural network.
pub trait NeuronNetwork<S: Signal>: Sized {
    type HiddenLayerNeuron: crate::neuron::Neuron<S>;

    type HiddenLayer: Layer<S, Neuron = Self::HiddenLayerNeuron>;

    /// The mathematical value of this network: its layers' neurons, in order.
    spec fn model(&self) -> Seq<Seq<NeuronModel<S>>>;

    /// The layers, nearest the input first.
    fn hidden_layers(&self) -> (r: &Vec<Self::HiddenLayer>)
        ensures
            r@.map_values(|l: Self::HiddenLayer| l.model()) == self.model(),
    ;

    /// One forward run: the final layer's output on the given inputs.
    fn active(&self, inputs: &Vec<S>) -> (r: Vec<S>)
        requires
            self.model().len() >= 1,
            net_wf(self.model(), inputs@.len() as int),
        ensures
            r@ == spec_act_at(self.model(), inputs@, self.model().len() as int),
    ;

    /// The same forward run, returning the whole activation stack — the
    /// inputs, then each layer's output in order. Training needs this: the
    /// local gradients read each layer's own output, and the weight deltas
    /// read the upstream activation feeding each weight.
    fn all_layers_result(&self, inputs: &Vec<S>) -> (r: Vec<Vec<S>>)
        requires
            self.model().len() >= 1,
            net_wf(self.model(), inputs@.len() as int),
        ensures
            r@.map_values(|v: Vec<S>| v@) == spec_stack(self.model(), inputs@),
    ;
}

/// The number of scalars a freshly built network draws from its initial
/// values, walking the layers of topology `cfg` in order: first the widths
/// `cfg[1..=layer]`, each neuron taking one threshold and one weight per
/// upstream output.
pub open spec fn spec_layer_off(cfg: Seq<usize>, layer: int) -> int
    decreases layer,
{
    if layer <= 0 {
        0
    } else {
        spec_layer_off(cfg, layer - 1) + cfg[layer] * (cfg[layer - 1] + 1)
    }
}

/// The scalars the whole topology consumes.
pub open spec fn spec_param_count(cfg: Seq<usize>) -> int {
    spec_layer_off(cfg, cfg.len() - 1)
}

/// Where neuron `j` of layer `m` starts inside the initial values: its
/// threshold sits there and its weights follow.
pub open spec fn spec_neuron_off(cfg: Seq<usize>, m: int, j: int) -> int {
    spec_layer_off(cfg, m) + j * (cfg[m] + 1)
}

/// The network that construction from topology `cfg` and initial values
/// `init` yields: `cfg.len() - 1` layers, layer `m` of width `cfg[m + 1]`,
/// each of its neurons with `cfg[m]` weights, thresholds and weights read
/// from `init` in construction order.
pub open spec fn spec_built_net<S: Signal>(cfg: Seq<usize>, init: Seq<S>) -> Seq<
    Seq<NeuronModel<S>>,
> {
    Seq::new(
        (cfg.len() - 1) as nat,
        |m: int|
            Seq::new(
                cfg[m + 1] as nat,
                |j: int|
                    (NeuronModel {
                        threshold: init[spec_neuron_off(cfg, m, j)],
                        weights: Seq::new(
                            cfg[m] as nat,
                            |w: int| init[spec_neuron_off(cfg, m, j) + 1 + w],
                        ),
                    }),
            ),
    )
}

/// The concrete network of sigmoid layers.
pub struct SigmoidNetwork<S: Signal> {
    pub hidden_layers: Vec<SigmoidLayer<S>>,
}

impl<S: Signal> View for SigmoidNetwork<S> {
    type V = Seq<Seq<NeuronModel<S>>>;

    open spec fn view(&self) -> Seq<Seq<NeuronModel<S>>> {
        self.hidden_layers@.map_values(|l: SigmoidLayer<S>| l@)
    }
}

impl<S: Signal> SigmoidNetwork<S> {
    /// A network built from a topology (`cfg[0]` the input width, the rest
    /// the layer widths) and the initial parameter values, consumed in
    /// construction order: per layer, per neuron, the threshold and then the
    /// weights.
    ///
    /// Where the values come from is the caller's initialization strategy —
    /// small values, not all equal, to break symmetry; a seeded uniform draw
    /// or an arithmetic ramp both do.
    pub fn new(cfg: &[usize], init: &Vec<S>) -> (r: SigmoidNetwork<S>)
        requires
            cfg@.len() >= 2,
            init@.len() == spec_param_count(cfg@),
        ensures
            r@ == spec_built_net(cfg@, init@),
            r@.len() == cfg@.len() - 1,
            net_wf(r@, cfg@[0] as int),
    {
        // pins the fact that `init` fits in a usize-indexed vector, for the
        // index arithmetic of the loops below
        let _init_len: usize = init.len();
        let mut hl: Vec<SigmoidLayer<S>> = Vec::new();
        let mut pos: usize = 0;
        let mut i: usize = 1;
        while i < cfg.len()
            invariant
                1 <= i <= cfg@.len(),
                cfg@.len() >= 2,
                init@.len() <= usize::MAX,
                init@.len() == spec_param_count(cfg@),
                pos == spec_layer_off(cfg@, i as int - 1),
                hl@.len() == i - 1,
                forall|m: int|
                    0 <= m < i - 1 ==> (#[trigger] hl@[m])@ == spec_built_net(cfg@, init@)[m],
            decreases cfg@.len() - i,
        {
            proof {
                lemma_layer_off_le(cfg@, i as int, cfg@.len() as int - 1);
                assert(spec_layer_off(cfg@, i as int) == pos + (cfg@[i as int] * (cfg@[i as int
                    - 1] + 1)));
            }
            let width: usize = cfg[i];
            let fan_in: usize = cfg[i - 1];
            let mut neurons: Vec<SigmoidNeuron<S>> = Vec::new();
            let mut j: usize = 0;
            while j < width
                invariant
                    j <= width,
                    1 <= i < cfg@.len(),
                    width == cfg@[i as int],
                    fan_in == cfg@[i as int - 1],
                    init@.len() <= usize::MAX,
                    spec_layer_off(cfg@, i as int - 1) + width * (fan_in + 1) <= init@.len(),
                    pos == spec_layer_off(cfg@, i as int - 1) + j * (fan_in + 1),
                    neurons@.len() == j,
                    forall|k: int|
                        0 <= k < j ==> (#[trigger] neurons@[k])@ == spec_built_net(
                            cfg@,
                            init@,
                        )[i - 1][k],
                decreases width - j,
            {
                proof {
                    vstd::arithmetic::mul::lemma_mul_inequality(
                        j as int + 1,
                        width as int,
                        fan_in as int + 1,
                    );
                    assert((j + 1) * (fan_in + 1) == j * (fan_in + 1) + (fan_in + 1))
                        by (nonlinear_arith);
                }
                let threshold: S = init[pos];
                pos = pos + 1;
                let mut ws: Vec<S> = Vec::new();
                let mut w: usize = 0;
                while w < fan_in
                    invariant
                        w <= fan_in,
                        init@.len() <= usize::MAX,
                        pos == spec_neuron_off(cfg@, i as int - 1, j as int) + 1 + w,
                        pos + (fan_in - w) <= init@.len(),
                        ws@.len() == w,
                        forall|u: int|
                            0 <= u < w ==> (#[trigger] ws@[u]) == init@[spec_neuron_off(
                                cfg@,
                                i as int - 1,
                                j as int,
                            ) + 1 + u],
                    decreases fan_in - w,
                {
                    ws.push(init[pos]);
                    pos = pos + 1;
                    w = w + 1;
                }
                let n = SigmoidNeuron { threshold, weights: ws };
                neurons.push(n);
                proof {
                    assert(neurons@[j as int]@.weights =~= spec_built_net(cfg@, init@)[i
                        - 1][j as int].weights);
                    assert(neurons@[j as int]@ == spec_built_net(cfg@, init@)[i - 1][j as int]);
                }
                j = j + 1;
            }
            let layer = SigmoidLayer { neurons };
            proof {
                assert(layer@ =~= spec_built_net(cfg@, init@)[i as int - 1]);
            }
            hl.push(layer);
            i = i + 1;
        }
        let r = SigmoidNetwork { hidden_layers: hl };
        proof {
            assert(r@ =~= spec_built_net(cfg@, init@));
            lemma_built_net_wf::<S>(cfg@, init@);
        }
        r
    }
}

/// The shape invariant of construction: topology `[i0, i1, ..., ik]` yields
/// `k` layers; layer `m` has width `i_{m+1}`, and each of its neurons has
/// exactly `i_m` weights.
pub proof fn lemma_built_net_shape<S: Signal>(cfg: Seq<usize>, init: Seq<S>)
    requires
        cfg.len() >= 2,
    ensures
        ({
            let net = spec_built_net::<S>(cfg, init);
            &&& net.len() == cfg.len() - 1
            &&& (forall|m: int| 0 <= m < net.len() ==> (#[trigger] net[m]).len() == cfg[m + 1])
            &&& (forall|m: int, j: int|
                0 <= m < net.len() && 0 <= j < net[m].len() ==> (#[trigger] net[m][j]).weights.len()
                    == cfg[m])
        }),
{
}

/// Prefixes of the parameter walk never shrink.
proof fn lemma_layer_off_le(cfg: Seq<usize>, a: int, b: int)
    requires
        a <= b,
    ensures
        spec_layer_off(cfg, a) <= spec_layer_off(cfg, b),
    decreases b - a,
{
    if a < b {
        lemma_layer_off_le(cfg, a, b - 1);
        assert(cfg[b] * (cfg[b - 1] + 1) >= 0) by (nonlinear_arith);
    }
}

/// A freshly built network is shape-consistent for its own topology.
proof fn lemma_built_net_wf<S: Signal>(cfg: Seq<usize>, init: Seq<S>)
    requires
        cfg.len() >= 2,
    ensures
        net_wf(spec_built_net::<S>(cfg, init), cfg[0] as int),
{
    let m = spec_built_net::<S>(cfg, init);
    assert forall|i: int| 1 <= i < m.len() implies layer_wf(#[trigger] m[i], m[i - 1].len() as int) by {
        assert(m[i - 1].len() == cfg[i] as int);
        assert(forall|j: int| 0 <= j < m[i].len() ==> (#[trigger] m[i][j]).weights.len() == cfg[i]);
    }
}

impl<S: Signal> NeuronNetwork<S> for SigmoidNetwork<S> {
    type HiddenLayerNeuron = SigmoidNeuron<S>;

    type HiddenLayer = SigmoidLayer<S>;

    open spec fn model(&self) -> Seq<Seq<NeuronModel<S>>> {
        self@
    }

    fn hidden_layers(&self) -> (r: &Vec<SigmoidLayer<S>>) {
        proof {
            assert(self.hidden_layers@.map_values(|l: SigmoidLayer<S>| Layer::<S>::model(&l))
                =~= self@);
        }
        &self.hidden_layers
    }

    fn active(&self, inputs: &Vec<S>) -> (r: Vec<S>) {
        proof {
            assert(spec_act_at(self@, inputs@, 0) == inputs@);
        }
        let mut pre_layer_result: Vec<S> = self.hidden_layers[0].forward(inputs);
        let mut i: usize = 1;
        while i < self.hidden_layers.len()
            invariant
                1 <= i <= self.hidden_layers@.len(),
                net_wf(self@, inputs@.len() as int),
                pre_layer_result@ == spec_act_at(self@, inputs@, i as int),
            decreases self.hidden_layers@.len() - i,
        {
            proof {
                assert(pre_layer_result@.len() == self@[i as int - 1].len());
                assert(layer_wf(self@[i as int], self@[i as int - 1].len() as int));
                assert(self@[i as int] == self.hidden_layers@[i as int]@);
            }
            pre_layer_result = self.hidden_layers[i].forward(&pre_layer_result);
            i = i + 1;
        }
        pre_layer_result
    }

    fn all_layers_result(&self, inputs: &Vec<S>) -> (r: Vec<Vec<S>>) {
        proof {
            assert(spec_act_at(self@, inputs@, 0) == inputs@);
        }
        let mut rt: Vec<Vec<S>> = Vec::new();
        let mut pre_layer_result: Vec<S> = self.hidden_layers[0].forward(inputs);
        rt.push(copy_signals(inputs));
        rt.push(copy_signals(&pre_layer_result));
        let mut i: usize = 1;
        while i < self.hidden_layers.len()
            invariant
                1 <= i <= self.hidden_layers@.len(),
                net_wf(self@, inputs@.len() as int),
                pre_layer_result@ == spec_act_at(self@, inputs@, i as int),
                rt@.len() == i + 1,
                forall|k: int|
                    0 <= k <= i ==> (#[trigger] rt@[k])@ == spec_act_at(self@, inputs@, k),
            decreases self.hidden_layers@.len() - i,
        {
            proof {
                assert(pre_layer_result@.len() == self@[i as int - 1].len());
                assert(layer_wf(self@[i as int], self@[i as int - 1].len() as int));
                assert(self@[i as int] == self.hidden_layers@[i as int]@);
            }
            let this_hidden_layer_result = self.hidden_layers[i].forward(&pre_layer_result);
            rt.push(copy_signals(&this_hidden_layer_result));
            pre_layer_result = this_hidden_layer_result;
            i = i + 1;
        }
        proof {
            assert(rt@.map_values(|v: Vec<S>| v@) =~= spec_stack(self@, inputs@));
        }
        rt
    }
}

} // verus!
