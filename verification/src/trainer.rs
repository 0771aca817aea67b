//! The trainer: one-sample backpropagation with momentum, epochs over a
//! sample set in order, and the outer convergence loop.

use vstd::prelude::*;

use crate::base::copy_signals;
use crate::base::spec_sigmoid_deriv;
use crate::base::Signal;
use crate::layer::layer_wf;
use crate::layer::SigmoidLayer;
use crate::network::net_wf;
use crate::network::spec_stack;
use crate::network::NeuronNetwork;
use crate::network::SigmoidNetwork;
use crate::neuron::NeuronModel;
use crate::neuron::SigmoidNeuron;

verus! {

/// The rows of a vector of vectors, as a sequence of sequences.
pub open spec fn rows_view<S>(v: Seq<Vec<S>>) -> Seq<Seq<S>> {
    v.map_values(|x: Vec<S>| x@)
}

/// The view of a momentum state held as nested vectors.
pub open spec fn deltas_view<S>(d: Seq<Vec<Vec<S>>>) -> Seq<Seq<Seq<S>>> {
    d.map_values(|x: Vec<Vec<S>>| x@.map_values(|y: Vec<S>| y@))
}

/// The momentum state is shaped exactly like the network: per layer, per
/// neuron, one slot per weight plus a final slot for the threshold.
pub open spec fn deltas_wf<S>(d: Seq<Seq<Seq<S>>>, m: Seq<Seq<NeuronModel<S>>>) -> bool {
    &&& d.len() == m.len()
    &&& (forall|i: int| 0 <= i < m.len() ==> (#[trigger] d[i]).len() == m[i].len())
    &&& (forall|i: int, j: int|
        0 <= i < m.len() && 0 <= j < m[i].len() ==> (#[trigger] d[i][j]).len() == m[i][j].weights.len()
            + 1)
}

/// The zero-filled momentum state for a network.
pub open spec fn spec_zero_deltas<S: Signal>(m: Seq<Seq<NeuronModel<S>>>) -> Seq<Seq<Seq<S>>> {
    Seq::new(
        m.len(),
        |i: int|
            Seq::new(
                m[i].len(),
                |j: int| Seq::new(m[i][j].weights.len() + 1, |k: int| S::zero_spec()),
            ),
    )
}

/// `Σ (target_k - out_k)²` over the first `n` output units, folded from zero
/// exactly as the loop accumulates it.
pub open spec fn spec_sq_err_prefix<S: Signal>(out: Seq<S>, target: Seq<S>, n: int) -> S
    decreases n,
{
    if n <= 0 {
        S::zero_spec()
    } else {
        let d = target[n - 1].sub_spec(out[n - 1]);
        spec_sq_err_prefix(out, target, n - 1).add_spec(d.mul_spec(d))
    }
}

/// The sample's mean squared error: the summed squared differences, divided
/// by the output width.
pub open spec fn spec_mse<S: Signal>(out: Seq<S>, target: Seq<S>) -> S {
    spec_sq_err_prefix(out, target, out.len() as int).div_spec(
        S::from_usize_spec(out.len() as usize),
    )
}

/// Output-layer local gradients: `(target_k - out_k) * out_k * (1 - out_k)`.
pub open spec fn spec_out_errors<S: Signal>(out: Seq<S>, target: Seq<S>) -> Seq<S> {
    Seq::new(
        out.len(),
        |k: int| (target[k].sub_spec(out[k])).mul_spec(spec_sigmoid_deriv(out[k])),
    )
}

/// The blame carried back to neuron `j` from the first `n` units of the
/// following layer: `Σ_k weight_{k→j} * δ_{k}`, folded from zero in unit
/// order, over the following layer's weights as they were before any update
/// of the current sample.
pub open spec fn spec_blame_prefix<S: Signal>(
    next_layer: Seq<NeuronModel<S>>,
    next_errors: Seq<S>,
    j: int,
    n: int,
) -> S
    decreases n,
{
    if n <= 0 {
        S::zero_spec()
    } else {
        spec_blame_prefix(next_layer, next_errors, j, n - 1).add_spec(
            next_layer[n - 1].weights[j].mul_spec(next_errors[n - 1]),
        )
    }
}

/// The local-gradient vector of layer `i`, backward from the output layer:
/// the output layer's gradients come from the targets, and every hidden
/// unit's blame is the activation-derivative-weighted sum of the blame of
/// every unit it feeds into.
pub open spec fn spec_errors_at<S: Signal>(
    m: Seq<Seq<NeuronModel<S>>>,
    stack: Seq<Seq<S>>,
    target: Seq<S>,
    i: int,
) -> Seq<S>
    decreases m.len() - i,
{
    if i >= m.len() - 1 {
        spec_out_errors(stack[m.len() as int], target)
    } else {
        let next = spec_errors_at(m, stack, target, i + 1);
        Seq::new(
            m[i].len(),
            |j: int|
                spec_blame_prefix(m[i + 1], next, j, m[i + 1].len() as int).mul_spec(
                    spec_sigmoid_deriv(stack[i + 1][j]),
                ),
        )
    }
}

/// The update applied to a threshold: `rate * δ + momentum * previous delta`.
pub open spec fn spec_thr_delta<S: Signal>(err: S, prev: S, rate: S, momentum: S) -> S {
    (rate.mul_spec(err)).add_spec(momentum.mul_spec(prev))
}

/// The update applied to a weight: `rate * δ * upstream activation +
/// momentum * previous delta`.
pub open spec fn spec_w_delta<S: Signal>(err: S, upstream: S, prev: S, rate: S, momentum: S) -> S {
    (rate.mul_spec(err).mul_spec(upstream)).add_spec(momentum.mul_spec(prev))
}

/// Every delta one sample applies — and stores as the next sample's
/// "previous" delta. For layer `i`, neuron `j`: slot `w` below the weight
/// count carries the weight delta, fed by the upstream activation
/// `stack[i][w]`; the last slot carries the threshold delta.
pub open spec fn spec_sample_deltas<S: Signal>(
    m: Seq<Seq<NeuronModel<S>>>,
    stack: Seq<Seq<S>>,
    errs: Seq<Seq<S>>,
    prev: Seq<Seq<Seq<S>>>,
    rate: S,
    momentum: S,
) -> Seq<Seq<Seq<S>>> {
    Seq::new(
        m.len(),
        |i: int|
            Seq::new(
                m[i].len(),
                |j: int|
                    Seq::new(
                        m[i][j].weights.len() + 1,
                        |k: int|
                            if k == m[i][j].weights.len() {
                                spec_thr_delta(errs[i][j], prev[i][j][k], rate, momentum)
                            } else {
                                spec_w_delta(
                                    errs[i][j],
                                    stack[i][k],
                                    prev[i][j][k],
                                    rate,
                                    momentum,
                                )
                            },
                    ),
            ),
    )
}

/// The network after one sample: every weight and threshold moved by its
/// delta, all deltas computed from the pre-update network.
pub open spec fn spec_sample_net<S: Signal>(
    m: Seq<Seq<NeuronModel<S>>>,
    ds: Seq<Seq<Seq<S>>>,
) -> Seq<Seq<NeuronModel<S>>> {
    Seq::new(
        m.len(),
        |i: int|
            Seq::new(
                m[i].len(),
                |j: int|
                    (NeuronModel {
                        threshold: m[i][j].threshold.add_spec(
                            ds[i][j][m[i][j].weights.len() as int],
                        ),
                        weights: Seq::new(
                            m[i][j].weights.len(),
                            |w: int| m[i][j].weights[w].add_spec(ds[i][j][w]),
                        ),
                    }),
            ),
    )
}

/// Everything one training sample does, from the pre-sample network `m` and
/// momentum state `prev`: the updated network, the stored deltas, and the
/// sample's mean squared error (computed from the forward pass, before any
/// update).
pub open spec fn spec_train_sample<S: Signal>(
    m: Seq<Seq<NeuronModel<S>>>,
    prev: Seq<Seq<Seq<S>>>,
    inputs: Seq<S>,
    target: Seq<S>,
    rate: S,
    momentum: S,
) -> (Seq<Seq<NeuronModel<S>>>, Seq<Seq<Seq<S>>>, S) {
    let stack = spec_stack(m, inputs);
    let errs = Seq::new(m.len(), |i: int| spec_errors_at(m, stack, target, i));
    let ds = spec_sample_deltas(m, stack, errs, prev, rate, momentum);
    (spec_sample_net(m, ds), ds, spec_mse(stack[m.len() as int], target))
}

/// The trainer's state after the first `n` samples of an epoch: the network,
/// the momentum state — zero-filled before the first sample — and the
/// accumulated error, summed in sample order.
pub open spec fn spec_epoch_state<S: Signal>(
    m: Seq<Seq<NeuronModel<S>>>,
    inputs: Seq<Seq<S>>,
    excepts: Seq<Seq<S>>,
    rate: S,
    momentum: S,
    n: int,
) -> (Seq<Seq<NeuronModel<S>>>, Seq<Seq<Seq<S>>>, S)
    decreases n,
{
    if n <= 0 {
        (m, spec_zero_deltas(m), S::zero_spec())
    } else {
        let prev = spec_epoch_state(m, inputs, excepts, rate, momentum, n - 1);
        let step = spec_train_sample(prev.0, prev.1, inputs[n - 1], excepts[n - 1], rate, momentum);
        (step.0, step.1, prev.2.add_spec(step.2))
    }
}

/// One full epoch: the trained network and the summed — not averaged —
/// error over the samples, taken in the given order.
pub open spec fn spec_epoch<S: Signal>(
    m: Seq<Seq<NeuronModel<S>>>,
    inputs: Seq<Seq<S>>,
    excepts: Seq<Seq<S>>,
    rate: S,
    momentum: S,
) -> (Seq<Seq<NeuronModel<S>>>, S) {
    let state = spec_epoch_state(m, inputs, excepts, rate, momentum, inputs.len() as int);
    (state.0, state.2)
}

/// The network after `k` whole epochs.
pub open spec fn spec_net_after<S: Signal>(
    m: Seq<Seq<NeuronModel<S>>>,
    inputs: Seq<Seq<S>>,
    excepts: Seq<Seq<S>>,
    rate: S,
    momentum: S,
    k: int,
) -> Seq<Seq<NeuronModel<S>>>
    decreases k,
{
    if k <= 0 {
        m
    } else {
        spec_epoch(
            spec_net_after(m, inputs, excepts, rate, momentum, k - 1),
            inputs,
            excepts,
            rate,
            momentum,
        ).0
    }
}

/// The error reported by epoch `k` (zero-based).
pub open spec fn spec_err_at<S: Signal>(
    m: Seq<Seq<NeuronModel<S>>>,
    inputs: Seq<Seq<S>>,
    excepts: Seq<Seq<S>>,
    rate: S,
    momentum: S,
    k: int,
) -> S {
    spec_epoch(spec_net_after(m, inputs, excepts, rate, momentum, k), inputs, excepts, rate, momentum).1
}

/// Two networks of exactly the same shape: as many layers, as wide, with as
/// many weights per neuron.
pub open spec fn net_same_shape<S>(
    a: Seq<Seq<NeuronModel<S>>>,
    b: Seq<Seq<NeuronModel<S>>>,
) -> bool {
    &&& a.len() == b.len()
    &&& (forall|i: int| 0 <= i < b.len() ==> (#[trigger] a[i]).len() == b[i].len())
    &&& (forall|i: int, j: int|
        0 <= i < b.len() && 0 <= j < b[i].len() ==> (#[trigger] a[i][j]).weights.len()
            == b[i][j].weights.len())
}

/// A sample set fit for a network: as many targets as inputs, every input as
/// wide as the network's fan-in asks, every target as wide as the output
/// layer.
pub open spec fn samples_wf<S: Signal>(
    m: Seq<Seq<NeuronModel<S>>>,
    inputs: Seq<Seq<S>>,
    excepts: Seq<Seq<S>>,
) -> bool {
    &&& inputs.len() == excepts.len()
    &&& (forall|s: int|
        0 <= s < inputs.len() ==> net_wf(m, (#[trigger] inputs[s]).len() as int))
    &&& (forall|s: int|
        0 <= s < excepts.len() ==> (#[trigger] excepts[s]).len() == m.last().len())
}

/// One sample's update never reshapes the network or the momentum state.
pub proof fn lemma_sample_shape<S: Signal>(
    m: Seq<Seq<NeuronModel<S>>>,
    prev: Seq<Seq<Seq<S>>>,
    inputs: Seq<S>,
    target: Seq<S>,
    rate: S,
    momentum: S,
)
    ensures
        ({
            let step = spec_train_sample(m, prev, inputs, target, rate, momentum);
            &&& net_same_shape(step.0, m)
            &&& deltas_wf(step.1, m)
        }),
{
}

/// Shape-equal networks are shape-consistent for the same input widths.
pub proof fn lemma_same_shape_wf<S: Signal>(
    a: Seq<Seq<NeuronModel<S>>>,
    b: Seq<Seq<NeuronModel<S>>>,
    w: int,
)
    requires
        net_same_shape(a, b),
        net_wf(b, w),
    ensures
        net_wf(a, w),
{
    assert forall|i: int| 1 <= i < a.len() implies crate::layer::layer_wf(
        #[trigger] a[i],
        a[i - 1].len() as int,
    ) by {
        assert(crate::layer::layer_wf(b[i], b[i - 1].len() as int));
        assert forall|j: int| 0 <= j < a[i].len() implies (#[trigger] a[i][j]).weights.len() == a[i
            - 1].len() by {
            assert(b[i][j].weights.len() == b[i - 1].len());
        }
    }
    if a.len() > 0 {
        assert forall|j: int| 0 <= j < a[0].len() implies (#[trigger] a[0][j]).weights.len()
            == w by {
            assert(b[0][j].weights.len() == w);
        }
    }
}

/// Shape equality is preserved through every prefix of an epoch, and the
/// momentum state stays shaped to the network.
pub proof fn lemma_epoch_state_shape<S: Signal>(
    m: Seq<Seq<NeuronModel<S>>>,
    inputs: Seq<Seq<S>>,
    excepts: Seq<Seq<S>>,
    rate: S,
    momentum: S,
    n: int,
)
    ensures
        ({
            let state = spec_epoch_state(m, inputs, excepts, rate, momentum, n);
            &&& net_same_shape(state.0, m)
            &&& deltas_wf(state.1, m)
        }),
    decreases n,
{
    if n <= 0 {
    } else {
        lemma_epoch_state_shape(m, inputs, excepts, rate, momentum, n - 1);
        let prev = spec_epoch_state(m, inputs, excepts, rate, momentum, n - 1);
        lemma_sample_shape(prev.0, prev.1, inputs[n - 1], excepts[n - 1], rate, momentum);
    }
}

/// A trainer for one kind of network: one-sample training, one-epoch
/// training, and the outer convergence loop.
pub trait Trainer<S: Signal>: Sized {
    type Network: NeuronNetwork<S>;

    /// Train on one sample: forward pass, backward error propagation, then
    /// the momentum update of every weight and threshold. Returns the
    /// sample's mean squared error, computed from the forward pass before
    /// any parameter moved.
    ///
    /// The whole effect is pinned by [`spec_train_sample`]: in particular,
    /// every local gradient is computed from the weights as they were when
    /// the sample started — no update happens until the backward pass is
    /// complete.
    fn train_a_sample(
        &mut self,
        network: &mut Self::Network,
        inputs: &Vec<S>,
        excepts: &Vec<S>,
        rate: S,
        momentum: S,
        pre_deltas: &mut Vec<Vec<Vec<S>>>,
    ) -> (rt: S)
        requires
            old(network).model().len() >= 1,
            net_wf(old(network).model(), inputs@.len() as int),
            excepts@.len() == old(network).model().last().len(),
            deltas_wf(deltas_view(old(pre_deltas)@), old(network).model()),
        ensures
            ({
                let step = spec_train_sample(
                    old(network).model(),
                    deltas_view(old(pre_deltas)@),
                    inputs@,
                    excepts@,
                    rate,
                    momentum,
                );
                &&& final(network).model() == step.0
                &&& deltas_view(final(pre_deltas)@) == step.1
                &&& rt == step.2
            }),
    ;

    /// Train one epoch: a momentum state zero-filled afresh, then every
    /// sample in the given order, returning the sum — not the mean — of
    /// the per-sample errors.
    fn train_epoch(
        &mut self,
        network: &mut Self::Network,
        inputs: &Vec<Vec<S>>,
        excepts: &Vec<Vec<S>>,
        rate: S,
        momentum: S,
    ) -> (total_errors: S)
        requires
            old(network).model().len() >= 1,
            samples_wf(old(network).model(), rows_view(inputs@), rows_view(excepts@)),
        ensures
            ({
                let trained = spec_epoch(
                    old(network).model(),
                    rows_view(inputs@),
                    rows_view(excepts@),
                    rate,
                    momentum,
                );
                &&& final(network).model() == trained.0
                &&& total_errors == trained.1
            }),
    ;

    /// Run up to `max_epochs` epochs; after each, stop successfully if the
    /// epoch's summed error came within `target_errors`. `Ok` carries that
    /// error and the zero-based index of the successful epoch; exhausting
    /// the budget is an ordinary outcome, reported as `Err` with the last
    /// epoch's error (zero if no epoch ran) and the budget itself.
    fn train(
        &mut self,
        network: &mut Self::Network,
        inputs: &Vec<Vec<S>>,
        excepts: &Vec<Vec<S>>,
        target_errors: S,
        rate: S,
        momentum: S,
        max_epochs: usize,
    ) -> (r: Result<(S, usize), (S, usize)>)
        requires
            old(network).model().len() >= 1,
            samples_wf(old(network).model(), rows_view(inputs@), rows_view(excepts@)),
        ensures
            ({
                let m0 = old(network).model();
                let ins = rows_view(inputs@);
                let exs = rows_view(excepts@);
                match r {
                    Ok((e, cnt)) => {
                        &&& cnt < max_epochs
                        &&& e == spec_err_at(m0, ins, exs, rate, momentum, cnt as int)
                        &&& e.le_spec(target_errors)
                        &&& (forall|q: int|
                            0 <= q < cnt ==> !(#[trigger] spec_err_at(
                                m0,
                                ins,
                                exs,
                                rate,
                                momentum,
                                q,
                            )).le_spec(target_errors))
                        &&& final(network).model() == spec_net_after(
                            m0,
                            ins,
                            exs,
                            rate,
                            momentum,
                            cnt + 1,
                        )
                    },
                    Err((e, cnt)) => {
                        &&& cnt == max_epochs
                        &&& (forall|q: int|
                            0 <= q < max_epochs ==> !(#[trigger] spec_err_at(
                                m0,
                                ins,
                                exs,
                                rate,
                                momentum,
                                q,
                            )).le_spec(target_errors))
                        &&& final(network).model() == spec_net_after(
                            m0,
                            ins,
                            exs,
                            rate,
                            momentum,
                            max_epochs as int,
                        )
                        &&& e == (if max_epochs == 0 {
                            S::zero_spec()
                        } else {
                            spec_err_at(m0, ins, exs, rate, momentum, max_epochs as int - 1)
                        })
                    },
                }
            }),
    ;
}

/// `v * (1 - v)`: the logistic-derivative shortcut on an already-computed
/// activation.
fn sigmoid_rev<S: Signal>(v: S) -> (r: S)
    ensures
        r == spec_sigmoid_deriv(v),
{
    v.mul(S::one().sub(v))
}

/// The mean squared error of one output vector against its target.
fn calculate_error<S: Signal>(last_results: &Vec<S>, targets: &Vec<S>) -> (r: S)
    requires
        last_results@.len() == targets@.len(),
    ensures
        r == spec_mse(last_results@, targets@),
{
    let mut total: S = S::zero();
    let mut k: usize = 0;
    while k < last_results.len()
        invariant
            k <= last_results@.len(),
            targets@.len() == last_results@.len(),
            total == spec_sq_err_prefix(last_results@, targets@, k as int),
        decreases last_results@.len() - k,
    {
        let d = targets[k].sub(last_results[k]);
        total = total.add(d.mul(d));
        k = k + 1;
    }
    total.div(S::from_usize(last_results.len()))
}

/// Epoch error accumulation: each sample of an epoch adds its own mean
/// squared error to the running total — the epoch reports the plain sum,
/// folded in sample order, never divided by the sample count.
pub proof fn lemma_epoch_error_is_sum<S: Signal>(
    m: Seq<Seq<NeuronModel<S>>>,
    inputs: Seq<Seq<S>>,
    excepts: Seq<Seq<S>>,
    rate: S,
    momentum: S,
    n: int,
)
    requires
        1 <= n,
    ensures
        ({
            let prev = spec_epoch_state(m, inputs, excepts, rate, momentum, n - 1);
            let step = spec_train_sample(
                prev.0,
                prev.1,
                inputs[n - 1],
                excepts[n - 1],
                rate,
                momentum,
            );
            spec_epoch_state(m, inputs, excepts, rate, momentum, n).2 == prev.2.add_spec(step.2)
        }),
{
}

/// Momentum reset: every epoch starts from a zero-filled momentum state, so
/// its first sample computes every delta from previous deltas that are all
/// zero — whatever earlier epochs did.
pub proof fn lemma_momentum_reset<S: Signal>(
    m: Seq<Seq<NeuronModel<S>>>,
    inputs: Seq<Seq<S>>,
    excepts: Seq<Seq<S>>,
    rate: S,
    momentum: S,
)
    requires
        inputs.len() >= 1,
    ensures
        spec_epoch_state(m, inputs, excepts, rate, momentum, 0).1 == spec_zero_deltas(m),
        spec_epoch_state(m, inputs, excepts, rate, momentum, 1).1 == spec_train_sample(
            m,
            spec_zero_deltas(m),
            inputs[0],
            excepts[0],
            rate,
            momentum,
        ).1,
{
    assert(spec_epoch_state(m, inputs, excepts, rate, momentum, 0).0 == m);
    assert(spec_epoch_state(m, inputs, excepts, rate, momentum, 0).1 == spec_zero_deltas(m));
}

/// No in-place mutation during the backward pass: every local gradient and
/// every stored delta of one sample is a function of the network exactly as
/// it stood when the sample began; the moved weights appear only in the
/// updated network the sample hands back.
pub proof fn lemma_backward_reads_pre_update_weights<S: Signal>(
    m: Seq<Seq<NeuronModel<S>>>,
    prev: Seq<Seq<Seq<S>>>,
    inputs: Seq<S>,
    target: Seq<S>,
    rate: S,
    momentum: S,
)
    ensures
        ({
            let stack = spec_stack(m, inputs);
            let step = spec_train_sample(m, prev, inputs, target, rate, momentum);
            &&& step.1 == spec_sample_deltas(
                m,
                stack,
                Seq::new(m.len(), |i: int| spec_errors_at(m, stack, target, i)),
                prev,
                rate,
                momentum,
            )
            &&& step.0 == spec_sample_net(m, step.1)
        }),
{
}

/// A momentum state shaped to one network is shaped to every network of the
/// same shape.
pub proof fn lemma_same_shape_deltas_wf<S: Signal>(
    d: Seq<Seq<Seq<S>>>,
    a: Seq<Seq<NeuronModel<S>>>,
    b: Seq<Seq<NeuronModel<S>>>,
)
    requires
        net_same_shape(a, b),
        deltas_wf(d, b),
    ensures
        deltas_wf(d, a),
{
    assert forall|i: int, j: int|
        0 <= i < a.len() && 0 <= j < a[i].len() implies (#[trigger] d[i][j]).len()
        == a[i][j].weights.len() + 1 by {
        assert(d[i][j].len() == b[i][j].weights.len() + 1);
    }
}

/// Shape equality is preserved through whole epochs.
pub proof fn lemma_net_after_shape<S: Signal>(
    m: Seq<Seq<NeuronModel<S>>>,
    inputs: Seq<Seq<S>>,
    excepts: Seq<Seq<S>>,
    rate: S,
    momentum: S,
    k: int,
)
    ensures
        net_same_shape(spec_net_after(m, inputs, excepts, rate, momentum, k), m),
    decreases k,
{
    if k <= 0 {
    } else {
        lemma_net_after_shape(m, inputs, excepts, rate, momentum, k - 1);
        let prev = spec_net_after(m, inputs, excepts, rate, momentum, k - 1);
        lemma_epoch_state_shape(prev, inputs, excepts, rate, momentum, inputs.len() as int);
    }
}

/// The trainer for [`SigmoidNetwork`]s.
pub struct SigmoidNetworkTrainer;

impl<S: Signal> Trainer<S> for SigmoidNetworkTrainer {
    type Network = SigmoidNetwork<S>;

    #[verifier::loop_isolation(false)]
    fn train_a_sample(
        &mut self,
        network: &mut SigmoidNetwork<S>,
        inputs: &Vec<S>,
        excepts: &Vec<S>,
        rate: S,
        momentum: S,
        pre_deltas: &mut Vec<Vec<Vec<S>>>,
    ) -> (rt: S) {
        let ghost m = old(network)@;
        let ghost stack = spec_stack(m, inputs@);
        let ghost errs_all = Seq::new(m.len(), |i: int| spec_errors_at(m, stack, excepts@, i));
        let ghost prev = deltas_view(old(pre_deltas)@);
        let layer_count: usize = network.hidden_layers.len();

        // forward, keeping every layer's result
        let results: Vec<Vec<S>> = network.all_layers_result(inputs);
        proof {
            assert(rows_view(results@) == stack);
            assert(results@.len() == stack.len());
            assert(forall|x: int|
                0 <= x < results@.len() ==> (#[trigger] results@[x])@ == stack[x]);
            assert(stack[m.len() as int].len() == m.last().len());
        }

        // the sample's error, from the forward results alone
        let last_index: usize = results.len() - 1;
        let rt = calculate_error(&results[last_index], excepts);

        // backward: the output layer's local gradients
        let mut next_errors: Vec<S> = Vec::new();
        let mut k: usize = 0;
        while k < excepts.len()
            invariant
                k <= excepts@.len(),
                next_errors@ == spec_out_errors(stack[m.len() as int], excepts@).take(k as int),
            decreases excepts@.len() - k,
        {
            let r = (excepts[k].sub(results[last_index][k])).mul(
                sigmoid_rev(results[last_index][k]),
            );
            next_errors.push(r);
            proof {
                assert(next_errors@ =~= spec_out_errors(stack[m.len() as int], excepts@).take(
                    k as int + 1,
                ));
            }
            k = k + 1;
        }
        proof {
            assert(next_errors@ =~= spec_out_errors(stack[m.len() as int], excepts@));
            assert(next_errors@ == spec_errors_at(m, stack, excepts@, m.len() as int - 1));
        }

        // backward through the hidden layers: every gradient reads the
        // following layer's weights as they were before this sample touched
        // anything
        let mut rev_errors: Vec<Vec<S>> = Vec::new();
        rev_errors.push(copy_signals(&next_errors));
        let mut cur: usize = layer_count - 1;
        while cur > 0
            invariant
                cur <= layer_count - 1,
                next_errors@ == spec_errors_at(m, stack, excepts@, cur as int),
                rev_errors@.len() == layer_count - cur,
                forall|t: int|
                    0 <= t < rev_errors@.len() ==> (#[trigger] rev_errors@[t])@ == spec_errors_at(
                        m,
                        stack,
                        excepts@,
                        m.len() - 1 - t,
                    ),
            decreases cur,
        {
            cur = cur - 1;
            proof {
                assert(m[cur as int] == network.hidden_layers@[cur as int]@);
                assert(m[cur as int + 1] == network.hidden_layers@[cur as int + 1]@);
                assert(layer_wf(m[cur as int + 1], m[cur as int].len() as int));
                assert(stack[cur as int + 1].len() == m[cur as int].len());
            }
            let cur_width: usize = network.hidden_layers[cur].neurons.len();
            let next_width: usize = network.hidden_layers[cur + 1].neurons.len();
            let mut current_layer_errors: Vec<S> = Vec::new();
            let mut j: usize = 0;
            while j < cur_width
                invariant
                    j <= cur_width,
                    current_layer_errors@ == spec_errors_at(m, stack, excepts@, cur as int).take(
                        j as int,
                    ),
                decreases cur_width - j,
            {
                let mut e: S = S::zero();
                let mut u: usize = 0;
                while u < next_width
                    invariant
                        u <= next_width,
                        e == spec_blame_prefix(
                            m[cur as int + 1],
                            spec_errors_at(m, stack, excepts@, cur as int + 1),
                            j as int,
                            u as int,
                        ),
                    decreases next_width - u,
                {
                    proof {
                        assert(m[cur as int + 1][u as int]
                            == network.hidden_layers@[cur as int + 1]@[u as int]);
                    }
                    e = e.add(
                        network.hidden_layers[cur + 1].neurons[u].weights[j].mul(next_errors[u]),
                    );
                    u = u + 1;
                }
                let e2 = e.mul(sigmoid_rev(results[cur + 1][j]));
                current_layer_errors.push(e2);
                proof {
                    assert(current_layer_errors@ =~= spec_errors_at(
                        m,
                        stack,
                        excepts@,
                        cur as int,
                    ).take(j as int + 1));
                }
                j = j + 1;
            }
            proof {
                assert(current_layer_errors@ =~= spec_errors_at(m, stack, excepts@, cur as int));
            }
            rev_errors.push(copy_signals(&current_layer_errors));
            next_errors = current_layer_errors;
        }

        // update: every gradient is in hand; now move every weight and
        // threshold by its delta, and store each delta for the next sample
        let ghost ds = spec_sample_deltas(m, stack, errs_all, prev, rate, momentum);
        let mut new_layers: Vec<SigmoidLayer<S>> = Vec::new();
        let mut new_deltas: Vec<Vec<Vec<S>>> = Vec::new();
        let mut li: usize = 0;
        while li < layer_count
            invariant
                li <= layer_count,
                new_layers@.len() == li,
                new_deltas@.len() == li,
                forall|i: int|
                    0 <= i < li ==> (#[trigger] new_layers@[i])@ == spec_sample_net(m, ds)[i],
                forall|i: int|
                    0 <= i < li ==> rows_view((#[trigger] new_deltas@[i])@) == ds[i],
            decreases layer_count - li,
        {
            proof {
                assert(m[li as int] == network.hidden_layers@[li as int]@);
                if li > 0 {
                    assert(m[li as int - 1] == network.hidden_layers@[li as int - 1]@);
                    assert(layer_wf(m[li as int], m[li as int - 1].len() as int));
                    assert(stack[li as int].len() == m[li as int - 1].len());
                } else {
                    assert(layer_wf(m[0], inputs@.len() as int));
                }
                assert(rev_errors@[layer_count - 1 - li as int]@ == errs_all[li as int]);
            }
            let neuron_cnt: usize = network.hidden_layers[li].neurons.len();
            let mut new_neurons: Vec<SigmoidNeuron<S>> = Vec::new();
            let mut layer_deltas: Vec<Vec<S>> = Vec::new();
            let mut nj: usize = 0;
            while nj < neuron_cnt
                invariant
                    nj <= neuron_cnt,
                    new_neurons@.len() == nj,
                    layer_deltas@.len() == nj,
                    forall|q: int|
                        0 <= q < nj ==> (#[trigger] new_neurons@[q])@ == spec_sample_net(
                            m,
                            ds,
                        )[li as int][q],
                    forall|q: int|
                        0 <= q < nj ==> (#[trigger] layer_deltas@[q])@ == ds[li as int][q],
                decreases neuron_cnt - nj,
            {
                let neuron_errors: S = rev_errors[layer_count - 1 - li][nj];
                let weight_cnt: usize = network.hidden_layers[li].neurons[nj].weights.len();
                // the weights: rate * δ * upstream activation, plus momentum
                let mut new_ws: Vec<S> = Vec::new();
                let mut new_ds: Vec<S> = Vec::new();
                let mut wi: usize = 0;
                while wi < weight_cnt
                    invariant
                        wi <= weight_cnt,
                        new_ws@ == spec_sample_net(m, ds)[li as int][nj as int].weights.take(
                            wi as int,
                        ),
                        new_ds@ == ds[li as int][nj as int].take(wi as int),
                    decreases weight_cnt - wi,
                {
                    let prev_delta = pre_deltas[li][nj][wi];
                    let pre_result = results[li][wi];
                    let delta = (rate.mul(neuron_errors).mul(pre_result)).add(
                        momentum.mul(prev_delta),
                    );
                    new_ws.push(network.hidden_layers[li].neurons[nj].weights[wi].add(delta));
                    new_ds.push(delta);
                    proof {
                        assert(new_ws@ =~= spec_sample_net(m, ds)[li as int][nj as int].weights
                            .take(wi as int + 1));
                        assert(new_ds@ =~= ds[li as int][nj as int].take(wi as int + 1));
                    }
                    wi = wi + 1;
                }
                // the threshold: rate * δ, plus momentum; its previous delta
                // lives in the slot after the weights
                let prev_delta = pre_deltas[li][nj][weight_cnt];
                let delta = (rate.mul(neuron_errors)).add(momentum.mul(prev_delta));
                let new_threshold = network.hidden_layers[li].neurons[nj].threshold.add(delta);
                new_ds.push(delta);
                let n = SigmoidNeuron { threshold: new_threshold, weights: new_ws };
                new_neurons.push(n);
                layer_deltas.push(new_ds);
                proof {
                    assert(new_neurons@[nj as int]@.weights =~= spec_sample_net(m, ds)[li as int][nj as int].weights);
                    assert(new_neurons@[nj as int]@ == spec_sample_net(m, ds)[li as int][nj as int]);
                    assert(layer_deltas@[nj as int]@ =~= ds[li as int][nj as int]);
                }
                nj = nj + 1;
            }
            let layer = SigmoidLayer { neurons: new_neurons };
            proof {
                assert(layer@ =~= spec_sample_net(m, ds)[li as int]);
                assert(rows_view(layer_deltas@) =~= ds[li as int]);
            }
            new_layers.push(layer);
            new_deltas.push(layer_deltas);
            li = li + 1;
        }
        network.hidden_layers = new_layers;
        *pre_deltas = new_deltas;
        proof {
            assert(network@ =~= spec_sample_net(m, ds));
            assert(deltas_view(pre_deltas@) =~= ds);
        }
        rt
    }

    #[verifier::loop_isolation(false)]
    fn train_epoch(
        &mut self,
        network: &mut SigmoidNetwork<S>,
        inputs: &Vec<Vec<S>>,
        excepts: &Vec<Vec<S>>,
        rate: S,
        momentum: S,
    ) -> (total_errors: S) {
        let ghost m0 = old(network)@;
        let ghost ins = rows_view(inputs@);
        let ghost exs = rows_view(excepts@);

        // a momentum state, zero-filled afresh, shaped exactly like the
        // network: per neuron, one slot per weight and a last one for the
        // threshold
        let mut deltas: Vec<Vec<Vec<S>>> = Vec::new();
        let mut l: usize = 0;
        while l < network.hidden_layers.len()
            invariant
                l <= m0.len(),
                deltas@.len() == l,
                forall|i: int|
                    0 <= i < l ==> rows_view((#[trigger] deltas@[i])@) == spec_zero_deltas(m0)[i],
            decreases m0.len() - l,
        {
            proof {
                assert(m0[l as int] == network.hidden_layers@[l as int]@);
            }
            let neuron_cnt: usize = network.hidden_layers[l].neurons.len();
            let mut layer_deltas: Vec<Vec<S>> = Vec::new();
            let mut n: usize = 0;
            while n < neuron_cnt
                invariant
                    n <= neuron_cnt,
                    layer_deltas@.len() == n,
                    forall|j: int|
                        0 <= j < n ==> (#[trigger] layer_deltas@[j])@ == spec_zero_deltas(
                            m0,
                        )[l as int][j],
                decreases neuron_cnt - n,
            {
                let w_cnt: usize = network.hidden_layers[l].neurons[n].weights.len();
                let mut weight_deltas: Vec<S> = Vec::new();
                let mut k: usize = 0;
                while k < w_cnt
                    invariant
                        k <= w_cnt,
                        weight_deltas@.len() == k,
                        forall|u: int| 0 <= u < k ==> (#[trigger] weight_deltas@[u]) == S::zero_spec(),
                    decreases w_cnt - k,
                {
                    weight_deltas.push(S::zero());
                    k = k + 1;
                }
                weight_deltas.push(S::zero());
                proof {
                    assert(weight_deltas@ =~= spec_zero_deltas(m0)[l as int][n as int]);
                }
                layer_deltas.push(weight_deltas);
                n = n + 1;
            }
            proof {
                assert(rows_view(layer_deltas@) =~= spec_zero_deltas(m0)[l as int]);
            }
            deltas.push(layer_deltas);
            l = l + 1;
        }
        proof {
            assert(deltas_view(deltas@) =~= spec_zero_deltas(m0));
        }

        // every sample, strictly in the given order: the momentum state for
        // a parameter at one sample depends on its value at the sample
        // before
        let mut total_errors: S = S::zero();
        let mut s: usize = 0;
        while s < inputs.len()
            invariant
                s <= inputs@.len(),
                network@ == spec_epoch_state(m0, ins, exs, rate, momentum, s as int).0,
                deltas_view(deltas@) == spec_epoch_state(m0, ins, exs, rate, momentum, s as int).1,
                total_errors == spec_epoch_state(m0, ins, exs, rate, momentum, s as int).2,
            decreases inputs@.len() - s,
        {
            proof {
                lemma_epoch_state_shape(m0, ins, exs, rate, momentum, s as int);
                lemma_same_shape_wf(network@, m0, ins[s as int].len() as int);
                lemma_same_shape_deltas_wf(deltas_view(deltas@), network@, m0);
                assert(inputs@[s as int]@ == ins[s as int]);
                assert(excepts@[s as int]@ == exs[s as int]);
                assert(network@.last().len() == m0.last().len());
            }
            let e = self.train_a_sample(network, &inputs[s], &excepts[s], rate, momentum,
                &mut deltas);
            total_errors = total_errors.add(e);
            s = s + 1;
        }
        total_errors
    }

    #[verifier::loop_isolation(false)]
    fn train(
        &mut self,
        network: &mut SigmoidNetwork<S>,
        inputs: &Vec<Vec<S>>,
        excepts: &Vec<Vec<S>>,
        target_errors: S,
        rate: S,
        momentum: S,
        max_epochs: usize,
    ) -> (r: Result<(S, usize), (S, usize)>) {
        let ghost m0 = old(network)@;
        let ghost ins = rows_view(inputs@);
        let ghost exs = rows_view(excepts@);
        let mut errors: S = S::zero();
        let mut i: usize = 0;
        while i < max_epochs
            invariant
                i <= max_epochs,
                network@ == spec_net_after(m0, ins, exs, rate, momentum, i as int),
                forall|q: int|
                    0 <= q < i ==> !(#[trigger] spec_err_at(
                        m0,
                        ins,
                        exs,
                        rate,
                        momentum,
                        q,
                    )).le_spec(target_errors),
                errors == (if i == 0 {
                    S::zero_spec()
                } else {
                    spec_err_at(m0, ins, exs, rate, momentum, i as int - 1)
                }),
            decreases max_epochs - i,
        {
            proof {
                lemma_net_after_shape(m0, ins, exs, rate, momentum, i as int);
                assert forall|s: int| 0 <= s < ins.len() implies net_wf(
                    network@,
                    (#[trigger] ins[s]).len() as int,
                ) by {
                    lemma_same_shape_wf(network@, m0, ins[s].len() as int);
                }
                assert forall|s: int| 0 <= s < exs.len() implies (#[trigger] exs[s]).len()
                    == network@.last().len() by {
                    assert(network@.last().len() == m0.last().len());
                }
                assert(samples_wf(network@, ins, exs));
            }
            errors = self.train_epoch(network, inputs, excepts, rate, momentum);
            proof {
                assert(network@ == spec_net_after(m0, ins, exs, rate, momentum, i as int + 1));
                assert(errors == spec_err_at(m0, ins, exs, rate, momentum, i as int));
            }
            if errors.le(target_errors) {
                return Ok((errors, i));
            }
            i = i + 1;
        }
        Err((errors, max_epochs))
    }
}

} // verus!

