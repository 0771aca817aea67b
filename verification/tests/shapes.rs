use bp::Layer;
use bp::Neuron;
use bp::NeuronNetwork;
use bp::SigmoidLayer;
use bp::SigmoidNetwork;
use bp::SigmoidNetworkTrainer;
use bp::SigmoidNeuron;
use bp::Signal;
use bp::Trainer;

/// One scalar per parameter of the topology: per layer, per neuron, a
/// threshold and one weight per upstream output.
fn param_count(cfg: &[usize]) -> usize {
    (1..cfg.len()).map(|m| cfg[m] * (cfg[m - 1] + 1)).sum()
}

#[test]
fn construction_yields_the_topology_shape() {
    // topology [i0, i1, ..., ik]: k layers, layer m of width i_{m+1}, each
    // of its neurons with i_m weights
    let cfg = [3usize, 4, 2];
    let init: Vec<i64> = (0..param_count(&cfg) as i64).collect();
    let network = SigmoidNetwork::new(&cfg, &init);
    assert_eq!(network.hidden_layers.len(), 2);
    for (m, layer) in network.hidden_layers.iter().enumerate() {
        assert_eq!(layer.neurons.len(), cfg[m + 1]);
        for n in &layer.neurons {
            assert_eq!(n.weights.len(), cfg[m]);
        }
    }
}

#[test]
fn construction_places_the_initial_values_in_order() {
    let cfg = [2usize, 2, 1];
    // per neuron: threshold first, then the weights
    let init: Vec<i64> = vec![10, 11, 12, 20, 21, 22, 30, 31, 32];
    let network = SigmoidNetwork::new(&cfg, &init);
    let l0 = &network.hidden_layers[0].neurons;
    assert_eq!((l0[0].threshold, l0[0].weights.clone()), (10, vec![11, 12]));
    assert_eq!((l0[1].threshold, l0[1].weights.clone()), (20, vec![21, 22]));
    let l1 = &network.hidden_layers[1].neurons;
    assert_eq!((l1[0].threshold, l1[0].weights.clone()), (30, vec![31, 32]));
}

#[test]
fn neuron_and_layer_accessors_report_their_state() {
    let mut n: SigmoidNeuron<i64> = SigmoidNeuron::new(3, &vec![5, 6, 7]);
    assert_eq!(n.threshold(), 0);
    assert_eq!(n.weights(), &vec![5, 6, 7]);
    n.set_threshold(9);
    assert_eq!(n.threshold(), 9);

    let layer = SigmoidLayer::from_vec(vec![
        SigmoidNeuron::new(2, &vec![1, 2]),
        SigmoidNeuron::new(2, &vec![3, 4]),
    ]);
    assert_eq!(layer.len(), 2);
    assert_eq!(layer.neurons()[1].weights(), &vec![3, 4]);

    let fresh: SigmoidLayer<i64> = SigmoidLayer::new(2, 3, &vec![1, 2, 3, 4, 5, 6]);
    assert_eq!(fresh.len(), 2);
    assert_eq!(fresh.neurons()[0].weights(), &vec![1, 2, 3]);
    assert_eq!(fresh.neurons()[1].weights(), &vec![4, 5, 6]);
    assert_eq!(fresh.neurons()[1].threshold(), 0);

    let network = SigmoidNetwork { hidden_layers: vec![layer] };
    assert_eq!(network.hidden_layers().len(), 1);
}

#[test]
fn integer_signals_activate_as_hard_thresholds() {
    // one layer, one neuron: threshold 0, weight 2; on input 3 the linear
    // combination is 6, and the saturating-integer sigmoid of 6 is
    // 1 / (1 + exp(-6)) = 1 / (1 + 0) = 1
    let cfg = [1usize, 1];
    let network = SigmoidNetwork::new(&cfg, &vec![0i64, 2]);
    assert_eq!(network.active(&vec![3]), vec![1]);
    // on input -3 the combination is -6, exp(6) = 7, and 1 / 8 = 0
    assert_eq!(network.active(&vec![-3]), vec![0]);
    let stack = network.all_layers_result(&vec![3]);
    assert_eq!(stack, vec![vec![3], vec![1]]);
}

#[test]
fn integer_training_on_a_met_target_converges_at_once() {
    // the network already answers 1 on this sample, so the first epoch's
    // summed error is 0 and training stops at epoch 0
    let cfg = [1usize, 1];
    let mut network = SigmoidNetwork::new(&cfg, &vec![0i64, 2]);
    let mut trainer = SigmoidNetworkTrainer;
    let r = trainer.train(&mut network, &vec![vec![3]], &vec![vec![1]], 0, 1, 0, 5);
    assert_eq!(r, Ok((0, 0)));
    assert_eq!(network.hidden_layers[0].neurons[0].weights, vec![2]);
    assert_eq!(network.hidden_layers[0].neurons[0].threshold, 0);
}

#[test]
fn saturating_integer_scalars_clamp_instead_of_overflowing() {
    assert_eq!(Signal::add(i64::MAX, 1), i64::MAX);
    assert_eq!(Signal::add(i64::MIN, -1), i64::MIN);
    assert_eq!(Signal::sub(i64::MIN, 1), i64::MIN);
    assert_eq!(Signal::mul(i64::MAX, 2), i64::MAX);
    assert_eq!(Signal::mul(i64::MAX, -2), i64::MIN);
    assert_eq!(Signal::neg(i64::MIN), i64::MAX);
    assert_eq!(Signal::div(5i64, 0), i64::MAX);
    assert_eq!(Signal::div(7i64, -2), -3);
    assert_eq!(Signal::exp(-1i64), 0);
    assert_eq!(Signal::exp(4i64), 5);
    assert_eq!(<i64 as Signal>::from_usize(usize::MAX), i64::MAX);
    assert_eq!(<i64 as Signal>::from_usize(17), 17);
    assert!(Signal::le(3i64, 3));
    assert!(!Signal::le(4i64, 3));
}
