use bp::NeuronNetwork;
use bp::SigmoidNetwork;
use bp::SigmoidNetworkTrainer;
use bp::Signal;
use bp::Trainer;

/// An IEEE double as a [`Signal`]: the scalar a host program trains with.
#[derive(Clone, Copy, Debug, PartialEq)]
struct F(f64);

impl Signal for F {
    // The `*_spec` items are the trait's specification-level counterparts of
    // the operations; outside verification they are never called, and here
    // each is simply the operation it describes.
    fn add_spec(self, o: F) -> F {
        self.add(o)
    }
    fn sub_spec(self, o: F) -> F {
        self.sub(o)
    }
    fn mul_spec(self, o: F) -> F {
        self.mul(o)
    }
    fn div_spec(self, o: F) -> F {
        self.div(o)
    }
    fn neg_spec(self) -> F {
        self.neg()
    }
    fn exp_spec(self) -> F {
        self.exp()
    }
    fn le_spec(self, o: F) -> bool {
        self.le(o)
    }
    fn zero_spec() -> F {
        F(0.0)
    }
    fn one_spec() -> F {
        F(1.0)
    }
    fn from_usize_spec(n: usize) -> F {
        F(n as f64)
    }
    fn add(self, o: F) -> F {
        F(self.0 + o.0)
    }
    fn sub(self, o: F) -> F {
        F(self.0 - o.0)
    }
    fn mul(self, o: F) -> F {
        F(self.0 * o.0)
    }
    fn div(self, o: F) -> F {
        F(self.0 / o.0)
    }
    fn neg(self) -> F {
        F(-self.0)
    }
    fn exp(self) -> F {
        F(self.0.exp())
    }
    fn le(self, o: F) -> bool {
        self.0 <= o.0
    }
    fn zero() -> F {
        F(0.0)
    }
    fn one() -> F {
        F(1.0)
    }
    fn from_usize(n: usize) -> F {
        F(n as f64)
    }
}

/// The arithmetic-ramp initialization: `-0.5`, then `+0.05` per parameter,
/// walking each layer's neurons with the threshold first and the weights
/// after — the order network construction consumes.
fn ramp_init(cfg: &[usize]) -> Vec<F> {
    let mut vals: Vec<F> = Vec::new();
    let mut tmp: f64 = -0.5;
    for m in 1..cfg.len() {
        for _ in 0..cfg[m] {
            vals.push(F(tmp));
            tmp += 0.05;
            for _ in 0..cfg[m - 1] {
                vals.push(F(tmp));
                tmp += 0.05;
            }
        }
    }
    vals
}

fn f_rows(rows: &[Vec<f64>]) -> Vec<Vec<F>> {
    rows.iter().map(|r| r.iter().map(|&v| F(v)).collect()).collect()
}

/// A momentum state of zeroes shaped to the network, as an epoch allocates.
fn zero_deltas(net: &SigmoidNetwork<F>) -> Vec<Vec<Vec<F>>> {
    net.hidden_layers
        .iter()
        .map(|l| l.neurons.iter().map(|n| vec![F(0.0); n.weights.len() + 1]).collect())
        .collect()
}

fn weights_of(net: &SigmoidNetwork<F>) -> Vec<Vec<(f64, Vec<f64>)>> {
    net.hidden_layers
        .iter()
        .map(|l| {
            l.neurons
                .iter()
                .map(|n| (n.threshold.0, n.weights.iter().map(|w| w.0).collect()))
                .collect()
        })
        .collect()
}

#[test]
fn xor_4layers() {
    // create examples of the xor function
    let input = f_rows(&[vec![0.0, 0.0], vec![0.0, 1.0], vec![1.0, 0.0], vec![1.0, 1.0]]);
    let output = f_rows(&[vec![0.0], vec![1.0], vec![1.0], vec![0.0]]);

    // create a new neural network
    let mut trainer = SigmoidNetworkTrainer;
    let cfg = [2, 3, 3, 1];
    let mut network = SigmoidNetwork::new(&cfg, &ramp_init(&cfg));
    match trainer.train(&mut network, &input, &output, F(0.001), F(0.3), F(0.1), 100000) {
        Ok((errors, count)) => {
            println!("train successed, errors:{}, count:{}", errors.0, count);
        }
        Err((errors, count)) => {
            println!("train failed, errors:{}, count:{}", errors.0, count);
            panic!("fail to test xor 4layers!");
        }
    }

    // test
    for i in 0..input.len() {
        let rt = network.active(&input[i]);
        assert_eq!(rt[0].0.round(), output[i][0].0);
    }
}

#[test]
fn activations_stay_inside_the_open_unit_interval() {
    let cfg = [2, 3, 3, 1];
    let network = SigmoidNetwork::new(&cfg, &ramp_init(&cfg));
    // moderate magnitudes: for pre-activations beyond roughly ±37, IEEE
    // doubles round the sigmoid to exactly 0.0 or 1.0, so the open interval
    // is a property of the real-valued function, not of saturated floats
    let probes = f_rows(&[
        vec![0.0, 0.0],
        vec![1.0, 1.0],
        vec![-20.0, 20.0],
        vec![12.5, -7.25],
        vec![0.5, -0.25],
    ]);
    for p in &probes {
        let stack = network.all_layers_result(p);
        // every layer's activations, the raw inputs excluded
        for layer_out in &stack[1..] {
            for a in layer_out {
                assert!(a.0 > 0.0 && a.0 < 1.0, "activation {} out of (0,1)", a.0);
            }
        }
    }
}

#[test]
fn training_error_is_non_increasing_without_momentum() {
    // a trivially learnable target, a small rate, momentum zero: the error
    // of successive epochs must not grow (within floating-point tolerance)
    let cfg = [2, 2, 1];
    let mut trainer = SigmoidNetworkTrainer;
    let mut network = SigmoidNetwork::new(&cfg, &ramp_init(&cfg));
    let input = f_rows(&[vec![0.0, 1.0]]);
    let output = f_rows(&[vec![1.0]]);
    let mut prev = f64::INFINITY;
    for _ in 0..200 {
        let e = trainer.train_epoch(&mut network, &input, &output, F(0.05), F(0.0));
        assert!(e.0 <= prev + 1e-12, "error grew from {} to {}", prev, e.0);
        prev = e.0;
    }
}

#[test]
fn epoch_error_is_the_sum_of_per_sample_errors() {
    let cfg = [2, 3, 1];
    let input = f_rows(&[vec![0.0, 0.0], vec![0.0, 1.0], vec![1.0, 0.0], vec![1.0, 1.0]]);
    let output = f_rows(&[vec![0.0], vec![1.0], vec![1.0], vec![0.0]]);
    let mut trainer = SigmoidNetworkTrainer;

    let mut by_epoch = SigmoidNetwork::new(&cfg, &ramp_init(&cfg));
    let total = trainer.train_epoch(&mut by_epoch, &input, &output, F(0.3), F(0.1));

    // replay the same epoch one sample at a time, threading the same
    // momentum state, and sum the per-sample errors by hand
    let mut by_sample = SigmoidNetwork::new(&cfg, &ramp_init(&cfg));
    let mut deltas = zero_deltas(&by_sample);
    let mut sum = F(0.0);
    for s in 0..input.len() {
        let e = trainer.train_a_sample(
            &mut by_sample,
            &input[s],
            &output[s],
            F(0.3),
            F(0.1),
            &mut deltas,
        );
        assert!(e.0 >= 0.0);
        sum = sum.add(e);
    }
    assert_eq!(total, sum);
    assert_eq!(weights_of(&by_epoch), weights_of(&by_sample));
}

#[test]
fn first_sample_of_an_epoch_ignores_the_momentum_coefficient() {
    // the momentum state starts at zero on every call to train_epoch, so on
    // a single sample the first delta with momentum > 0 equals the delta
    // with momentum = 0
    let cfg = [2, 2, 1];
    let input = f_rows(&[vec![1.0, 0.0]]);
    let output = f_rows(&[vec![1.0]]);
    let mut trainer = SigmoidNetworkTrainer;

    let mut with_momentum = SigmoidNetwork::new(&cfg, &ramp_init(&cfg));
    let e1 = trainer.train_epoch(&mut with_momentum, &input, &output, F(0.2), F(0.9));

    let mut without_momentum = SigmoidNetwork::new(&cfg, &ramp_init(&cfg));
    let e2 = trainer.train_epoch(&mut without_momentum, &input, &output, F(0.2), F(0.0));

    assert_eq!(e1, e2);
    assert_eq!(weights_of(&with_momentum), weights_of(&without_momentum));
}

#[test]
fn backward_pass_reads_pre_update_weights() {
    // a controlled chain of two trainable layers: input width 1, one hidden
    // neuron, one output neuron; every expected value is computed by hand,
    // with the hidden gradient taken from the output neuron's weight as it
    // was before the sample's update
    let theta0 = 0.1;
    let w0 = 0.4;
    let theta1 = -0.2;
    let w1 = 0.7;
    let init = vec![F(theta0), F(w0), F(theta1), F(w1)];
    let cfg = [1, 1, 1];
    let mut network = SigmoidNetwork::new(&cfg, &init);
    let mut trainer = SigmoidNetworkTrainer;
    let x = 0.8;
    let t = 1.0;
    let rate = 0.3;
    let mut deltas = zero_deltas(&network);
    let mse = trainer.train_a_sample(
        &mut network,
        &vec![F(x)],
        &vec![F(t)],
        F(rate),
        F(0.0),
        &mut deltas,
    );

    let sig = |v: f64| 1.0 / (1.0 + (-v).exp());
    let a1 = sig(theta0 + x * w0);
    let a2 = sig(theta1 + a1 * w1);
    assert_eq!(mse.0, (t - a2) * (t - a2) / 1.0);

    let d1 = (t - a2) * (a2 * (1.0 - a2));
    // the hidden gradient must use w1, not the already-updated output weight
    let d0 = (0.0 + w1 * d1) * (a1 * (1.0 - a1));

    let got = weights_of(&network);
    assert_eq!(got[1][0].0, theta1 + rate * d1);
    assert_eq!(got[1][0].1[0], w1 + (rate * d1) * a1);
    assert_eq!(got[0][0].0, theta0 + rate * d0);
    assert_eq!(got[0][0].1[0], w0 + (rate * d0) * x);
}

#[test]
fn exhausted_budget_reports_failure_with_the_budget() {
    let cfg = [2, 2, 1];
    let input = f_rows(&[vec![0.0, 1.0]]);
    let output = f_rows(&[vec![1.0]]);
    let mut trainer = SigmoidNetworkTrainer;

    // an unreachable target: squared error can never go below zero
    let mut network = SigmoidNetwork::new(&cfg, &ramp_init(&cfg));
    match trainer.train(&mut network, &input, &output, F(-1.0), F(0.1), F(0.0), 3) {
        Ok(_) => panic!("a negative error target cannot be met"),
        Err((errors, count)) => {
            assert_eq!(count, 3);
            assert!(errors.0 > 0.0);
        }
    }

    // a zero-epoch budget fails at once, reporting error zero
    let mut untouched = SigmoidNetwork::new(&cfg, &ramp_init(&cfg));
    match trainer.train(&mut untouched, &input, &output, F(0.5), F(0.1), F(0.0), 0) {
        Ok(_) => panic!("no epoch ran, so no success can be reported"),
        Err((errors, count)) => {
            assert_eq!(count, 0);
            assert_eq!(errors, F(0.0));
        }
    }
    assert_eq!(
        weights_of(&untouched),
        weights_of(&SigmoidNetwork::new(&cfg, &ramp_init(&cfg)))
    );
}
