use snake_tuner::activation::{ActivationFunction, ReLu, Sigmoid};
use snake_tuner::database::{MemoryDatabase, OwnedEntry};
use snake_tuner::dataloader::DataLoader;
use snake_tuner::evaluation::{Eval, Linear};
use snake_tuner::fixed::{Fx, FRAC};
use snake_tuner::net::{Layer, Net};
use snake_tuner::optimizer::{Optimizer, SGD};
use snake_tuner::tuner::Tuner;
use snake_tuner::ConfigError;

fn fx(raw: i64) -> Fx {
    Fx { raw }
}

fn from_f64(v: f64) -> Fx {
    Fx { raw: (v * FRAC as f64).round() as i64 }
}

fn to_f64(v: Fx) -> f64 {
    v.raw as f64 / FRAC as f64
}

/// The AND dataset with a constant third feature acting as a bias term.
fn and_rows() -> Vec<(Vec<f64>, f64)> {
    vec![
        (vec![0.0, 0.0, 1.0], 0.0),
        (vec![0.0, 1.0, 1.0], 0.0),
        (vec![1.0, 0.0, 1.0], 0.0),
        (vec![1.0, 1.0, 1.0], 1.0),
    ]
}

fn db_from_rows(rows: &[(Vec<f64>, f64)]) -> MemoryDatabase {
    let mut entries = Vec::new();
    for (inputs, expected) in rows {
        entries.push(OwnedEntry {
            inputs: inputs.iter().map(|&v| from_f64(v)).collect(),
            expected: from_f64(*expected),
        });
    }
    MemoryDatabase::from_entries(entries)
}

fn mean_squared_error<A: ActivationFunction + Clone>(
    model: &Linear<A>,
    rows: &[(Vec<f64>, f64)],
) -> f64 {
    let mut total = 0.0;
    for (inputs, expected) in rows {
        let coeffs: Vec<Fx> = inputs.iter().map(|&v| from_f64(v)).collect();
        let guess = to_f64(A::evaluate(model.forward(&coeffs)));
        total += (expected - guess) * (expected - guess);
    }
    total / rows.len() as f64
}

#[test]
fn linear_relu_and_convergence() {
    // A linear unit with a rectified-linear activation, trained by the
    // batched delta rule on the (linearly separable) AND dataset, drives
    // the mean squared error below 0.05 well within the step budget.
    let rows = and_rows();
    let loader = DataLoader::new(db_from_rows(&rows), 4, false).unwrap();
    let model: Linear<ReLu> = Linear::new(3, ReLu);
    let mut tuner = Tuner::new(loader, from_f64(0.1), model);
    for _ in 0..50000 {
        tuner.step::<ReLu>();
    }
    let mse = mean_squared_error(&tuner.evaluation, &rows);
    assert!(mse < 0.05, "mean squared error still {} after training", mse);
}

#[test]
fn linear_sigmoid_delta_rule_fixed_point() {
    // The delta rule evaluates the sigmoid derivative on the raw
    // forward value. From all-zero weights every forward value is 0,
    // whose derivative under the y * (1 - y) convention is exactly 0,
    // so the zero model is a fixed point of training: steps change
    // nothing, deterministically.
    let rows = and_rows();
    let loader = DataLoader::new(db_from_rows(&rows), 4, false).unwrap();
    let model: Linear<Sigmoid> = Linear::from_weights(vec![fx(0), fx(0), fx(0)], Sigmoid);
    let mut tuner = Tuner::new(loader, from_f64(0.1), model);
    for _ in 0..100 {
        tuner.step::<Sigmoid>();
    }
    for probe in [[1.0, 0.0, 0.0], [0.0, 1.0, 0.0], [0.0, 0.0, 1.0]] {
        let coeffs: Vec<Fx> = probe.iter().map(|&v| from_f64(v)).collect();
        assert_eq!(tuner.evaluation.forward(&coeffs), fx(0));
    }
    // Every guess therefore stays at sigmoid(0) = 1/2 exactly.
    let coeffs: Vec<Fx> = [1.0, 1.0, 1.0].iter().map(|&v| from_f64(v)).collect();
    assert_eq!(Sigmoid::evaluate(tuner.evaluation.forward(&coeffs)), from_f64(0.5));
}

#[test]
fn sgd_matches_tuner_update() {
    // One SGD step over an explicit batch equals one tuner step over a
    // loader holding the same single batch, from identical weights.
    let rows = and_rows();
    let weights = vec![fx(FRAC / 2), fx(FRAC / 4), fx(-FRAC / 3)];
    let mut by_sgd: Linear<ReLu> = Linear::from_weights(weights.clone(), ReLu);
    let mut opt = SGD::new(from_f64(0.1));
    let mut batch = Vec::new();
    for (inputs, expected) in &rows {
        batch.push(OwnedEntry {
            inputs: inputs.iter().map(|&v| from_f64(v)).collect(),
            expected: from_f64(*expected),
        });
    }
    opt.step(&mut by_sgd, batch);
    Optimizer::<ReLu, Linear<ReLu>>::reset(&mut opt);

    let loader = DataLoader::new(db_from_rows(&rows), 4, false).unwrap();
    let mut tuner = Tuner::new(loader, from_f64(0.1), Linear::from_weights(weights, ReLu));
    tuner.step::<ReLu>();

    // Compare the models through their forward passes on a basis probe.
    for probe in [[1.0, 0.0, 0.0], [0.0, 1.0, 0.0], [0.0, 0.0, 1.0]] {
        let coeffs: Vec<Fx> = probe.iter().map(|&v| from_f64(v)).collect();
        assert_eq!(by_sgd.forward(&coeffs), tuner.evaluation.forward(&coeffs));
    }
}

#[test]
fn linear_forward_is_dot_product() {
    let model: Linear<ReLu> = Linear::from_weights(vec![from_f64(0.5), from_f64(0.25)], ReLu);
    let out = model.forward(&vec![from_f64(1.0), from_f64(1.0)]);
    assert_eq!(out, from_f64(0.75));
    let out2 = model.forward(&vec![from_f64(2.0), from_f64(-4.0)]);
    assert_eq!(out2, from_f64(0.0));
    assert_eq!(model.coeff_count(), 2);
    assert_eq!(model.weight_count(), 2);
}

#[test]
fn derivative_vector_is_input() {
    let model: Linear<ReLu> = Linear::from_weights(vec![fx(7), fx(-7)], ReLu);
    let coeffs = vec![fx(123), fx(-456)];
    assert_eq!(model.derivative_vector(&coeffs), coeffs);
}

#[test]
fn nudge_weights_adds_in_place() {
    let mut model: Linear<ReLu> = Linear::from_weights(vec![from_f64(1.0), from_f64(2.0)], ReLu);
    model.nudge_weights(&vec![from_f64(0.5), from_f64(-1.0)]);
    // Probe the weights through unit inputs.
    assert_eq!(model.forward(&vec![from_f64(1.0), fx(0)]), from_f64(1.5));
    assert_eq!(model.forward(&vec![fx(0), from_f64(1.0)]), from_f64(1.0));
}

#[test]
fn layer_forward_exact() {
    // One layer with explicit weights: relu(W * x + b), exactly.
    let layer = Layer {
        weights_io: vec![
            vec![from_f64(1.0), from_f64(-2.0)],
            vec![from_f64(0.5), from_f64(0.5)],
        ],
        bias_o: vec![from_f64(0.25), from_f64(-1.0)],
    };
    let out = layer.forward::<ReLu>(&vec![from_f64(1.0), from_f64(1.0)]);
    // Row 0: 1 - 2 + 0.25 = -0.75, clamped to 0; row 1: 0.5 + 0.5 - 1 = 0.
    assert_eq!(out, vec![fx(0), fx(0)]);
    let out2 = layer.forward::<ReLu>(&vec![from_f64(2.0), from_f64(0.0)]);
    // Row 0: 2 + 0.25 = 2.25; row 1: 1 - 1 = 0.
    assert_eq!(out2, vec![from_f64(2.25), fx(0)]);
}

#[test]
fn layer_backprop_updates_and_propagates() {
    // Hand-checked single step; every value is exact in fixed point.
    let mut layer = Layer {
        weights_io: vec![vec![from_f64(1.0), from_f64(0.5)]],
        bias_o: vec![from_f64(0.0)],
    };
    let input = vec![from_f64(1.0), from_f64(1.0)];
    let output = layer.forward::<ReLu>(&input);
    assert_eq!(output, vec![from_f64(1.5)]);
    let errors = vec![from_f64(0.5)];
    let prev = layer.backprop::<ReLu>(&errors, &output, &input, from_f64(0.25));
    // gradient = relu'(1.5) * 0.5 * 0.25 = 0.125; weights += 0.125 * input;
    // bias += 0.125; propagated error = transpose(pre-update W) * 0.5.
    assert_eq!(prev, vec![from_f64(0.5), from_f64(0.25)]);
    assert_eq!(layer.weights_io, vec![vec![from_f64(1.125), from_f64(0.625)]]);
    assert_eq!(layer.bias_o, vec![from_f64(0.125)]);
    let after = layer.forward::<ReLu>(&vec![from_f64(1.0), from_f64(0.0)]);
    // New first weight 1.125 plus new bias 0.125.
    assert_eq!(after, vec![from_f64(1.25)]);
}

#[test]
fn net_construction_errors() {
    assert_eq!(Net::new(vec![]).unwrap_err(), ConfigError::EmptyLayerSizes);
    assert_eq!(Net::new(vec![2, 0, 1]).unwrap_err(), ConfigError::ZeroLayerSize);
}

#[test]
fn net_forward_dimensions() {
    let net = Net::new(vec![3, 4, 2]).unwrap();
    let out = net.forward::<Sigmoid>(&vec![fx(0), fx(0), fx(0)]);
    assert_eq!(out.len(), 2);
    // Sigmoid outputs always lie strictly inside (0, 1).
    for v in out {
        assert!(0 < v.raw && v.raw < FRAC);
    }
}

#[test]
fn forward_only_calls_leave_weights_unchanged() {
    // Repeated forward evaluation without any update step leaves the
    // parameters bit-identical.
    let layer = Layer {
        weights_io: vec![vec![from_f64(0.3), from_f64(-0.7)], vec![from_f64(2.0), from_f64(0.1)]],
        bias_o: vec![from_f64(0.5), from_f64(-0.25)],
    };
    let saved_w = layer.weights_io.clone();
    let saved_b = layer.bias_o.clone();
    let input = vec![from_f64(1.0), from_f64(-1.0)];
    let first = layer.forward::<Sigmoid>(&input);
    for _ in 0..100 {
        assert_eq!(layer.forward::<Sigmoid>(&input), first);
    }
    assert_eq!(layer.weights_io, saved_w);
    assert_eq!(layer.bias_o, saved_b);

    let model: Linear<Sigmoid> = Linear::from_weights(vec![from_f64(0.4), from_f64(0.6)], Sigmoid);
    let out = model.forward(&input);
    for _ in 0..100 {
        assert_eq!(model.forward(&input), out);
    }
}

fn xor_rows() -> Vec<(Vec<f64>, f64)> {
    vec![
        (vec![0.0, 0.0], 0.0),
        (vec![0.0, 1.0], 1.0),
        (vec![1.0, 0.0], 1.0),
        (vec![1.0, 1.0], 0.0),
    ]
}

fn xor_max_error(net: &Net) -> f64 {
    let mut worst: f64 = 0.0;
    for (inputs, expected) in xor_rows() {
        let coeffs: Vec<Fx> = inputs.iter().map(|&v| from_f64(v)).collect();
        let out = net.forward::<Sigmoid>(&coeffs);
        let err = (expected - to_f64(out[0])).abs();
        if err > worst {
            worst = err;
        }
    }
    worst
}

#[test]
fn multilayer_xor() {
    // A 2-2-1 net with sigmoid activation trained per-entry on the XOR
    // dataset converges to an absolute error below 0.1 on every sample.
    // Training starts from uniformly random weights in [0, 1]; such an
    // all-positive start sometimes settles in the well-known XOR local
    // minimum, so the test retrains from a fresh initialization until
    // one run converges (each attempt well within the step budget).
    let lr = from_f64(0.4);
    for _attempt in 0..25 {
        let mut net = Net::new(vec![2, 2, 1]).unwrap();
        let mut loader = DataLoader::new(db_from_rows(&xor_rows()), 1, true).unwrap();
        for step in 0..30000 {
            let batch = loader.sample();
            let entry = &batch[0];
            let inputs = entry.inputs.clone();
            let expected = vec![entry.expected];
            net.backward::<Sigmoid>(&inputs, &expected, lr);
            if step % 1500 == 1499 && xor_max_error(&net) < 0.1 {
                return;
            }
        }
        if xor_max_error(&net) < 0.1 {
            return;
        }
    }
    panic!("no training run converged on XOR");
}
