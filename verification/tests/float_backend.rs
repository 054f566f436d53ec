//! Scenario tests over a 32-bit float scalar with a native backend.

use rand::RngExt;

use leaf::backend::Backend;
use leaf::loss::{NegativeLogLikelihood, NegativeLogLikelihoodConfig};
use leaf::solver::normalize_gradient;
use leaf::LRPolicy;
use leaf::LayerConfig;
use leaf::LayerType;
use leaf::LeafError;
use leaf::Momentum;
use leaf::ReLU;
use leaf::ReshapeConfig;
use leaf::Scalar;
use leaf::Sequential;
use leaf::SequentialConfig;
use leaf::Sigmoid;
use leaf::Solver;
use leaf::SolverConfig;
use leaf::Tensor;

/// A 32-bit float element for the engine's scalar algebra.
#[derive(Clone, Copy, Debug, PartialEq)]
struct F(f32);

impl Scalar for F {
    // The specification and lemma items below are proof-level members of
    // the trait; they survive compilation as ordinary items but are never
    // called at run time.
    fn zero_spec() -> F {
        panic!("specification function; never called at run time")
    }

    fn one_spec() -> F {
        panic!("specification function; never called at run time")
    }

    fn add_spec(_a: F, _b: F) -> F {
        panic!("specification function; never called at run time")
    }

    fn mul_spec(_a: F, _b: F) -> F {
        panic!("specification function; never called at run time")
    }

    fn neg_spec(_a: F) -> F {
        panic!("specification function; never called at run time")
    }

    fn divn_spec(_a: F, _n: usize) -> F {
        panic!("specification function; never called at run time")
    }

    fn le_spec(_a: F, _b: F) -> bool {
        panic!("specification function; never called at run time")
    }

    fn index_spec(_a: F) -> usize {
        panic!("specification function; never called at run time")
    }

    fn glorot_bound(_num_inputs: usize, _num_outputs: usize) -> F {
        panic!("specification function; never called at run time")
    }

    fn lemma_add_zero(_a: F) {
    }

    fn lemma_mul_zero(_a: F) {
    }

    fn lemma_le_total(_a: F, _b: F) {
    }

    fn lemma_le_trans(_a: F, _b: F, _c: F) {
    }

    fn zero() -> F {
        F(0.0)
    }

    fn one() -> F {
        F(1.0)
    }

    fn plus(a: F, b: F) -> F {
        F(a.0 + b.0)
    }

    fn times(a: F, b: F) -> F {
        F(a.0 * b.0)
    }

    fn negate(a: F) -> F {
        F(-a.0)
    }

    fn divn(a: F, n: usize) -> F {
        F(a.0 / n as f32)
    }

    fn le(a: F, b: F) -> bool {
        a.0 <= b.0
    }

    fn as_index(a: F) -> usize {
        a.0 as usize
    }

    fn glorot(num_inputs: usize, num_outputs: usize) -> F {
        let limit = (6.0f32 / (num_inputs as f32 + num_outputs as f32)).sqrt();
        let mut generator = rand::rng();
        F(generator.random_range(-limit..=limit))
    }
}

/// A host-resident float backend computing the numeric primitives.
struct NativeBackend;

fn shape_guard(a: &Tensor<F>, b: &Tensor<F>) -> Result<(), LeafError> {
    if a.dimensions() == b.dimensions() {
        Ok(())
    } else {
        Err(LeafError::ShapeMismatch)
    }
}

impl Backend<F> for NativeBackend {
    fn sigmoid_of(_x: F) -> F {
        panic!("specification function; never called at run time")
    }

    fn sigmoid_grad_of(_y: F, _dy: F, _x: F) -> F {
        panic!("specification function; never called at run time")
    }

    fn tanh_of(_x: F) -> F {
        panic!("specification function; never called at run time")
    }

    fn tanh_grad_of(_y: F, _dy: F, _x: F) -> F {
        panic!("specification function; never called at run time")
    }

    fn relu(&self, x: &Tensor<F>, y: &mut Tensor<F>) -> Result<(), LeafError> {
        shape_guard(x, y)?;
        let values: Vec<F> = x
            .elements()
            .iter()
            .map(|v| if v.0 > 0.0 { *v } else { F(0.0) })
            .collect();
        y.write_slice(&values)
    }

    fn relu_grad(
        &self,
        y: &Tensor<F>,
        dy: &Tensor<F>,
        x: &Tensor<F>,
        dx: &mut Tensor<F>,
    ) -> Result<(), LeafError> {
        shape_guard(y, dx)?;
        shape_guard(dy, dx)?;
        shape_guard(x, dx)?;
        let values: Vec<F> = y
            .elements()
            .iter()
            .zip(dy.elements().iter())
            .map(|(yv, dyv)| if yv.0 > 0.0 { *dyv } else { F(0.0) })
            .collect();
        dx.write_slice(&values)
    }

    fn sigmoid(&self, x: &Tensor<F>, y: &mut Tensor<F>) -> Result<(), LeafError> {
        shape_guard(x, y)?;
        let values: Vec<F> = x
            .elements()
            .iter()
            .map(|v| F(1.0 / (1.0 + (-v.0).exp())))
            .collect();
        y.write_slice(&values)
    }

    fn sigmoid_grad(
        &self,
        y: &Tensor<F>,
        dy: &Tensor<F>,
        x: &Tensor<F>,
        dx: &mut Tensor<F>,
    ) -> Result<(), LeafError> {
        shape_guard(y, dx)?;
        shape_guard(dy, dx)?;
        shape_guard(x, dx)?;
        let values: Vec<F> = y
            .elements()
            .iter()
            .zip(dy.elements().iter())
            .map(|(yv, dyv)| F(yv.0 * (1.0 - yv.0) * dyv.0))
            .collect();
        dx.write_slice(&values)
    }

    fn tanh(&self, x: &Tensor<F>, y: &mut Tensor<F>) -> Result<(), LeafError> {
        shape_guard(x, y)?;
        let values: Vec<F> = x.elements().iter().map(|v| F(v.0.tanh())).collect();
        y.write_slice(&values)
    }

    fn tanh_grad(
        &self,
        y: &Tensor<F>,
        dy: &Tensor<F>,
        x: &Tensor<F>,
        dx: &mut Tensor<F>,
    ) -> Result<(), LeafError> {
        shape_guard(y, dx)?;
        shape_guard(dy, dx)?;
        shape_guard(x, dx)?;
        let values: Vec<F> = y
            .elements()
            .iter()
            .zip(dy.elements().iter())
            .map(|(yv, dyv)| F((1.0 - yv.0 * yv.0) * dyv.0))
            .collect();
        dx.write_slice(&values)
    }

    fn softmax(&self, x: &Tensor<F>, y: &mut Tensor<F>) -> Result<(), LeafError> {
        shape_guard(x, y)?;
        let total: f32 = x.elements().iter().map(|v| v.0.exp()).sum();
        let values: Vec<F> = x.elements().iter().map(|v| F(v.0.exp() / total)).collect();
        y.write_slice(&values)
    }

    fn softmax_grad(
        &self,
        y: &Tensor<F>,
        dy: &Tensor<F>,
        dx: &mut Tensor<F>,
    ) -> Result<(), LeafError> {
        shape_guard(y, dx)?;
        shape_guard(dy, dx)?;
        let dot: f32 = y
            .elements()
            .iter()
            .zip(dy.elements().iter())
            .map(|(yv, dyv)| yv.0 * dyv.0)
            .sum();
        let values: Vec<F> = y
            .elements()
            .iter()
            .zip(dy.elements().iter())
            .map(|(yv, dyv)| F(yv.0 * (dyv.0 - dot)))
            .collect();
        dx.write_slice(&values)
    }

    fn log_softmax(&self, x: &Tensor<F>, y: &mut Tensor<F>) -> Result<(), LeafError> {
        shape_guard(x, y)?;
        let total: f32 = x.elements().iter().map(|v| v.0.exp()).sum();
        let log_total = total.ln();
        let values: Vec<F> = x.elements().iter().map(|v| F(v.0 - log_total)).collect();
        y.write_slice(&values)
    }

    fn log_softmax_grad(
        &self,
        y: &Tensor<F>,
        dy: &Tensor<F>,
        dx: &mut Tensor<F>,
    ) -> Result<(), LeafError> {
        shape_guard(y, dx)?;
        shape_guard(dy, dx)?;
        let total: f32 = dy.elements().iter().map(|v| v.0).sum();
        let values: Vec<F> = y
            .elements()
            .iter()
            .zip(dy.elements().iter())
            .map(|(yv, dyv)| F(dyv.0 - yv.0.exp() * total))
            .collect();
        dx.write_slice(&values)
    }

    fn axpby(&self, alpha: F, x: &Tensor<F>, beta: F, y: &mut Tensor<F>) -> Result<(), LeafError> {
        shape_guard(x, y)?;
        let values: Vec<F> = x
            .elements()
            .iter()
            .zip(y.elements().iter())
            .map(|(xv, yv)| F(alpha.0 * xv.0 + beta.0 * yv.0))
            .collect();
        y.write_slice(&values)
    }

    fn copy(&self, x: &Tensor<F>, y: &mut Tensor<F>) -> Result<(), LeafError> {
        shape_guard(x, y)?;
        let values: Vec<F> = x.elements().clone();
        y.write_slice(&values)
    }
}

fn float_tensor(dims: &[usize], values: &[f32]) -> Tensor<F> {
    let mut t = Tensor::new(&dims.to_vec(), F(0.0)).unwrap();
    let wrapped: Vec<F> = values.iter().map(|v| F(*v)).collect();
    t.write_slice(&wrapped).unwrap();
    t
}

fn close(a: f32, b: f32) -> bool {
    (a - b).abs() < 1e-6
}

#[test]
fn test_relu_forward_and_backward_on_concrete_vector() {
    let backend = NativeBackend;
    let layer = ReLU;
    let weights: Vec<Tensor<F>> = Vec::new();
    let inputs = vec![float_tensor(&[3], &[-1.0, 0.0, 2.0])];
    let mut outputs = vec![float_tensor(&[3], &[9.0, 9.0, 9.0])];
    layer.compute_output(&backend, &weights, &inputs, &mut outputs);
    assert_eq!(outputs[0].elements().as_slice(), &[F(0.0), F(0.0), F(2.0)]);
    let output_gradients = vec![float_tensor(&[3], &[5.0, 6.0, 7.0])];
    let mut input_gradients = vec![float_tensor(&[3], &[9.0, 9.0, 9.0])];
    layer.compute_input_gradient(
        &backend,
        &weights,
        &outputs,
        &output_gradients,
        &inputs,
        &mut input_gradients,
    );
    assert_eq!(
        input_gradients[0].elements().as_slice(),
        &[F(0.0), F(0.0), F(7.0)]
    );
}

#[test]
fn test_sigmoid_of_zero_is_exactly_one_half() {
    let backend = NativeBackend;
    let layer = Sigmoid;
    let weights: Vec<Tensor<F>> = Vec::new();
    let inputs = vec![float_tensor(&[1], &[0.0])];
    let mut outputs = vec![float_tensor(&[1], &[9.0])];
    layer.compute_output(&backend, &weights, &inputs, &mut outputs);
    assert_eq!(outputs[0].get(0), F(0.5));
}

#[test]
fn test_tanh_of_zero_is_zero() {
    let backend = NativeBackend;
    let layer = leaf::TanH;
    let weights: Vec<Tensor<F>> = Vec::new();
    let inputs = vec![float_tensor(&[2], &[0.0, 20.0])];
    let mut outputs = vec![float_tensor(&[2], &[9.0, 9.0])];
    layer.compute_output(&backend, &weights, &inputs, &mut outputs);
    assert_eq!(outputs[0].get(0), F(0.0));
    assert!(close(outputs[0].get(1).0, 1.0));
}

#[test]
fn test_solver_from_config_rejects_bad_wiring() {
    let mut network = SequentialConfig::default();
    network.add_input("data", &[1, 2]);
    let mut layer = LayerConfig::new("sigmoid", LayerType::Sigmoid);
    layer.add_input("absent");
    network.add_layer(layer);
    let config: SolverConfig<F> = SolverConfig {
        minibatch_size: 1,
        base_lr: F(0.1),
        momentum: F(0.0),
        network,
        objective: SequentialConfig::default(),
        lr_policy: LRPolicy::Fixed,
    };
    let r = Solver::from_config(config);
    assert!(matches!(r.err().unwrap(), LeafError::UnresolvedInput));
}

#[test]
fn test_softmax_layer_normalizes_to_a_distribution() {
    let backend = NativeBackend;
    let layer = leaf::Softmax;
    let weights: Vec<Tensor<F>> = Vec::new();
    let inputs = vec![float_tensor(&[2], &[0.0, 0.0])];
    let mut outputs = vec![float_tensor(&[2], &[9.0, 9.0])];
    layer.compute_output(&backend, &weights, &inputs, &mut outputs);
    assert_eq!(outputs[0].get(0), F(0.5));
    assert_eq!(outputs[0].get(1), F(0.5));
    let total: f32 = outputs[0].elements().iter().map(|v| v.0).sum();
    assert!(close(total, 1.0));
}

#[test]
fn test_log_softmax_layer_outputs_are_nonpositive() {
    let backend = NativeBackend;
    let layer = leaf::LogSoftmax;
    let weights: Vec<Tensor<F>> = Vec::new();
    let inputs = vec![float_tensor(&[3], &[0.5, -1.0, 2.0])];
    let mut outputs = vec![float_tensor(&[3], &[9.0, 9.0, 9.0])];
    layer.compute_output(&backend, &weights, &inputs, &mut outputs);
    let mut exp_total = 0.0f32;
    for v in outputs[0].elements().iter() {
        assert!(v.0 <= 0.0);
        exp_total += v.0.exp();
    }
    assert!(close(exp_total, 1.0));
}

#[test]
fn test_nll_forward_mean_loss() {
    let layer = NegativeLogLikelihood::from_config(&NegativeLogLikelihoodConfig {
        num_classes: 2,
    });
    let probs = float_tensor(&[2, 2], &[-0.1, -2.3, -1.6, -0.2]);
    let labels = float_tensor(&[2, 1], &[0.0, 1.0]);
    let weights: Vec<Tensor<F>> = Vec::new();
    let inputs = vec![probs, labels];
    let mut outputs = vec![Tensor::new(&vec![1usize], F(0.0)).unwrap()];
    layer.compute_output(&weights, &inputs, &mut outputs);
    assert!(close(outputs[0].get(0).0, 0.15));
}

#[test]
fn test_nll_backward_writes_minus_one_at_label_positions() {
    let layer = NegativeLogLikelihood::from_config(&NegativeLogLikelihoodConfig {
        num_classes: 2,
    });
    let probs = float_tensor(&[2, 2], &[-0.1, -2.3, -1.6, -0.2]);
    let labels = float_tensor(&[2, 1], &[0.0, 1.0]);
    let weights: Vec<Tensor<F>> = Vec::new();
    let inputs = vec![probs, labels];
    let mut gradients = vec![float_tensor(&[2, 2], &[9.0, 9.0, 9.0, 9.0])];
    layer.compute_input_gradient(&weights, &inputs, &mut gradients);
    assert_eq!(
        gradients[0].elements().as_slice(),
        &[F(-1.0), F(0.0), F(0.0), F(-1.0)]
    );
}

#[test]
fn test_glorot_filler_bounds_and_mean() {
    let mut weight = Tensor::new(&vec![10000usize], F(0.0)).unwrap();
    leaf::FillerType::fill_glorot(&mut weight, 6, 6);
    let mut sum = 0.0f64;
    for v in weight.elements().iter() {
        assert!(v.0 >= -1.0 && v.0 <= 1.0);
        sum += v.0 as f64;
    }
    let mean = sum / 10000.0;
    assert!(mean.abs() < 0.05);
}

#[test]
fn test_momentum_update_first_and_second_step() {
    let backend = NativeBackend;
    let config: SolverConfig<F> = SolverConfig {
        minibatch_size: 1,
        base_lr: F(0.1),
        momentum: F(0.9),
        network: SequentialConfig::default(),
        objective: SequentialConfig::default(),
        lr_policy: LRPolicy::Fixed,
    };
    let g = [1.0f32, -2.0, 3.0];
    let mut gradient = float_tensor(&[3], &g);
    let mut worker: Momentum<F> = Momentum::new();
    worker.init(&vec![gradient.duplicate()]);
    // the history starts at rest
    for v in worker.history()[0].elements().iter() {
        assert_eq!(v.0, 0.0);
    }
    worker.compute_update_value(&backend, &config, &mut gradient, 0, F(0.1), F(1.0));
    for (i, v) in worker.history()[0].elements().iter().enumerate() {
        assert!(close(v.0, 0.1 * g[i]));
        assert!(close(gradient.get(i).0, 0.1 * g[i]));
    }
    // a second update with the same raw gradient
    let wrapped: Vec<F> = g.iter().map(|v| F(*v)).collect();
    gradient.write_slice(&wrapped).unwrap();
    worker.compute_update_value(&backend, &config, &mut gradient, 0, F(0.1), F(1.0));
    for (i, v) in worker.history()[0].elements().iter().enumerate() {
        assert!(close(v.0, 0.19 * g[i]));
        assert!(close(gradient.get(i).0, 0.19 * g[i]));
    }
}

#[test]
fn test_normalize_gradient_divides_by_batch_size() {
    let mut gradient = float_tensor(&[4], &[2.0, 4.0, -6.0, 8.0]);
    normalize_gradient(&mut gradient, 4);
    assert_eq!(
        gradient.elements().as_slice(),
        &[F(0.5), F(1.0), F(-1.5), F(2.0)]
    );
}

#[test]
fn test_sequential_two_layer_forward_backward_fills_gradients() {
    let backend = NativeBackend;
    let mut config = SequentialConfig::default();
    config.add_input("data", &[1, 4]);
    config.force_backward = true;
    config.add_layer(LayerConfig::new(
        "reshape",
        LayerType::Reshape(ReshapeConfig::of_shape(&[1, 4])),
    ));
    config.add_layer(LayerConfig::new("sigmoid", LayerType::Sigmoid));
    let mut net = Sequential::<F>::from_config(&config).unwrap();
    net.write_input(0, &[F(0.0), F(1.0), F(-1.0), F(2.0)]).unwrap();
    net.forward(&backend).unwrap();
    let out_index = net.output_index().unwrap();
    let out = net.blob_data(out_index).duplicate();
    assert_eq!(out.dimensions().as_slice(), &[1, 4]);
    assert!(close(out.get(0).0, 0.5));
    // seed the output gradient and propagate it back
    net.write_blob_grad(out_index, &[F(1.0), F(1.0), F(1.0), F(1.0)]).unwrap();
    net.backward(&backend).unwrap();
    let data_index = net.resolve(&"data".to_owned()).unwrap();
    let input_grad = net.blob_grad(data_index);
    assert_eq!(input_grad.capacity(), 4);
    for i in 0..4 {
        let y = out.get(i).0;
        assert!(close(input_grad.get(i).0, y * (1.0 - y)));
    }
}

#[test]
fn test_solver_trains_one_minibatch() {
    let backend = NativeBackend;
    let mut network = SequentialConfig::default();
    network.add_input("data", &[2, 2]);
    network.add_layer(LayerConfig::new("log_softmax", LayerType::LogSoftmax));
    let mut objective = SequentialConfig::default();
    objective.add_input("network_out", &[2, 2]);
    objective.add_input("label", &[2, 1]);
    objective.add_layer(LayerConfig::new(
        "nll",
        LayerType::NegativeLogLikelihood(NegativeLogLikelihoodConfig { num_classes: 2 }),
    ));
    let config: SolverConfig<F> = SolverConfig {
        minibatch_size: 2,
        base_lr: F(0.01),
        momentum: F(0.9),
        network,
        objective,
        lr_policy: LRPolicy::Fixed,
    };
    let mut solver = Solver::from_config(config).unwrap();
    assert_eq!(solver.iteration(), 0);
    let input = float_tensor(&[2, 2], &[0.2, 0.8, 0.6, 0.4]);
    let label = float_tensor(&[2, 1], &[1.0, 0.0]);
    let inferred = solver.train_minibatch(&backend, &input, &label).unwrap();
    assert_eq!(solver.iteration(), 1);
    assert_eq!(inferred.dimensions().as_slice(), &[2, 2]);
    // log-probabilities are never positive
    for v in inferred.elements().iter() {
        assert!(v.0 <= 0.0);
    }
}
