//! Engine tests over the exact integer scalar instance.

use leaf::loss::NegativeLogLikelihood;
use leaf::loss::NegativeLogLikelihoodConfig;
use leaf::tensor::write_batch_sample;
use leaf::ActivationLayer;
use leaf::ConfusionMatrix;
use leaf::DimCheckMode;
use leaf::FillerType;
use leaf::LRPolicy;
use leaf::LayerConfig;
use leaf::LayerType;
use leaf::LeafError;
use leaf::Reshape;
use leaf::ReshapeConfig;
use leaf::Sequential;
use leaf::SequentialConfig;
use leaf::SolverConfig;
use leaf::Tensor;
use leaf::WeightConfig;

fn tensor(dims: &[usize], values: &[i64]) -> Tensor<i64> {
    let mut t = Tensor::new(&dims.to_vec(), 0i64).unwrap();
    t.write_slice(values).unwrap();
    t
}

#[test]
fn test_tensor_new_and_capacity() {
    let t = Tensor::new(&vec![2usize, 3], 7i64).unwrap();
    assert_eq!(t.capacity(), 6);
    assert_eq!(t.rank(), 2);
    assert_eq!(t.dimensions().as_slice(), &[2, 3]);
    for i in 0..6 {
        assert_eq!(t.get(i), 7);
    }
}

#[test]
fn test_tensor_zero_dimension_is_rejected() {
    let r = Tensor::new(&vec![2usize, 0, 3], 0i64);
    assert_eq!(r.err().unwrap(), LeafError::ZeroDimension);
}

#[test]
fn test_tensor_capacity_overflow_is_rejected() {
    let r = Tensor::new(&vec![usize::MAX, 2], 0i64);
    assert_eq!(r.err().unwrap(), LeafError::CapacityOverflow);
}

#[test]
fn test_tensor_write_slice_length_mismatch() {
    let mut t = Tensor::new(&vec![2usize, 2], 0i64).unwrap();
    let r = t.write_slice(&[1i64, 2, 3]);
    assert_eq!(r.unwrap_err(), LeafError::LengthMismatch);
    assert_eq!(t.elements().as_slice(), &[0, 0, 0, 0]);
}

#[test]
fn test_tensor_resize_preserves_elements_on_equal_capacity() {
    let values: Vec<i64> = (0..784).collect();
    let mut t = tensor(&[784], &values);
    t.resize(&vec![1usize, 784], 0i64).unwrap();
    assert_eq!(t.dimensions().as_slice(), &[1, 784]);
    for i in 0..784usize {
        assert_eq!(t.get(i), i as i64);
    }
    t.resize(&vec![1usize, 28, 28], 0i64).unwrap();
    assert_eq!(t.dimensions().as_slice(), &[1, 28, 28]);
    for i in 0..784usize {
        assert_eq!(t.get(i), i as i64);
    }
}

#[test]
fn test_tensor_resize_to_new_capacity_refills() {
    let mut t = tensor(&[4], &[1, 2, 3, 4]);
    t.resize(&vec![2usize, 3], 9i64).unwrap();
    assert_eq!(t.elements().as_slice(), &[9, 9, 9, 9, 9, 9]);
}

#[test]
fn test_write_batch_sample_places_each_sample() {
    let mut t = Tensor::new(&vec![2usize, 3], 0i64).unwrap();
    write_batch_sample(&mut t, &[1i64, 2, 3], 0).unwrap();
    write_batch_sample(&mut t, &[4i64, 5, 6], 1).unwrap();
    assert_eq!(t.elements().as_slice(), &[1, 2, 3, 4, 5, 6]);
    let r = write_batch_sample(&mut t, &[7i64, 8, 9], 2);
    assert_eq!(r.unwrap_err(), LeafError::LengthMismatch);
}

#[test]
fn test_reshape_layer_is_in_place_and_preserves_values() {
    let config = ReshapeConfig::of_shape(&[1, 4]);
    let mut layer = Reshape::from_config(&config);
    assert!(layer.compute_in_place());
    assert!(!layer.auto_output_blobs());
    let mut output_data = vec![tensor(&[2, 2], &[1, 2, 3, 4])];
    let mut output_gradient = vec![tensor(&[2, 2], &[5, 6, 7, 8])];
    layer.reshape::<i64>(&mut output_data, &mut output_gradient).unwrap();
    assert_eq!(output_data[0].dimensions().as_slice(), &[1, 4]);
    assert_eq!(output_data[0].elements().as_slice(), &[1, 2, 3, 4]);
    assert_eq!(output_gradient[0].elements().as_slice(), &[5, 6, 7, 8]);
}

#[test]
fn test_activation_shape_inference_matches_input_shape() {
    let mut layer = leaf::ReLU;
    let input_data = vec![tensor(&[2, 3], &[1, 2, 3, 4, 5, 6])];
    let mut input_gradient = vec![Tensor::new(&vec![1usize], 0i64).unwrap()];
    let mut output_data = vec![Tensor::new(&vec![1usize], 0i64).unwrap()];
    let mut output_gradient = vec![Tensor::new(&vec![1usize], 0i64).unwrap()];
    layer.reshape(&input_data, &mut input_gradient, &mut output_data, &mut output_gradient);
    assert_eq!(input_gradient[0].dimensions().as_slice(), &[2, 3]);
    assert_eq!(output_data[0].dimensions().as_slice(), &[2, 3]);
    assert_eq!(output_gradient[0].dimensions().as_slice(), &[2, 3]);
}

#[test]
fn test_softmax_shape_inference_matches_input_shape() {
    let mut layer = leaf::Softmax;
    let input_data = vec![tensor(&[4], &[1, 2, 3, 4])];
    let mut input_gradient = vec![Tensor::new(&vec![1usize], 0i64).unwrap()];
    let mut output_data = vec![Tensor::new(&vec![1usize], 0i64).unwrap()];
    let mut output_gradient = vec![Tensor::new(&vec![1usize], 0i64).unwrap()];
    layer.reshape(&input_data, &mut input_gradient, &mut output_data, &mut output_gradient);
    assert_eq!(input_gradient[0].dimensions().as_slice(), &[4]);
    assert_eq!(output_data[0].dimensions().as_slice(), &[4]);
    assert_eq!(output_gradient[0].dimensions().as_slice(), &[4]);
}

#[test]
fn test_nll_forward_integer_mean() {
    let layer = NegativeLogLikelihood::from_config(&NegativeLogLikelihoodConfig {
        num_classes: 2,
    });
    let probs = tensor(&[2, 2], &[10, 20, 30, 40]);
    let labels = tensor(&[2, 1], &[0, 1]);
    let weights: Vec<Tensor<i64>> = Vec::new();
    let inputs = vec![probs, labels];
    let mut outputs = vec![Tensor::new(&vec![1usize], 0i64).unwrap()];
    layer.compute_output(&weights, &inputs, &mut outputs);
    // contributions: -10 and -40, mean over batch 2 is -25
    assert_eq!(outputs[0].elements().as_slice(), &[-25]);
}

#[test]
fn test_nll_backward_integer_scatter() {
    let layer = NegativeLogLikelihood::from_config(&NegativeLogLikelihoodConfig {
        num_classes: 2,
    });
    let probs = tensor(&[2, 2], &[10, 20, 30, 40]);
    let labels = tensor(&[2, 1], &[0, 1]);
    let weights: Vec<Tensor<i64>> = Vec::new();
    let inputs = vec![probs, labels];
    let mut gradients = vec![tensor(&[2, 2], &[9, 9, 9, 9])];
    layer.compute_input_gradient(&weights, &inputs, &mut gradients);
    assert_eq!(gradients[0].elements().as_slice(), &[-1, 0, 0, -1]);
}

#[test]
fn test_confusion_matrix_capacity_eviction() {
    let mut confusion = ConfusionMatrix::new(3);
    confusion.set_capacity(Some(3));
    confusion.add_samples(&[0, 1, 2, 1], &[0, 0, 2, 1]);
    // the first pair (0, 0) was evicted; retained: (1,0) wrong, (2,2) ok, (1,1) ok
    assert_eq!(confusion.samples().as_slice(), &[(1, 0), (2, 2), (1, 1)]);
    assert_eq!(confusion.accuracy(), (2, 3));
}

#[test]
fn test_confusion_matrix_without_capacity_keeps_everything() {
    let mut confusion = ConfusionMatrix::new(2);
    confusion.add_samples(&[0, 1, 1], &[0, 1, 0]);
    assert_eq!(confusion.accuracy(), (2, 3));
}

#[test]
fn test_confusion_matrix_get_predictions_arg_max() {
    let confusion = ConfusionMatrix::new(3);
    let t = tensor(&[2, 3], &[1, 5, 3, 9, 2, 4]);
    let predictions = confusion.get_predictions(&t);
    assert_eq!(predictions.as_slice(), &[1, 0]);
}

#[test]
fn test_check_dimensions_strict_and_permissive() {
    let strict: WeightConfig<i64> = WeightConfig {
        share_mode: DimCheckMode::Strict,
        ..WeightConfig::default()
    };
    let permissive: WeightConfig<i64> = WeightConfig {
        share_mode: DimCheckMode::Permissive,
        ..WeightConfig::default()
    };
    let a = Tensor::new(&vec![2usize, 3], 0i64).unwrap();
    let b = Tensor::new(&vec![3usize, 2], 0i64).unwrap();
    let c = Tensor::new(&vec![2usize, 2], 0i64).unwrap();
    assert!(strict
        .check_dimensions(&a, &a, "w".to_owned(), "owner".to_owned(), "layer".to_owned())
        .is_ok());
    let err = strict
        .check_dimensions(&a, &b, "w".to_owned(), "owner".to_owned(), "layer".to_owned())
        .unwrap_err();
    assert_eq!(err.weight_name, "w");
    assert_eq!(err.owner_name, "owner");
    assert_eq!(err.layer_name, "layer");
    assert!(permissive
        .check_dimensions(&a, &b, "w".to_owned(), "o".to_owned(), "l".to_owned())
        .is_ok());
    assert!(permissive
        .check_dimensions(&a, &c, "w".to_owned(), "o".to_owned(), "l".to_owned())
        .is_err());
}

#[test]
fn test_weight_config_default_multipliers_are_one() {
    let config: WeightConfig<i64> = WeightConfig::default();
    assert_eq!(config.lr_mult(), 1);
    assert_eq!(config.decay_mult(), 1);
    assert_eq!(config.name, "");
}

#[test]
fn test_fill_constant_sets_every_element() {
    let mut t = tensor(&[2, 2], &[1, 2, 3, 4]);
    FillerType::fill_constant(&mut t, 5i64);
    assert_eq!(t.elements().as_slice(), &[5, 5, 5, 5]);
    let filler = FillerType::Constant { value: -2i64 };
    filler.fill(&mut t);
    assert_eq!(t.elements().as_slice(), &[-2, -2, -2, -2]);
}

#[test]
fn test_layer_type_from_configs() {
    let reshape: LayerType = ReshapeConfig::of_shape(&[2, 2]).into();
    assert!(matches!(reshape, LayerType::Reshape(_)));
    let nll: LayerType = NegativeLogLikelihoodConfig { num_classes: 3 }.into();
    assert!(matches!(nll, LayerType::NegativeLogLikelihood(_)));
}

#[test]
fn test_glorot_filler_keeps_shape() {
    let mut t = tensor(&[2, 3], &[1, 2, 3, 4, 5, 6]);
    let filler: FillerType<i64> = FillerType::Glorot { input_size: 6, output_size: 6 };
    filler.fill(&mut t);
    assert_eq!(t.dimensions().as_slice(), &[2, 3]);
    assert_eq!(t.capacity(), 6);
}

#[test]
fn test_learning_rate_schedule() {
    let fixed: SolverConfig<i64> = SolverConfig {
        minibatch_size: 1,
        base_lr: 5,
        momentum: 0,
        network: SequentialConfig::default(),
        objective: SequentialConfig::default(),
        lr_policy: LRPolicy::Fixed,
    };
    assert_eq!(fixed.get_learning_rate(0), 5);
    assert_eq!(fixed.get_learning_rate(100), 5);
    let step: SolverConfig<i64> = SolverConfig {
        lr_policy: LRPolicy::Step { gamma: 2, step_size: 3 },
        ..fixed
    };
    assert_eq!(step.get_learning_rate(0), 5);
    assert_eq!(step.get_learning_rate(2), 5);
    assert_eq!(step.get_learning_rate(3), 10);
    assert_eq!(step.get_learning_rate(7), 20);
}

#[test]
fn test_sequential_unresolved_input_name() {
    let mut config = SequentialConfig::default();
    config.add_input("data", &[1, 4]);
    let mut layer = LayerConfig::new("sigmoid", LayerType::Sigmoid);
    layer.add_input("missing");
    config.add_layer(layer);
    let r = Sequential::<i64>::from_config(&config);
    assert_eq!(r.err().unwrap(), LeafError::UnresolvedInput);
}

#[test]
fn test_sequential_wrong_blob_count() {
    let mut config = SequentialConfig::default();
    config.add_input("data", &[1, 4]);
    config.add_input("extra", &[1, 4]);
    // a sigmoid chained onto two container inputs has one blob too many
    config.add_layer(LayerConfig::new("sigmoid", LayerType::Sigmoid));
    let r = Sequential::<i64>::from_config(&config);
    assert_eq!(r.err().unwrap(), LeafError::WrongBlobCount);
}

#[test]
fn test_sequential_resolves_layer_outputs_by_name() {
    let mut config = SequentialConfig::default();
    config.add_input("data", &[2, 2]);
    config.add_layer(LayerConfig::new(
        "reshape",
        LayerType::Reshape(ReshapeConfig::of_shape(&[1, 4])),
    ));
    let mut second = LayerConfig::new("sigmoid", LayerType::Sigmoid);
    second.add_input("reshape");
    config.add_layer(second);
    let net = Sequential::<i64>::from_config(&config).unwrap();
    assert_eq!(net.layer_count(), 2);
    // the reshape layer works in place, so it registered the data blob
    assert_eq!(net.resolve(&"reshape".to_owned()), Some(0));
    assert!(net.resolve(&"sigmoid".to_owned()).is_some());
    assert_eq!(net.resolve(&"unknown".to_owned()), None);
}

#[test]
fn test_nll_label_out_of_range_is_reported() {
    let mut objective = SequentialConfig::default();
    objective.add_input("network_out", &[2, 2]);
    objective.add_input("label", &[2, 1]);
    objective.add_layer(LayerConfig::new(
        "nll",
        LayerType::NegativeLogLikelihood(NegativeLogLikelihoodConfig { num_classes: 2 }),
    ));
    let mut net = Sequential::<i64>::from_config(&objective).unwrap();
    net.write_input(0, &[10, 20, 30, 40]).unwrap();
    net.write_input(1, &[0, 7]).unwrap();
    let r = net.forward(&IdentityBackend);
    assert_eq!(r.unwrap_err(), LeafError::LabelOutOfRange);
}

#[test]
fn test_nll_unsupported_label_rank_is_reported() {
    let mut objective = SequentialConfig::default();
    objective.add_input("network_out", &[2, 2]);
    objective.add_input("label", &[2, 1, 1]);
    objective.add_layer(LayerConfig::new(
        "nll",
        LayerType::NegativeLogLikelihood(NegativeLogLikelihoodConfig { num_classes: 2 }),
    ));
    let mut net = Sequential::<i64>::from_config(&objective).unwrap();
    let r = net.forward(&IdentityBackend);
    assert_eq!(r.unwrap_err(), LeafError::UnsupportedRank);
}

/// An exact integer backend where the smooth activations degenerate to
/// the identity map; enough to drive the container's bookkeeping.
struct IdentityBackend;

impl leaf::backend::Backend<i64> for IdentityBackend {
    fn sigmoid_of(_x: i64) -> i64 {
        panic!("specification function; never called at run time")
    }

    fn sigmoid_grad_of(_y: i64, _dy: i64, _x: i64) -> i64 {
        panic!("specification function; never called at run time")
    }

    fn tanh_of(_x: i64) -> i64 {
        panic!("specification function; never called at run time")
    }

    fn tanh_grad_of(_y: i64, _dy: i64, _x: i64) -> i64 {
        panic!("specification function; never called at run time")
    }

    fn relu(&self, x: &Tensor<i64>, y: &mut Tensor<i64>) -> Result<(), LeafError> {
        if x.dimensions() != y.dimensions() {
            return Err(LeafError::ShapeMismatch);
        }
        let values: Vec<i64> = x.elements().iter().map(|v| if *v > 0 { *v } else { 0 }).collect();
        y.write_slice(&values)
    }

    fn relu_grad(
        &self,
        y: &Tensor<i64>,
        dy: &Tensor<i64>,
        x: &Tensor<i64>,
        dx: &mut Tensor<i64>,
    ) -> Result<(), LeafError> {
        if y.dimensions() != dx.dimensions()
            || dy.dimensions() != dx.dimensions()
            || x.dimensions() != dx.dimensions()
        {
            return Err(LeafError::ShapeMismatch);
        }
        let values: Vec<i64> = y
            .elements()
            .iter()
            .zip(dy.elements().iter())
            .map(|(yv, dyv)| if *yv > 0 { *dyv } else { 0 })
            .collect();
        dx.write_slice(&values)
    }

    fn sigmoid(&self, x: &Tensor<i64>, y: &mut Tensor<i64>) -> Result<(), LeafError> {
        if x.dimensions() != y.dimensions() {
            return Err(LeafError::ShapeMismatch);
        }
        let values: Vec<i64> = x.elements().clone();
        y.write_slice(&values)
    }

    fn sigmoid_grad(
        &self,
        y: &Tensor<i64>,
        dy: &Tensor<i64>,
        x: &Tensor<i64>,
        dx: &mut Tensor<i64>,
    ) -> Result<(), LeafError> {
        if y.dimensions() != dx.dimensions()
            || dy.dimensions() != dx.dimensions()
            || x.dimensions() != dx.dimensions()
        {
            return Err(LeafError::ShapeMismatch);
        }
        let values: Vec<i64> = dy.elements().clone();
        dx.write_slice(&values)
    }

    fn tanh(&self, x: &Tensor<i64>, y: &mut Tensor<i64>) -> Result<(), LeafError> {
        self.sigmoid(x, y)
    }

    fn tanh_grad(
        &self,
        y: &Tensor<i64>,
        dy: &Tensor<i64>,
        x: &Tensor<i64>,
        dx: &mut Tensor<i64>,
    ) -> Result<(), LeafError> {
        self.sigmoid_grad(y, dy, x, dx)
    }

    fn softmax(&self, x: &Tensor<i64>, y: &mut Tensor<i64>) -> Result<(), LeafError> {
        self.sigmoid(x, y)
    }

    fn softmax_grad(
        &self,
        y: &Tensor<i64>,
        dy: &Tensor<i64>,
        dx: &mut Tensor<i64>,
    ) -> Result<(), LeafError> {
        if y.dimensions() != dx.dimensions() || dy.dimensions() != dx.dimensions() {
            return Err(LeafError::ShapeMismatch);
        }
        let values: Vec<i64> = dy.elements().clone();
        dx.write_slice(&values)
    }

    fn log_softmax(&self, x: &Tensor<i64>, y: &mut Tensor<i64>) -> Result<(), LeafError> {
        self.sigmoid(x, y)
    }

    fn log_softmax_grad(
        &self,
        y: &Tensor<i64>,
        dy: &Tensor<i64>,
        dx: &mut Tensor<i64>,
    ) -> Result<(), LeafError> {
        self.softmax_grad(y, dy, dx)
    }

    fn axpby(
        &self,
        alpha: i64,
        x: &Tensor<i64>,
        beta: i64,
        y: &mut Tensor<i64>,
    ) -> Result<(), LeafError> {
        if x.dimensions() != y.dimensions() {
            return Err(LeafError::ShapeMismatch);
        }
        let values: Vec<i64> = x
            .elements()
            .iter()
            .zip(y.elements().iter())
            .map(|(xv, yv)| alpha.wrapping_mul(*xv).wrapping_add(beta.wrapping_mul(*yv)))
            .collect();
        y.write_slice(&values)
    }

    fn copy(&self, x: &Tensor<i64>, y: &mut Tensor<i64>) -> Result<(), LeafError> {
        if x.dimensions() != y.dimensions() {
            return Err(LeafError::ShapeMismatch);
        }
        let values: Vec<i64> = x.elements().clone();
        y.write_slice(&values)
    }
}
