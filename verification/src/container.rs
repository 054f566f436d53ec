//! The sequential container: an ordered list of layers wired into a
//! single executable network.
//!
//! At build time the container validates that every layer's declared
//! input names resolve to already-produced blobs or declared top-level
//! inputs, and allocates a (data, gradient) tensor pair per blob in an
//! index-based arena. The forward pass executes the layers strictly in
//! declaration order, re-running each layer's shape-inference step first;
//! the backward pass executes them in reverse.

use vstd::prelude::*;

use crate::activation::{ActivationLayer, ReLU, Sigmoid, TanH};
use crate::backend::{relu_grad_of, relu_of, Backend};
use crate::common::{LogSoftmax, Softmax};
use crate::error::LeafError;
use crate::loss::{
    batch_size_spec, label_position, nll_gradient, nll_loss, NegativeLogLikelihood,
    NegativeLogLikelihoodConfig,
};
use crate::scalar::Scalar;
use crate::tensor::{capacity_spec, positive_dims, resized_to, Tensor};
use crate::utility::{Reshape, ReshapeConfig};

verus! {

/// The closed set of layer kinds a configuration can ask for.
#[derive(Debug, Clone)]
pub enum LayerType {
    /// Rectified linear unit activation.
    ReLU,
    /// Sigmoid activation.
    Sigmoid,
    /// Hyperbolic tangent activation.
    TanH,
    /// Softmax over the input buffer.
    Softmax,
    /// Logarithmic softmax over the input buffer.
    LogSoftmax,
    /// In-place shape reinterpretation.
    Reshape(ReshapeConfig),
    /// Negative-log-likelihood loss.
    NegativeLogLikelihood(NegativeLogLikelihoodConfig),
}

impl From<ReshapeConfig> for LayerType {
    fn from(config: ReshapeConfig) -> (r: LayerType) {
        LayerType::Reshape(config)
    }
}

impl vstd::std_specs::convert::FromSpecImpl<ReshapeConfig> for LayerType {
    open spec fn obeys_from_spec() -> bool {
        true
    }

    open spec fn from_spec(config: ReshapeConfig) -> LayerType {
        LayerType::Reshape(config)
    }
}

impl From<NegativeLogLikelihoodConfig> for LayerType {
    fn from(config: NegativeLogLikelihoodConfig) -> (r: LayerType) {
        LayerType::NegativeLogLikelihood(config)
    }
}

impl vstd::std_specs::convert::FromSpecImpl<NegativeLogLikelihoodConfig> for LayerType {
    open spec fn obeys_from_spec() -> bool {
        true
    }

    open spec fn from_spec(config: NegativeLogLikelihoodConfig) -> LayerType {
        LayerType::NegativeLogLikelihood(config)
    }
}

/// One layer of a network: a name, the layer kind, and the names of the
/// blobs the layer reads. With no input names given, the layer is chained
/// onto the previous layer's output (or onto all declared container
/// inputs, for the first layer).
#[derive(Debug, Clone)]
pub struct LayerConfig {
    /// The layer's name; its output blob is registered under it.
    pub name: String,
    /// Which kind of layer to build.
    pub layer_type: LayerType,
    /// The names of the blobs the layer reads; empty means chain onto
    /// the previous layer.
    pub inputs: Vec<String>,
}

impl LayerConfig {
    /// A layer of the given kind with no explicit input bindings.
    pub fn new(name: &str, layer_type: LayerType) -> (r: LayerConfig)
        ensures
            r.name@ == name@,
            r.layer_type == layer_type,
            r.inputs@ == Seq::<String>::empty(),
    {
        LayerConfig { name: name.to_owned(), layer_type, inputs: Vec::new() }
    }

    /// Bind one more named input blob.
    pub fn add_input(&mut self, name: &str)
        ensures
            final(self).name == old(self).name,
            final(self).layer_type == old(self).layer_type,
            final(self).inputs@.len() == old(self).inputs@.len() + 1,
            final(self).inputs@.take(old(self).inputs@.len() as int) == old(self).inputs@,
            final(self).inputs@.last()@ == name@,
    {
        self.inputs.push(name.to_owned());
        assert(self.inputs@.take(old(self).inputs@.len() as int) =~= old(self).inputs@);
    }
}

/// Configuration of a sequential network: named, shaped top-level inputs
/// and an ordered list of layers.
#[derive(Debug, Clone)]
pub struct SequentialConfig {
    /// The declared top-level inputs: name and shape.
    pub inputs: Vec<(String, Vec<usize>)>,
    /// The layers, in execution order.
    pub layers: Vec<LayerConfig>,
    /// Whether gradients are computed even for blobs that no configured
    /// objective asks about.
    pub force_backward: bool,
}

impl Default for SequentialConfig {
    /// An empty network: no inputs, no layers.
    fn default() -> (r: SequentialConfig)
        ensures
            r.inputs@ == Seq::<(String, Vec<usize>)>::empty(),
            r.layers@ == Seq::<LayerConfig>::empty(),
            r.force_backward == false,
    {
        SequentialConfig { inputs: Vec::new(), layers: Vec::new(), force_backward: false }
    }
}

impl SequentialConfig {
    /// Declare a top-level input blob with its shape.
    pub fn add_input(&mut self, name: &str, shape: &[usize])
        ensures
            final(self).layers == old(self).layers,
            final(self).force_backward == old(self).force_backward,
            final(self).inputs@.len() == old(self).inputs@.len() + 1,
            final(self).inputs@.take(old(self).inputs@.len() as int) == old(self).inputs@,
            final(self).inputs@.last().0@ == name@,
            final(self).inputs@.last().1@ == shape@,
    {
        let mut copied: Vec<usize> = Vec::new();
        let n = shape.len();
        let mut i: usize = 0;
        while i < n
            invariant
                i <= n,
                n == shape@.len(),
                copied@ =~= shape@.take(i as int),
            decreases n - i,
        {
            copied.push(shape[i]);
            i += 1;
        }
        assert(copied@ =~= shape@);
        self.inputs.push((name.to_owned(), copied));
        assert(self.inputs@.take(old(self).inputs@.len() as int) =~= old(self).inputs@);
    }

    /// Append a layer to the execution order.
    pub fn add_layer(&mut self, layer: LayerConfig)
        ensures
            final(self).inputs == old(self).inputs,
            final(self).force_backward == old(self).force_backward,
            final(self).layers@ == old(self).layers@.push(layer),
    {
        self.layers.push(layer);
    }
}

/// Every declared input shape is positive and fits in `usize`.
pub open spec fn input_shapes_valid(config: SequentialConfig) -> bool {
    forall|i: int|
        0 <= i < config.inputs@.len() ==> positive_dims(#[trigger] config.inputs@[i].1@)
            && capacity_spec(config.inputs@[i].1@) <= usize::MAX
}

/// Whether `name` denotes a blob that exists before layer `k` runs: a
/// declared container input, or the output of an earlier layer.
pub open spec fn name_available(config: SequentialConfig, k: int, name: Seq<char>) -> bool {
    (exists|i: int| 0 <= i < config.inputs@.len() && #[trigger] config.inputs@[i].0@ == name)
        || (exists|j: int| 0 <= j < k && #[trigger] config.layers@[j].name@ == name)
}

/// How many input blobs layer `k` is wired to: its explicit bindings, or
/// by default the previous layer's single output (all container inputs,
/// for the first layer).
pub open spec fn layer_input_count(config: SequentialConfig, k: int) -> int {
    if config.layers@[k].inputs@.len() > 0 {
        config.layers@[k].inputs@.len() as int
    } else if k == 0 {
        config.inputs@.len() as int
    } else {
        1
    }
}

/// Whether a layer kind accepts the given number of input blobs.
pub open spec fn arity_ok(layer_type: LayerType, count: int) -> bool {
    match layer_type {
        LayerType::NegativeLogLikelihood(_) => count == 2,
        _ => count == 1,
    }
}

/// Whether layer `k` of the configuration wires up: every explicit input
/// name resolves, and the resulting input count fits the layer kind.
pub open spec fn layer_wires(config: SequentialConfig, k: int) -> bool {
    &&& forall|m: int|
        0 <= m < config.layers@[k].inputs@.len() ==> name_available(
            config,
            k,
            #[trigger] config.layers@[k].inputs@[m]@,
        )
    &&& arity_ok(config.layers@[k].layer_type, layer_input_count(config, k))
}

/// Whether the whole configuration builds: valid input shapes, and every
/// layer wires up.
pub open spec fn config_wires(config: SequentialConfig) -> bool {
    &&& input_shapes_valid(config)
    &&& forall|k: int| 0 <= k < config.layers@.len() ==> #[trigger] layer_wires(config, k)
}

/// Whether some binding in the registry carries `name`.
pub open spec fn registry_has(registry: Seq<(String, usize)>, name: Seq<char>) -> bool {
    exists|p: int| 0 <= p < registry.len() && (#[trigger] registry[p]).0@ == name
}

/// Whether some binding in the registry maps `name` to index `i`.
pub open spec fn registry_maps(registry: Seq<(String, usize)>, name: Seq<char>, i: usize) -> bool {
    exists|p: int|
        0 <= p < registry.len() && (#[trigger] registry[p]).0@ == name && registry[p].1 == i
}

/// A runtime layer of a sequential network.
pub enum LayerUnit {
    /// Rectified linear unit activation.
    ReLU(ReLU),
    /// Sigmoid activation.
    Sigmoid(Sigmoid),
    /// Hyperbolic tangent activation.
    TanH(TanH),
    /// Softmax.
    Softmax(Softmax),
    /// Logarithmic softmax.
    LogSoftmax(LogSoftmax),
    /// In-place reshape.
    Reshape(Reshape),
    /// Negative-log-likelihood loss.
    NegativeLogLikelihood(NegativeLogLikelihood),
}

/// How a runtime layer must be wired into the blob arena: the loss layer
/// reads two blobs, every other kind reads one; each writes one output
/// blob, which for the in-place reshape is its own input and for every
/// other kind is a distinct blob.
pub open spec fn unit_wiring_ok(unit: LayerUnit, ins: Seq<usize>, outs: Seq<usize>) -> bool {
    match unit {
        LayerUnit::NegativeLogLikelihood(_) => ins.len() == 2 && outs.len() == 1 && outs[0]
            != ins[0] && outs[0] != ins[1],
        LayerUnit::Reshape(_) => ins.len() == 1 && outs.len() == 1 && outs[0] == ins[0],
        _ => ins.len() == 1 && outs.len() == 1 && outs[0] != ins[0],
    }
}

/// All indices in `s` address the blob arena of size `n`.
pub open spec fn indices_ok(s: Seq<usize>, n: nat) -> bool {
    forall|m: int| 0 <= m < s.len() ==> (#[trigger] s[m]) < n
}

/// Same buffer, same shape, and well-formed: how a blob relates to its
/// replacement when a pass copies it back unchanged.
pub open spec fn tensor_like<T: Copy>(a: Tensor<T>, b: Tensor<T>) -> bool {
    b@ == a@ && b.shape_spec() == a.shape_spec() && b.wf()
}

/// Whether one layer's shape-inference and compute steps can run on the
/// given arena state: the reshape target must be a valid shape, and the
/// loss layer needs a rank-1 or rank-2 label tensor whose true-label
/// positions all lie inside the probability buffer; every other kind
/// always runs. Both the forward and the backward step fail exactly when
/// this does not hold.
pub open spec fn layer_step_ok<T: Scalar>(
    unit: LayerUnit,
    ins: Seq<usize>,
    pre_data: Seq<Tensor<T>>,
) -> bool {
    match unit {
        LayerUnit::Reshape(layer) => positive_dims(layer.shape_spec()) && capacity_spec(
            layer.shape_spec(),
        ) <= usize::MAX,
        LayerUnit::NegativeLogLikelihood(layer) => {
            let probs = pre_data[ins[0] as int];
            let labels = pre_data[ins[1] as int];
            &&& (labels.shape_spec().len() == 1 || labels.shape_spec().len() == 2)
            &&& forall|b: int|
                0 <= b < labels@.len() ==> 0 <= #[trigger] label_position(
                    labels@,
                    layer.num_classes_spec(),
                    b,
                ) < probs@.len()
        },
        _ => true,
    }
}

/// The elementwise forward values each same-shape layer kind computes
/// from its input buffer; the softmax family promises its shape alone.
pub open spec fn forward_values_relation<T: Scalar, B: Backend<T>>(
    unit: LayerUnit,
    x: Seq<T>,
    y: Seq<T>,
) -> bool {
    match unit {
        LayerUnit::ReLU(_) => forall|i: int|
            0 <= i < x.len() ==> #[trigger] y[i] == relu_of::<T>(x[i]),
        LayerUnit::Sigmoid(_) => forall|i: int|
            0 <= i < x.len() ==> #[trigger] y[i] == B::sigmoid_of(x[i]),
        LayerUnit::TanH(_) => forall|i: int|
            0 <= i < x.len() ==> #[trigger] y[i] == B::tanh_of(x[i]),
        LayerUnit::Softmax(_) => y == B::softmax_of(x),
        LayerUnit::LogSoftmax(_) => y == B::log_softmax_of(x),
        _ => true,
    }
}

/// What one forward step leaves in the blob arena: the layer's shape
/// inference re-ran (resizing the touched gradient and output tensors),
/// the output blob holds the layer's computed forward values, and every
/// other blob is untouched.
pub open spec fn forward_step_relation<T: Scalar, B: Backend<T>>(
    unit: LayerUnit,
    ins: Seq<usize>,
    outs: Seq<usize>,
    pre_data: Seq<Tensor<T>>,
    pre_grad: Seq<Tensor<T>>,
    post_data: Seq<Tensor<T>>,
    post_grad: Seq<Tensor<T>>,
) -> bool {
    &&& post_data.len() == pre_data.len()
    &&& post_grad.len() == pre_grad.len()
    &&& forall|j: int|
        0 <= j < pre_data.len() && j != outs[0] ==> #[trigger] post_data[j] == pre_data[j]
    &&& match unit {
        LayerUnit::Reshape(layer) => {
            let b = outs[0] as int;
            let target = layer.shape_spec();
            &&& forall|j: int|
                0 <= j < pre_grad.len() && j != b ==> #[trigger] post_grad[j] == pre_grad[j]
            &&& resized_to(pre_data[b], post_data[b], target, T::zero_spec())
            &&& resized_to(pre_grad[b], post_grad[b], target, T::zero_spec())
        },
        LayerUnit::NegativeLogLikelihood(layer) => {
            let p = ins[0] as int;
            let lb = ins[1] as int;
            let o = outs[0] as int;
            &&& forall|j: int|
                0 <= j < pre_grad.len() && j != p && j != lb && j != o
                    ==> #[trigger] post_grad[j] == pre_grad[j]
            &&& post_data[o].wf()
            &&& post_data[o].shape_spec() == seq![1usize]
            &&& post_data[o]@ == seq![
                nll_loss(
                    pre_data[p]@,
                    pre_data[lb]@,
                    layer.num_classes_spec(),
                    batch_size_spec(pre_data[lb].shape_spec()),
                ),
            ]
            &&& resized_to(pre_grad[p], post_grad[p], pre_data[p].shape_spec(), T::zero_spec())
            &&& (lb != p ==> tensor_like(pre_grad[lb], post_grad[lb]))
            &&& tensor_like(pre_grad[o], post_grad[o])
        },
        _ => {
            let b_in = ins[0] as int;
            let b_out = outs[0] as int;
            let s = pre_data[b_in].shape_spec();
            &&& forall|j: int|
                0 <= j < pre_grad.len() && j != b_in && j != b_out
                    ==> #[trigger] post_grad[j] == pre_grad[j]
            &&& resized_to(pre_grad[b_in], post_grad[b_in], s, T::zero_spec())
            &&& resized_to(pre_grad[b_out], post_grad[b_out], s, T::zero_spec())
            &&& post_data[b_out].wf()
            &&& post_data[b_out].shape_spec() == s
            &&& post_data[b_out]@.len() == pre_data[b_in]@.len()
            &&& forward_values_relation::<T, B>(unit, pre_data[b_in]@, post_data[b_out]@)
        },
    }
}

/// The elementwise input-gradient values each same-shape layer kind
/// computes from the forward output `y`, the output gradient `dy` and
/// the input `x`; the softmax family promises its shape alone.
pub open spec fn backward_values_relation<T: Scalar, B: Backend<T>>(
    unit: LayerUnit,
    y: Seq<T>,
    dy: Seq<T>,
    x: Seq<T>,
    dx: Seq<T>,
) -> bool {
    match unit {
        LayerUnit::ReLU(_) => forall|i: int|
            0 <= i < y.len() ==> #[trigger] dx[i] == relu_grad_of::<T>(y[i], dy[i]),
        LayerUnit::Sigmoid(_) => forall|i: int|
            0 <= i < y.len() ==> #[trigger] dx[i] == B::sigmoid_grad_of(y[i], dy[i], x[i]),
        LayerUnit::TanH(_) => forall|i: int|
            0 <= i < y.len() ==> #[trigger] dx[i] == B::tanh_grad_of(y[i], dy[i], x[i]),
        LayerUnit::Softmax(_) => dx == B::softmax_grad_of(y, dy),
        LayerUnit::LogSoftmax(_) => dx == B::log_softmax_grad_of(y, dy),
        _ => true,
    }
}

/// What one backward step leaves in the blob arena: the layer's shape
/// inference re-ran, the layer's input-gradient blob holds the
/// backpropagated values, and every other blob is untouched.
pub open spec fn backward_step_relation<T: Scalar, B: Backend<T>>(
    unit: LayerUnit,
    ins: Seq<usize>,
    outs: Seq<usize>,
    pre_data: Seq<Tensor<T>>,
    pre_grad: Seq<Tensor<T>>,
    post_data: Seq<Tensor<T>>,
    post_grad: Seq<Tensor<T>>,
) -> bool {
    &&& post_data.len() == pre_data.len()
    &&& post_grad.len() == pre_grad.len()
    &&& forall|j: int|
        0 <= j < pre_data.len() && j != outs[0] ==> #[trigger] post_data[j] == pre_data[j]
    &&& match unit {
        LayerUnit::Reshape(layer) => {
            let b = outs[0] as int;
            let target = layer.shape_spec();
            &&& forall|j: int|
                0 <= j < pre_grad.len() && j != b ==> #[trigger] post_grad[j] == pre_grad[j]
            &&& resized_to(pre_data[b], post_data[b], target, T::zero_spec())
            &&& resized_to(pre_grad[b], post_grad[b], target, T::zero_spec())
        },
        LayerUnit::NegativeLogLikelihood(layer) => {
            let p = ins[0] as int;
            let lb = ins[1] as int;
            let o = outs[0] as int;
            &&& forall|j: int|
                0 <= j < pre_grad.len() && j != p && j != lb && j != o
                    ==> #[trigger] post_grad[j] == pre_grad[j]
            &&& resized_to(pre_data[o], post_data[o], seq![1usize], T::zero_spec())
            &&& post_grad[p].wf()
            &&& post_grad[p].shape_spec() == pre_data[p].shape_spec()
            &&& post_grad[p]@ == nll_gradient::<T>(
                pre_data[p]@.len(),
                pre_data[lb]@,
                layer.num_classes_spec(),
            )
            &&& (lb != p ==> tensor_like(pre_grad[lb], post_grad[lb]))
            &&& tensor_like(pre_grad[o], post_grad[o])
        },
        _ => {
            let b_in = ins[0] as int;
            let b_out = outs[0] as int;
            let s = pre_data[b_in].shape_spec();
            &&& forall|j: int|
                0 <= j < pre_grad.len() && j != b_in && j != b_out
                    ==> #[trigger] post_grad[j] == pre_grad[j]
            &&& resized_to(pre_data[b_out], post_data[b_out], s, T::zero_spec())
            &&& resized_to(pre_grad[b_out], post_grad[b_out], s, T::zero_spec())
            &&& post_grad[b_in].wf()
            &&& post_grad[b_in].shape_spec() == s
            &&& post_grad[b_in]@.len() == post_data[b_out]@.len()
            &&& backward_values_relation::<T, B>(
                unit,
                post_data[b_out]@,
                post_grad[b_out]@,
                pre_data[b_in]@,
                post_grad[b_in]@,
            )
        },
    }
}

/// The blob arena evolves from `(d0, g0)` to `(d1, g1)` by running the
/// forward steps of the first `k` layers, strictly in declaration order.
pub open spec fn forward_pass_relation<T: Scalar, B: Backend<T>>(
    units: Seq<LayerUnit>,
    lins: Seq<Vec<usize>>,
    louts: Seq<Vec<usize>>,
    k: int,
    d0: Seq<Tensor<T>>,
    g0: Seq<Tensor<T>>,
    d1: Seq<Tensor<T>>,
    g1: Seq<Tensor<T>>,
) -> bool
    decreases k,
{
    if k <= 0 {
        d1 == d0 && g1 == g0
    } else {
        exists|dm: Seq<Tensor<T>>, gm: Seq<Tensor<T>>|
            forward_pass_relation::<T, B>(units, lins, louts, k - 1, d0, g0, dm, gm)
                && #[trigger] forward_step_relation::<T, B>(
                units[k - 1],
                lins[k - 1]@,
                louts[k - 1]@,
                dm,
                gm,
                d1,
                g1,
            )
    }
}

/// The blob arena evolves from `(d0, g0)` to `(d1, g1)` by running the
/// backward steps of the last `k` layers, in the reverse of declaration
/// order.
pub open spec fn backward_pass_relation<T: Scalar, B: Backend<T>>(
    units: Seq<LayerUnit>,
    lins: Seq<Vec<usize>>,
    louts: Seq<Vec<usize>>,
    k: int,
    d0: Seq<Tensor<T>>,
    g0: Seq<Tensor<T>>,
    d1: Seq<Tensor<T>>,
    g1: Seq<Tensor<T>>,
) -> bool
    decreases k,
{
    if k <= 0 {
        d1 == d0 && g1 == g0
    } else {
        exists|dm: Seq<Tensor<T>>, gm: Seq<Tensor<T>>|
            backward_pass_relation::<T, B>(units, lins, louts, k - 1, d0, g0, dm, gm)
                && #[trigger] backward_step_relation::<T, B>(
                units[units.len() - k],
                lins[units.len() - k]@,
                louts[units.len() - k]@,
                dm,
                gm,
                d1,
                g1,
            )
    }
}

/// The arena `post` is `pre` with `values` written into the data buffer
/// of blob `idx`, keeping that blob's shape and every other blob.
pub open spec fn written_at<T: Copy>(
    pre: Seq<Tensor<T>>,
    idx: int,
    values: Seq<T>,
    post: Seq<Tensor<T>>,
) -> bool {
    &&& post == pre.update(idx, post[idx])
    &&& post[idx]@ == values
    &&& post[idx].shape_spec() == pre[idx].shape_spec()
    &&& post[idx].wf()
}

/// Some layer along the forward order cannot run: from the starting
/// arena `(d0, g0)`, running the first `k` layers reaches a state on
/// which layer `k`'s step fails. A forward pass errs exactly on blocked
/// arenas, so a caller who refutes this predicate is owed success.
pub open spec fn forward_pass_blocked<T: Scalar, B: Backend<T>>(
    units: Seq<LayerUnit>,
    lins: Seq<Vec<usize>>,
    louts: Seq<Vec<usize>>,
    n: int,
    d0: Seq<Tensor<T>>,
    g0: Seq<Tensor<T>>,
) -> bool {
    exists|k: int, dm: Seq<Tensor<T>>, gm: Seq<Tensor<T>>|
        0 <= k < n && #[trigger] forward_pass_relation::<T, B>(
            units,
            lins,
            louts,
            k,
            d0,
            g0,
            dm,
            gm,
        ) && !layer_step_ok(units[k], lins[k]@, dm)
}

/// Some layer along the backward order cannot run: from the starting
/// arena `(d0, g0)`, running the backward steps of the last `p` layers
/// reaches a state on which the next layer's backward step fails.
pub open spec fn backward_pass_blocked<T: Scalar, B: Backend<T>>(
    units: Seq<LayerUnit>,
    lins: Seq<Vec<usize>>,
    louts: Seq<Vec<usize>>,
    n: int,
    d0: Seq<Tensor<T>>,
    g0: Seq<Tensor<T>>,
) -> bool {
    exists|p: int, dm: Seq<Tensor<T>>, gm: Seq<Tensor<T>>|
        0 <= p < n && #[trigger] backward_pass_relation::<T, B>(
            units,
            lins,
            louts,
            p,
            d0,
            g0,
            dm,
            gm,
        ) && !layer_step_ok(units[n - 1 - p], lins[n - 1 - p]@, dm)
}

/// An ordered list of layers wired over a blob arena, executable forward
/// and backward.
pub struct Sequential<T> {
    layer_names: Vec<String>,
    layers: Vec<LayerUnit>,
    registry: Vec<(String, usize)>,
    blobs_data: Vec<Tensor<T>>,
    blobs_grad: Vec<Tensor<T>>,
    layer_inputs: Vec<Vec<usize>>,
    layer_outputs: Vec<Vec<usize>>,
    input_blobs: Vec<usize>,
    weights_data: Vec<Tensor<T>>,
    weights_grad: Vec<Tensor<T>>,
    force_backward: bool,
}

impl<T: Scalar> Sequential<T> {
    /// The layer names, in execution order.
    pub closed spec fn layer_names_spec(&self) -> Seq<String> {
        self.layer_names@
    }

    /// The runtime layers, in execution order.
    pub closed spec fn layers_spec(&self) -> Seq<LayerUnit> {
        self.layers@
    }

    /// The blob registry: name to arena index, newest binding last.
    pub closed spec fn registry_spec(&self) -> Seq<(String, usize)> {
        self.registry@
    }

    /// The data tensors of the blob arena.
    pub closed spec fn blobs_data_spec(&self) -> Seq<Tensor<T>> {
        self.blobs_data@
    }

    /// The gradient tensors of the blob arena.
    pub closed spec fn blobs_grad_spec(&self) -> Seq<Tensor<T>> {
        self.blobs_grad@
    }

    /// Per layer, the arena indices of the blobs it reads.
    pub closed spec fn layer_inputs_spec(&self) -> Seq<Vec<usize>> {
        self.layer_inputs@
    }

    /// Per layer, the arena indices of the blobs it writes.
    pub closed spec fn layer_outputs_spec(&self) -> Seq<Vec<usize>> {
        self.layer_outputs@
    }

    /// The arena indices of the declared top-level inputs.
    pub closed spec fn input_blobs_spec(&self) -> Seq<usize> {
        self.input_blobs@
    }

    /// The learnable weight tensors (none of the built-in layer kinds
    /// own weights, so the arena starts empty).
    pub closed spec fn weights_data_spec(&self) -> Seq<Tensor<T>> {
        self.weights_data@
    }

    /// The gradient tensors of the learnable weights.
    pub closed spec fn weights_grad_spec(&self) -> Seq<Tensor<T>> {
        self.weights_grad@
    }

    /// The container's invariant: consistent arena sizes, well-formed
    /// tensors, in-range indices, and per-layer wiring that fits each
    /// layer's kind.
    pub open spec fn wf(&self) -> bool {
        let n = self.blobs_data_spec().len();
        &&& self.blobs_grad_spec().len() == n
        &&& self.layers_spec().len() == self.layer_names_spec().len()
        &&& self.layers_spec().len() == self.layer_inputs_spec().len()
        &&& self.layers_spec().len() == self.layer_outputs_spec().len()
        &&& forall|i: int| 0 <= i < n ==> (#[trigger] self.blobs_data_spec()[i]).wf()
        &&& forall|i: int| 0 <= i < n ==> (#[trigger] self.blobs_grad_spec()[i]).wf()
        &&& forall|k: int|
            0 <= k < self.layers_spec().len() ==> unit_wiring_ok(
                #[trigger] self.layers_spec()[k],
                self.layer_inputs_spec()[k]@,
                self.layer_outputs_spec()[k]@,
            )
        &&& forall|k: int|
            0 <= k < self.layers_spec().len() ==> indices_ok(
                (#[trigger] self.layer_inputs_spec()[k])@,
                n,
            )
        &&& forall|k: int|
            0 <= k < self.layers_spec().len() ==> indices_ok(
                (#[trigger] self.layer_outputs_spec()[k])@,
                n,
            )
        &&& forall|p: int|
            0 <= p < self.registry_spec().len() ==> (#[trigger] self.registry_spec()[p]).1 < n
        &&& indices_ok(self.input_blobs_spec(), n)
        &&& self.weights_data_spec().len() == self.weights_grad_spec().len()
        &&& forall|i: int|
            0 <= i < self.weights_data_spec().len() ==> (#[trigger] self.weights_data_spec()[i]).wf()
        &&& forall|i: int|
            0 <= i < self.weights_grad_spec().len() ==> (#[trigger] self.weights_grad_spec()[i]).wf()
    }

    /// Everything that identifies the network's wiring, as opposed to
    /// the tensors' current contents, is the same in both containers.
    pub open spec fn same_structure(&self, other: &Sequential<T>) -> bool {
        &&& other.layer_names_spec() == self.layer_names_spec()
        &&& other.layers_spec() == self.layers_spec()
        &&& other.registry_spec() == self.registry_spec()
        &&& other.layer_inputs_spec() == self.layer_inputs_spec()
        &&& other.layer_outputs_spec() == self.layer_outputs_spec()
        &&& other.input_blobs_spec() == self.input_blobs_spec()
        &&& other.blobs_data_spec().len() == self.blobs_data_spec().len()
        &&& other.blobs_grad_spec().len() == self.blobs_grad_spec().len()
        &&& other.weights_data_spec() == self.weights_data_spec()
        &&& other.weights_grad_spec() == self.weights_grad_spec()
    }

    /// A container that keeps its wiring and holds only well-formed
    /// tensors is well-formed again.
    proof fn lemma_wf_same_wiring(pre: &Sequential<T>, post: &Sequential<T>)
        requires
            pre.wf(),
            post.same_structure(pre),
            forall|i: int|
                0 <= i < post.blobs_data_spec().len() ==> (#[trigger] post.blobs_data_spec()[i]).wf(),
            forall|i: int|
                0 <= i < post.blobs_grad_spec().len() ==> (#[trigger] post.blobs_grad_spec()[i]).wf(),
        ensures
            post.wf(),
    {
        let n = post.blobs_data_spec().len();
        assert forall|k: int| 0 <= k < post.layers_spec().len() implies unit_wiring_ok(
            #[trigger] post.layers_spec()[k],
            post.layer_inputs_spec()[k]@,
            post.layer_outputs_spec()[k]@,
        ) by {
            assert(unit_wiring_ok(
                pre.layers_spec()[k],
                pre.layer_inputs_spec()[k]@,
                pre.layer_outputs_spec()[k]@,
            ));
        }
        assert forall|k: int| 0 <= k < post.layers_spec().len() implies indices_ok(
            (#[trigger] post.layer_inputs_spec()[k])@,
            n,
        ) by {
            assert(indices_ok(pre.layer_inputs_spec()[k]@, n));
        }
        assert forall|k: int| 0 <= k < post.layers_spec().len() implies indices_ok(
            (#[trigger] post.layer_outputs_spec()[k])@,
            n,
        ) by {
            assert(indices_ok(pre.layer_outputs_spec()[k]@, n));
        }
        assert forall|p: int| 0 <= p < post.registry_spec().len() implies (
        #[trigger] post.registry_spec()[p]).1 < n by {
            assert(pre.registry_spec()[p].1 < n);
        }
        assert forall|i: int|
            0 <= i < post.weights_data_spec().len() implies (
        #[trigger] post.weights_data_spec()[i]).wf() by {
            assert(pre.weights_data_spec()[i].wf());
        }
        assert forall|i: int|
            0 <= i < post.weights_grad_spec().len() implies (
        #[trigger] post.weights_grad_spec()[i]).wf() by {
            assert(pre.weights_grad_spec()[i].wf());
        }
    }

    /// A container whose learnable-weight gradients were replaced by
    /// equally many well-formed tensors, everything else untouched, is
    /// well-formed again.
    pub proof fn lemma_wf_after_weights_update(pre: &Sequential<T>, post: &Sequential<T>)
        requires
            pre.wf(),
            post.layer_names_spec() == pre.layer_names_spec(),
            post.layers_spec() == pre.layers_spec(),
            post.registry_spec() == pre.registry_spec(),
            post.blobs_data_spec() == pre.blobs_data_spec(),
            post.blobs_grad_spec() == pre.blobs_grad_spec(),
            post.layer_inputs_spec() == pre.layer_inputs_spec(),
            post.layer_outputs_spec() == pre.layer_outputs_spec(),
            post.input_blobs_spec() == pre.input_blobs_spec(),
            post.weights_data_spec() == pre.weights_data_spec(),
            post.weights_grad_spec().len() == pre.weights_grad_spec().len(),
            forall|i: int|
                0 <= i < post.weights_grad_spec().len() ==> (
                #[trigger] post.weights_grad_spec()[i]).wf(),
        ensures
            post.wf(),
    {
        let n = post.blobs_data_spec().len();
        assert forall|i: int| 0 <= i < n implies (#[trigger] post.blobs_data_spec()[i]).wf() by {
            assert(pre.blobs_data_spec()[i].wf());
        }
        assert forall|i: int| 0 <= i < n implies (#[trigger] post.blobs_grad_spec()[i]).wf() by {
            assert(pre.blobs_grad_spec()[i].wf());
        }
        assert forall|k: int| 0 <= k < post.layers_spec().len() implies unit_wiring_ok(
            #[trigger] post.layers_spec()[k],
            post.layer_inputs_spec()[k]@,
            post.layer_outputs_spec()[k]@,
        ) by {
            assert(unit_wiring_ok(
                pre.layers_spec()[k],
                pre.layer_inputs_spec()[k]@,
                pre.layer_outputs_spec()[k]@,
            ));
        }
        assert forall|k: int| 0 <= k < post.layers_spec().len() implies indices_ok(
            (#[trigger] post.layer_inputs_spec()[k])@,
            n,
        ) by {
            assert(indices_ok(pre.layer_inputs_spec()[k]@, n));
        }
        assert forall|k: int| 0 <= k < post.layers_spec().len() implies indices_ok(
            (#[trigger] post.layer_outputs_spec()[k])@,
            n,
        ) by {
            assert(indices_ok(pre.layer_outputs_spec()[k]@, n));
        }
        assert forall|p: int| 0 <= p < post.registry_spec().len() implies (
        #[trigger] post.registry_spec()[p]).1 < n by {
            assert(pre.registry_spec()[p].1 < n);
        }
        assert forall|i: int|
            0 <= i < post.weights_data_spec().len() implies (
        #[trigger] post.weights_data_spec()[i]).wf() by {
            assert(pre.weights_data_spec()[i].wf());
        }
    }

    /// Build a runtime network from its configuration. Succeeds exactly
    /// when the configuration wires up (see [`config_wires`]): every
    /// declared input shape is valid, every explicit input name resolves
    /// to an already-produced blob, and every layer receives the number
    /// of inputs its kind accepts.
    pub fn from_config(config: &SequentialConfig) -> (r: Result<Sequential<T>, LeafError>)
        ensures
            r.is_ok() <==> config_wires(*config),
            match r {
                Ok(s) => {
                    &&& s.wf()
                    &&& s.layers_spec().len() == config.layers@.len()
                    &&& s.input_blobs_spec().len() == config.inputs@.len()
                    &&& s.weights_data_spec().len() == 0
                    &&& forall|j: int|
                        0 <= j < config.layers@.len() ==> (#[trigger] s.layer_names_spec()[j])@
                            == config.layers@[j].name@
                },
                Err(e) => {
                    ||| e == LeafError::ZeroDimension
                    ||| e == LeafError::CapacityOverflow
                    ||| e == LeafError::UnresolvedInput
                    ||| e == LeafError::WrongBlobCount
                },
            },
    {
        let mut registry: Vec<(String, usize)> = Vec::new();
        let mut blobs_data: Vec<Tensor<T>> = Vec::new();
        let mut blobs_grad: Vec<Tensor<T>> = Vec::new();
        let mut input_blobs: Vec<usize> = Vec::new();
        let ni = config.inputs.len();
        let mut i: usize = 0;
        while i < ni
            invariant
                i <= ni,
                ni == config.inputs@.len(),
                blobs_data@.len() == i,
                blobs_grad@.len() == i,
                input_blobs@.len() == i,
                registry@.len() == i,
                forall|p: int| 0 <= p < i ==> (#[trigger] registry@[p]).0@ == config.inputs@[p].0@,
                forall|p: int| 0 <= p < i ==> (#[trigger] registry@[p]).1 < blobs_data@.len(),
                forall|p: int| 0 <= p < i ==> (#[trigger] input_blobs@[p]) < blobs_data@.len(),
                forall|b: int| 0 <= b < i ==> (#[trigger] blobs_data@[b]).wf(),
                forall|b: int| 0 <= b < i ==> (#[trigger] blobs_grad@[b]).wf(),
                forall|p: int|
                    0 <= p < i ==> positive_dims(#[trigger] config.inputs@[p].1@) && capacity_spec(
                        config.inputs@[p].1@,
                    ) <= usize::MAX,
            decreases ni - i,
        {
            let t = match Tensor::new(&config.inputs[i].1, T::zero()) {
                Ok(t) => t,
                Err(e) => {
                    proof {
                        assert(!input_shapes_valid(*config));
                        assert(!config_wires(*config));
                    }
                    return Err(e);
                },
            };
            let g = t.duplicate();
            let name = config.inputs[i].0.clone();
            let idx = blobs_data.len();
            blobs_data.push(t);
            blobs_grad.push(g);
            registry.push((name, idx));
            input_blobs.push(idx);
            i += 1;
        }
        assert(input_shapes_valid(*config));
        let nl = config.layers.len();
        let mut layer_names: Vec<String> = Vec::new();
        let mut layers: Vec<LayerUnit> = Vec::new();
        let mut layer_inputs: Vec<Vec<usize>> = Vec::new();
        let mut layer_outputs: Vec<Vec<usize>> = Vec::new();
        let mut prev: Vec<usize> = copy_indices(&input_blobs);
        let mut k: usize = 0;
        while k < nl
            invariant
                k <= nl,
                nl == config.layers@.len(),
                ni == config.inputs@.len(),
                input_shapes_valid(*config),
                registry@.len() == ni + k,
                forall|p: int| 0 <= p < ni ==> (#[trigger] registry@[p]).0@ == config.inputs@[p].0@,
                forall|j: int|
                    0 <= j < k ==> (#[trigger] registry@[ni + j]).0@ == config.layers@[j].name@,
                forall|p: int|
                    0 <= p < registry@.len() ==> (#[trigger] registry@[p]).1 < blobs_data@.len(),
                blobs_data@.len() == blobs_grad@.len(),
                forall|b: int| 0 <= b < blobs_data@.len() ==> (#[trigger] blobs_data@[b]).wf(),
                forall|b: int| 0 <= b < blobs_grad@.len() ==> (#[trigger] blobs_grad@[b]).wf(),
                input_blobs@.len() == ni,
                forall|p: int|
                    0 <= p < ni ==> (#[trigger] input_blobs@[p]) < blobs_data@.len(),
                layer_names@.len() == k,
                layers@.len() == k,
                layer_inputs@.len() == k,
                layer_outputs@.len() == k,
                forall|j: int|
                    0 <= j < k ==> (#[trigger] layer_names@[j])@ == config.layers@[j].name@,
                forall|j: int|
                    0 <= j < k ==> unit_wiring_ok(
                        #[trigger] layers@[j],
                        layer_inputs@[j]@,
                        layer_outputs@[j]@,
                    ),
                forall|j: int|
                    0 <= j < k ==> indices_ok((#[trigger] layer_inputs@[j])@, blobs_data@.len()),
                forall|j: int|
                    0 <= j < k ==> indices_ok((#[trigger] layer_outputs@[j])@, blobs_data@.len()),
                forall|j: int| 0 <= j < k ==> #[trigger] layer_wires(*config, j),
                prev@.len() == (if k == 0 {
                    ni as int
                } else {
                    1int
                }),
                indices_ok(prev@, blobs_data@.len()),
            decreases nl - k,
        {
            let explicit = config.layers[k].inputs.len();
            let mut in_idx: Vec<usize> = Vec::new();
            if explicit > 0 {
                let mut m: usize = 0;
                while m < explicit
                    invariant
                        m <= explicit,
                        k < nl,
                        nl == config.layers@.len(),
                        ni == config.inputs@.len(),
                        explicit == config.layers@[k as int].inputs@.len(),
                        registry@.len() == ni + k,
                        forall|p: int|
                            0 <= p < ni ==> (#[trigger] registry@[p]).0@ == config.inputs@[p].0@,
                        forall|j: int|
                            0 <= j < k ==> (#[trigger] registry@[ni + j]).0@
                                == config.layers@[j].name@,
                        forall|p: int|
                            0 <= p < registry@.len() ==> (#[trigger] registry@[p]).1
                                < blobs_data@.len(),
                        in_idx@.len() == m,
                        indices_ok(in_idx@, blobs_data@.len()),
                        forall|q: int|
                            0 <= q < m ==> name_available(
                                *config,
                                k as int,
                                #[trigger] config.layers@[k as int].inputs@[q]@,
                            ),
                    decreases explicit - m,
                {
                    match resolve_index(&registry, &config.layers[k].inputs[m]) {
                        Some(bi) => {
                            proof {
                                let name = config.layers@[k as int].inputs@[m as int]@;
                                let p = choose|p: int|
                                    0 <= p < registry@.len() && (#[trigger] registry@[p]).0@
                                        == name && registry@[p].1 == bi;
                                assert(registry@[p].1 < blobs_data@.len());
                                if p < ni {
                                    assert(config.inputs@[p].0@ == name);
                                } else {
                                    let j = p - ni;
                                    assert(registry@[ni + j].0@ == config.layers@[j].name@);
                                }
                                assert(name_available(*config, k as int, name));
                            }
                            in_idx.push(bi);
                        },
                        None => {
                            proof {
                                let name = config.layers@[k as int].inputs@[m as int]@;
                                assert(!name_available(*config, k as int, name)) by {
                                    if name_available(*config, k as int, name) {
                                        if exists|q: int|
                                            0 <= q < config.inputs@.len()
                                                && (#[trigger] config.inputs@[q].0)@ == name {
                                            let q = choose|q: int|
                                                0 <= q < config.inputs@.len() && (
                                                #[trigger] config.inputs@[q].0)@ == name;
                                            assert((registry@[q]).0@ == name);
                                            assert(registry_has(registry@, name));
                                        } else {
                                            let j = choose|j: int|
                                                0 <= j < k && (#[trigger] config.layers@[j].name)@
                                                    == name;
                                            assert((registry@[ni + j]).0@ == name);
                                            assert(registry_has(registry@, name));
                                        }
                                    }
                                }
                                assert(!layer_wires(*config, k as int));
                                assert(!config_wires(*config));
                            }
                            return Err(LeafError::UnresolvedInput);
                        },
                    }
                    m += 1;
                }
            } else {
                in_idx = copy_indices(&prev);
            }
            let count = in_idx.len();
            assert(count == layer_input_count(*config, k as int));
            let needed: usize = match &config.layers[k].layer_type {
                LayerType::NegativeLogLikelihood(_) => 2,
                _ => 1,
            };
            if count != needed {
                proof {
                    assert(!arity_ok(
                        config.layers@[k as int].layer_type,
                        layer_input_count(*config, k as int),
                    ));
                    assert(!layer_wires(*config, k as int));
                    assert(!config_wires(*config));
                }
                return Err(LeafError::WrongBlobCount);
            }
            let in_place: bool = match &config.layers[k].layer_type {
                LayerType::Reshape(_) => true,
                _ => false,
            };
            let unit: LayerUnit = match &config.layers[k].layer_type {
                LayerType::ReLU => LayerUnit::ReLU(ReLU),
                LayerType::Sigmoid => LayerUnit::Sigmoid(Sigmoid),
                LayerType::TanH => LayerUnit::TanH(TanH),
                LayerType::Softmax => LayerUnit::Softmax(Softmax),
                LayerType::LogSoftmax => LayerUnit::LogSoftmax(LogSoftmax),
                LayerType::Reshape(rc) => LayerUnit::Reshape(Reshape::from_config(rc)),
                LayerType::NegativeLogLikelihood(nc) => LayerUnit::NegativeLogLikelihood(
                    NegativeLogLikelihood::from_config(nc),
                ),
            };
            let mut out_idx: Vec<usize> = Vec::new();
            if in_place {
                out_idx.push(in_idx[0]);
                registry.push((config.layers[k].name.clone(), in_idx[0]));
            } else {
                let mut one_dims: Vec<usize> = Vec::new();
                one_dims.push(1);
                proof {
                    crate::tensor::lemma_capacity_single(1);
                    assert(one_dims@ =~= seq![1usize]);
                }
                let t = match Tensor::new(&one_dims, T::zero()) {
                    Ok(t) => t,
                    Err(_) => {
                        proof {
                            assert(false);
                        }
                        return Err(LeafError::ZeroDimension);
                    },
                };
                let g = t.duplicate();
                let idx = blobs_data.len();
                blobs_data.push(t);
                blobs_grad.push(g);
                registry.push((config.layers[k].name.clone(), idx));
                out_idx.push(idx);
            }
            assert(layer_wires(*config, k as int));
            layer_names.push(config.layers[k].name.clone());
            layers.push(unit);
            let prev_next = copy_indices(&out_idx);
            layer_inputs.push(in_idx);
            layer_outputs.push(out_idx);
            prev = prev_next;
            k += 1;
        }
        assert(config_wires(*config));
        let s = Sequential {
            layer_names,
            layers,
            registry,
            blobs_data,
            blobs_grad,
            layer_inputs,
            layer_outputs,
            input_blobs,
            weights_data: Vec::new(),
            weights_grad: Vec::new(),
            force_backward: config.force_backward,
        };
        assert(s.wf());
        Ok(s)
    }

    /// Run the shape-inference and output-computation steps of layer `k`.
    fn forward_layer<B: Backend<T>>(&mut self, backend: &B, k: usize) -> (r: Result<
        (),
        LeafError,
    >)
        requires
            old(self).wf(),
            k < old(self).layers_spec().len(),
        ensures
            final(self).wf(),
            final(self).same_structure(old(self)),
            r.is_ok() <==> layer_step_ok(
                old(self).layers_spec()[k as int],
                old(self).layer_inputs_spec()[k as int]@,
                old(self).blobs_data_spec(),
            ),
            r.is_ok() ==> forward_step_relation::<T, B>(
                old(self).layers_spec()[k as int],
                old(self).layer_inputs_spec()[k as int]@,
                old(self).layer_outputs_spec()[k as int]@,
                old(self).blobs_data_spec(),
                old(self).blobs_grad_spec(),
                final(self).blobs_data_spec(),
                final(self).blobs_grad_spec(),
            ),
    {
        proof {
            assert(unit_wiring_ok(
                self.layers_spec()[k as int],
                self.layer_inputs_spec()[k as int]@,
                self.layer_outputs_spec()[k as int]@,
            ));
            assert(indices_ok(self.layer_inputs_spec()[k as int]@, self.blobs_data_spec().len()));
            assert(indices_ok(self.layer_outputs_spec()[k as int]@, self.blobs_data_spec().len()));
        }
        let in_idx = copy_indices(&self.layer_inputs[k]);
        let out_idx = copy_indices(&self.layer_outputs[k]);
        let input_vec = gather_tensors(&self.blobs_data, &in_idx);
        let mut ig_vec = gather_tensors(&self.blobs_grad, &in_idx);
        let mut od_vec = gather_tensors(&self.blobs_data, &out_idx);
        let mut og_vec = gather_tensors(&self.blobs_grad, &out_idx);
        match &mut self.layers[k] {
            LayerUnit::ReLU(l) => {
                l.reshape(&input_vec, &mut ig_vec, &mut od_vec, &mut og_vec);
                l.compute_output(backend, &self.weights_data, &input_vec, &mut od_vec);
            },
            LayerUnit::Sigmoid(l) => {
                l.reshape(&input_vec, &mut ig_vec, &mut od_vec, &mut og_vec);
                l.compute_output(backend, &self.weights_data, &input_vec, &mut od_vec);
            },
            LayerUnit::TanH(l) => {
                l.reshape(&input_vec, &mut ig_vec, &mut od_vec, &mut og_vec);
                l.compute_output(backend, &self.weights_data, &input_vec, &mut od_vec);
            },
            LayerUnit::Softmax(l) => {
                l.reshape(&input_vec, &mut ig_vec, &mut od_vec, &mut og_vec);
                l.compute_output(backend, &self.weights_data, &input_vec, &mut od_vec);
            },
            LayerUnit::LogSoftmax(l) => {
                l.reshape(&input_vec, &mut ig_vec, &mut od_vec, &mut og_vec);
                l.compute_output(backend, &self.weights_data, &input_vec, &mut od_vec);
            },
            LayerUnit::Reshape(l) => {
                match l.reshape(&mut od_vec, &mut og_vec) {
                    Ok(()) => {
                    },
                    Err(e) => {
                        proof {
                            assert(self.layers@ =~= old(self).layers@);
                            assert forall|b2: int|
                                0 <= b2 < self.blobs_data@.len() implies (
                            #[trigger] self.blobs_data@[b2]).wf() by {
                                assert(old(self).blobs_data_spec()[b2].wf());
                            }
                            assert forall|b2: int|
                                0 <= b2 < self.blobs_grad@.len() implies (
                            #[trigger] self.blobs_grad@[b2]).wf() by {
                                assert(old(self).blobs_grad_spec()[b2].wf());
                            }
                            Self::lemma_wf_same_wiring(old(self), self);
                        }
                        return Err(e);
                    },
                }
                l.compute_output(&input_vec, &mut od_vec);
            },
            LayerUnit::NegativeLogLikelihood(l) => {
                let label_rank = input_vec[1].rank();
                if label_rank != 1 && label_rank != 2 {
                    proof {
                        assert(self.layers@ =~= old(self).layers@);
                        assert forall|b2: int|
                            0 <= b2 < self.blobs_data@.len() implies (
                        #[trigger] self.blobs_data@[b2]).wf() by {
                            assert(old(self).blobs_data_spec()[b2].wf());
                        }
                        assert forall|b2: int|
                            0 <= b2 < self.blobs_grad@.len() implies (
                        #[trigger] self.blobs_grad@[b2]).wf() by {
                            assert(old(self).blobs_grad_spec()[b2].wf());
                        }
                        Self::lemma_wf_same_wiring(old(self), self);
                    }
                    return Err(LeafError::UnsupportedRank);
                }
                l.reshape(&input_vec, &mut ig_vec, &mut od_vec);
                let nc = l.num_classes();
                let probs_len = input_vec[0].elements().len();
                match check_label_positions(&input_vec[1], nc, probs_len) {
                    Ok(()) => {
                    },
                    Err(e) => {
                        proof {
                            assert(self.layers@ =~= old(self).layers@);
                            assert forall|b2: int|
                                0 <= b2 < self.blobs_data@.len() implies (
                            #[trigger] self.blobs_data@[b2]).wf() by {
                                assert(old(self).blobs_data_spec()[b2].wf());
                            }
                            assert forall|b2: int|
                                0 <= b2 < self.blobs_grad@.len() implies (
                            #[trigger] self.blobs_grad@[b2]).wf() by {
                                assert(old(self).blobs_grad_spec()[b2].wf());
                            }
                            Self::lemma_wf_same_wiring(old(self), self);
                        }
                        return Err(e);
                    },
                }
                l.compute_output(&self.weights_data, &input_vec, &mut od_vec);
            },
        }
        assert(self.layers@ =~= old(self).layers@);
        let out0 = out_idx[0];
        assert(out0 < self.blobs_data@.len());
        let od_t = match od_vec.pop() {
            Some(t) => t,
            None => {
                proof {
                    assert(false);
                }
                return Err(LeafError::MissingInput);
            },
        };
        self.blobs_data.set(out0, od_t);
        if in_idx.len() == 2 {
            let in1 = in_idx[1];
            assert(in1 < self.blobs_grad@.len());
            let ig1 = match ig_vec.pop() {
                Some(t) => t,
                None => {
                    proof {
                        assert(false);
                    }
                    return Err(LeafError::MissingInput);
                },
            };
            self.blobs_grad.set(in1, ig1);
        }
        let in0 = in_idx[0];
        assert(in0 < self.blobs_grad@.len());
        let ig0 = match ig_vec.pop() {
            Some(t) => t,
            None => {
                proof {
                    assert(false);
                }
                return Err(LeafError::MissingInput);
            },
        };
        self.blobs_grad.set(in0, ig0);
        let og_t = match og_vec.pop() {
            Some(t) => t,
            None => {
                proof {
                    assert(false);
                }
                return Err(LeafError::MissingInput);
            },
        };
        self.blobs_grad.set(out0, og_t);
        proof {
            assert forall|b2: int|
                0 <= b2 < self.blobs_data@.len() implies (#[trigger] self.blobs_data@[b2]).wf() by {
                assert(old(self).blobs_data_spec()[b2].wf());
            }
            assert forall|b2: int|
                0 <= b2 < self.blobs_grad@.len() implies (#[trigger] self.blobs_grad@[b2]).wf() by {
                assert(old(self).blobs_grad_spec()[b2].wf());
            }
            Self::lemma_wf_same_wiring(old(self), self);
        }
        Ok(())
    }

    /// Run the shape-inference and input-gradient steps of layer `k`.
    fn backward_layer<B: Backend<T>>(&mut self, backend: &B, k: usize) -> (r: Result<
        (),
        LeafError,
    >)
        requires
            old(self).wf(),
            k < old(self).layers_spec().len(),
        ensures
            final(self).wf(),
            final(self).same_structure(old(self)),
            r.is_ok() <==> layer_step_ok(
                old(self).layers_spec()[k as int],
                old(self).layer_inputs_spec()[k as int]@,
                old(self).blobs_data_spec(),
            ),
            r.is_ok() ==> backward_step_relation::<T, B>(
                old(self).layers_spec()[k as int],
                old(self).layer_inputs_spec()[k as int]@,
                old(self).layer_outputs_spec()[k as int]@,
                old(self).blobs_data_spec(),
                old(self).blobs_grad_spec(),
                final(self).blobs_data_spec(),
                final(self).blobs_grad_spec(),
            ),
    {
        proof {
            assert(unit_wiring_ok(
                self.layers_spec()[k as int],
                self.layer_inputs_spec()[k as int]@,
                self.layer_outputs_spec()[k as int]@,
            ));
            assert(indices_ok(self.layer_inputs_spec()[k as int]@, self.blobs_data_spec().len()));
            assert(indices_ok(self.layer_outputs_spec()[k as int]@, self.blobs_data_spec().len()));
        }
        let in_idx = copy_indices(&self.layer_inputs[k]);
        let out_idx = copy_indices(&self.layer_outputs[k]);
        let input_vec = gather_tensors(&self.blobs_data, &in_idx);
        let mut ig_vec = gather_tensors(&self.blobs_grad, &in_idx);
        let mut od_vec = gather_tensors(&self.blobs_data, &out_idx);
        let mut og_vec = gather_tensors(&self.blobs_grad, &out_idx);
        match &mut self.layers[k] {
            LayerUnit::ReLU(l) => {
                l.reshape(&input_vec, &mut ig_vec, &mut od_vec, &mut og_vec);
                l.compute_input_gradient(
                    backend,
                    &self.weights_data,
                    &od_vec,
                    &og_vec,
                    &input_vec,
                    &mut ig_vec,
                );
            },
            LayerUnit::Sigmoid(l) => {
                l.reshape(&input_vec, &mut ig_vec, &mut od_vec, &mut og_vec);
                l.compute_input_gradient(
                    backend,
                    &self.weights_data,
                    &od_vec,
                    &og_vec,
                    &input_vec,
                    &mut ig_vec,
                );
            },
            LayerUnit::TanH(l) => {
                l.reshape(&input_vec, &mut ig_vec, &mut od_vec, &mut og_vec);
                l.compute_input_gradient(
                    backend,
                    &self.weights_data,
                    &od_vec,
                    &og_vec,
                    &input_vec,
                    &mut ig_vec,
                );
            },
            LayerUnit::Softmax(l) => {
                l.reshape(&input_vec, &mut ig_vec, &mut od_vec, &mut og_vec);
                l.compute_input_gradient(
                    backend,
                    &self.weights_data,
                    &od_vec,
                    &og_vec,
                    &input_vec,
                    &mut ig_vec,
                );
            },
            LayerUnit::LogSoftmax(l) => {
                l.reshape(&input_vec, &mut ig_vec, &mut od_vec, &mut og_vec);
                l.compute_input_gradient(
                    backend,
                    &self.weights_data,
                    &od_vec,
                    &og_vec,
                    &input_vec,
                    &mut ig_vec,
                );
            },
            LayerUnit::Reshape(l) => {
                match l.reshape(&mut od_vec, &mut og_vec) {
                    Ok(()) => {
                    },
                    Err(e) => {
                        proof {
                            assert(self.layers@ =~= old(self).layers@);
                            assert forall|b2: int|
                                0 <= b2 < self.blobs_data@.len() implies (
                            #[trigger] self.blobs_data@[b2]).wf() by {
                                assert(old(self).blobs_data_spec()[b2].wf());
                            }
                            assert forall|b2: int|
                                0 <= b2 < self.blobs_grad@.len() implies (
                            #[trigger] self.blobs_grad@[b2]).wf() by {
                                assert(old(self).blobs_grad_spec()[b2].wf());
                            }
                            Self::lemma_wf_same_wiring(old(self), self);
                        }
                        return Err(e);
                    },
                }
                l.compute_input_gradient(&og_vec, &mut ig_vec);
            },
            LayerUnit::NegativeLogLikelihood(l) => {
                let label_rank = input_vec[1].rank();
                if label_rank != 1 && label_rank != 2 {
                    proof {
                        assert(self.layers@ =~= old(self).layers@);
                        assert forall|b2: int|
                            0 <= b2 < self.blobs_data@.len() implies (
                        #[trigger] self.blobs_data@[b2]).wf() by {
                            assert(old(self).blobs_data_spec()[b2].wf());
                        }
                        assert forall|b2: int|
                            0 <= b2 < self.blobs_grad@.len() implies (
                        #[trigger] self.blobs_grad@[b2]).wf() by {
                            assert(old(self).blobs_grad_spec()[b2].wf());
                        }
                        Self::lemma_wf_same_wiring(old(self), self);
                    }
                    return Err(LeafError::UnsupportedRank);
                }
                l.reshape(&input_vec, &mut ig_vec, &mut od_vec);
                let nc = l.num_classes();
                let grad_len = ig_vec[0].elements().len();
                match check_label_positions(&input_vec[1], nc, grad_len) {
                    Ok(()) => {
                    },
                    Err(e) => {
                        proof {
                            assert(self.layers@ =~= old(self).layers@);
                            assert forall|b2: int|
                                0 <= b2 < self.blobs_data@.len() implies (
                            #[trigger] self.blobs_data@[b2]).wf() by {
                                assert(old(self).blobs_data_spec()[b2].wf());
                            }
                            assert forall|b2: int|
                                0 <= b2 < self.blobs_grad@.len() implies (
                            #[trigger] self.blobs_grad@[b2]).wf() by {
                                assert(old(self).blobs_grad_spec()[b2].wf());
                            }
                            Self::lemma_wf_same_wiring(old(self), self);
                        }
                        return Err(e);
                    },
                }
                l.compute_input_gradient(&self.weights_data, &input_vec, &mut ig_vec);
            },
        }
        assert(self.layers@ =~= old(self).layers@);
        let out0 = out_idx[0];
        assert(out0 < self.blobs_data@.len());
        let od_t = match od_vec.pop() {
            Some(t) => t,
            None => {
                proof {
                    assert(false);
                }
                return Err(LeafError::MissingInput);
            },
        };
        self.blobs_data.set(out0, od_t);
        if in_idx.len() == 2 {
            let in1 = in_idx[1];
            assert(in1 < self.blobs_grad@.len());
            let ig1 = match ig_vec.pop() {
                Some(t) => t,
                None => {
                    proof {
                        assert(false);
                    }
                    return Err(LeafError::MissingInput);
                },
            };
            self.blobs_grad.set(in1, ig1);
        }
        let in0 = in_idx[0];
        assert(in0 < self.blobs_grad@.len());
        let ig0 = match ig_vec.pop() {
            Some(t) => t,
            None => {
                proof {
                    assert(false);
                }
                return Err(LeafError::MissingInput);
            },
        };
        self.blobs_grad.set(in0, ig0);
        let og_t = match og_vec.pop() {
            Some(t) => t,
            None => {
                proof {
                    assert(false);
                }
                return Err(LeafError::MissingInput);
            },
        };
        self.blobs_grad.set(out0, og_t);
        proof {
            assert forall|b2: int|
                0 <= b2 < self.blobs_data@.len() implies (#[trigger] self.blobs_data@[b2]).wf() by {
                assert(old(self).blobs_data_spec()[b2].wf());
            }
            assert forall|b2: int|
                0 <= b2 < self.blobs_grad@.len() implies (#[trigger] self.blobs_grad@[b2]).wf() by {
                assert(old(self).blobs_grad_spec()[b2].wf());
            }
            Self::lemma_wf_same_wiring(old(self), self);
        }
        Ok(())
    }

    /// Forward pass: re-run shape inference and compute each layer's
    /// output, strictly in declaration order.
    pub fn forward<B: Backend<T>>(&mut self, backend: &B) -> (r: Result<(), LeafError>)
        requires
            old(self).wf(),
        ensures
            final(self).wf(),
            final(self).same_structure(old(self)),
            r.is_ok() ==> forward_pass_relation::<T, B>(
                old(self).layers_spec(),
                old(self).layer_inputs_spec(),
                old(self).layer_outputs_spec(),
                old(self).layers_spec().len() as int,
                old(self).blobs_data_spec(),
                old(self).blobs_grad_spec(),
                final(self).blobs_data_spec(),
                final(self).blobs_grad_spec(),
            ),
            r.is_err() ==> forward_pass_blocked::<T, B>(
                old(self).layers_spec(),
                old(self).layer_inputs_spec(),
                old(self).layer_outputs_spec(),
                old(self).layers_spec().len() as int,
                old(self).blobs_data_spec(),
                old(self).blobs_grad_spec(),
            ),
    {
        let nl = self.layers.len();
        let mut k: usize = 0;
        while k < nl
            invariant
                k <= nl,
                nl == self.layers_spec().len(),
                self.wf(),
                self.same_structure(old(self)),
                forward_pass_relation::<T, B>(
                    old(self).layers_spec(),
                    old(self).layer_inputs_spec(),
                    old(self).layer_outputs_spec(),
                    k as int,
                    old(self).blobs_data_spec(),
                    old(self).blobs_grad_spec(),
                    self.blobs_data_spec(),
                    self.blobs_grad_spec(),
                ),
            decreases nl - k,
        {
            let ghost dm = self.blobs_data_spec();
            let ghost gm = self.blobs_grad_spec();
            match self.forward_layer(backend, k) {
                Ok(()) => {
                },
                Err(e) => {
                    proof {
                        assert(forward_pass_relation::<T, B>(
                            old(self).layers_spec(),
                            old(self).layer_inputs_spec(),
                            old(self).layer_outputs_spec(),
                            k as int,
                            old(self).blobs_data_spec(),
                            old(self).blobs_grad_spec(),
                            dm,
                            gm,
                        ) && !layer_step_ok(
                            old(self).layers_spec()[k as int],
                            old(self).layer_inputs_spec()[k as int]@,
                            dm,
                        ));
                    }
                    return Err(e);
                },
            }
            proof {
                let kk = k as int + 1;
                assert(forward_pass_relation::<T, B>(
                    old(self).layers_spec(),
                    old(self).layer_inputs_spec(),
                    old(self).layer_outputs_spec(),
                    kk - 1,
                    old(self).blobs_data_spec(),
                    old(self).blobs_grad_spec(),
                    dm,
                    gm,
                ));
                assert(forward_step_relation::<T, B>(
                    old(self).layers_spec()[kk - 1],
                    old(self).layer_inputs_spec()[kk - 1]@,
                    old(self).layer_outputs_spec()[kk - 1]@,
                    dm,
                    gm,
                    self.blobs_data_spec(),
                    self.blobs_grad_spec(),
                ));
                assert(forward_pass_relation::<T, B>(
                    old(self).layers_spec(),
                    old(self).layer_inputs_spec(),
                    old(self).layer_outputs_spec(),
                    kk,
                    old(self).blobs_data_spec(),
                    old(self).blobs_grad_spec(),
                    self.blobs_data_spec(),
                    self.blobs_grad_spec(),
                ));
            }
            k += 1;
        }
        Ok(())
    }

    /// Backward pass: re-run each layer's shape inference and propagate
    /// input gradients, in the reverse of declaration order.
    pub fn backward<B: Backend<T>>(&mut self, backend: &B) -> (r: Result<(), LeafError>)
        requires
            old(self).wf(),
        ensures
            final(self).wf(),
            final(self).same_structure(old(self)),
            r.is_ok() ==> backward_pass_relation::<T, B>(
                old(self).layers_spec(),
                old(self).layer_inputs_spec(),
                old(self).layer_outputs_spec(),
                old(self).layers_spec().len() as int,
                old(self).blobs_data_spec(),
                old(self).blobs_grad_spec(),
                final(self).blobs_data_spec(),
                final(self).blobs_grad_spec(),
            ),
            r.is_err() ==> backward_pass_blocked::<T, B>(
                old(self).layers_spec(),
                old(self).layer_inputs_spec(),
                old(self).layer_outputs_spec(),
                old(self).layers_spec().len() as int,
                old(self).blobs_data_spec(),
                old(self).blobs_grad_spec(),
            ),
    {
        let nl = self.layers.len();
        let mut k: usize = nl;
        while k > 0
            invariant
                k <= nl,
                nl == self.layers_spec().len(),
                self.wf(),
                self.same_structure(old(self)),
                backward_pass_relation::<T, B>(
                    old(self).layers_spec(),
                    old(self).layer_inputs_spec(),
                    old(self).layer_outputs_spec(),
                    nl - k,
                    old(self).blobs_data_spec(),
                    old(self).blobs_grad_spec(),
                    self.blobs_data_spec(),
                    self.blobs_grad_spec(),
                ),
            decreases k,
        {
            k -= 1;
            let ghost dm = self.blobs_data_spec();
            let ghost gm = self.blobs_grad_spec();
            match self.backward_layer(backend, k) {
                Ok(()) => {
                },
                Err(e) => {
                    proof {
                        let p = nl - 1 - k as int;
                        assert(old(self).layers_spec().len() as int - 1 - p == k as int);
                        assert(backward_pass_relation::<T, B>(
                            old(self).layers_spec(),
                            old(self).layer_inputs_spec(),
                            old(self).layer_outputs_spec(),
                            p,
                            old(self).blobs_data_spec(),
                            old(self).blobs_grad_spec(),
                            dm,
                            gm,
                        ) && !layer_step_ok(
                            old(self).layers_spec()[old(self).layers_spec().len() as int - 1 - p],
                            old(self).layer_inputs_spec()[old(self).layers_spec().len() as int - 1
                                - p]@,
                            dm,
                        ));
                    }
                    return Err(e);
                },
            }
            proof {
                let kk = nl - k as int;
                assert(old(self).layers_spec().len() - kk == k as int);
                assert(backward_pass_relation::<T, B>(
                    old(self).layers_spec(),
                    old(self).layer_inputs_spec(),
                    old(self).layer_outputs_spec(),
                    kk - 1,
                    old(self).blobs_data_spec(),
                    old(self).blobs_grad_spec(),
                    dm,
                    gm,
                ));
                assert(backward_step_relation::<T, B>(
                    old(self).layers_spec()[old(self).layers_spec().len() - kk],
                    old(self).layer_inputs_spec()[old(self).layers_spec().len() - kk]@,
                    old(self).layer_outputs_spec()[old(self).layers_spec().len() - kk]@,
                    dm,
                    gm,
                    self.blobs_data_spec(),
                    self.blobs_grad_spec(),
                ));
                assert(backward_pass_relation::<T, B>(
                    old(self).layers_spec(),
                    old(self).layer_inputs_spec(),
                    old(self).layer_outputs_spec(),
                    kk,
                    old(self).blobs_data_spec(),
                    old(self).blobs_grad_spec(),
                    self.blobs_data_spec(),
                    self.blobs_grad_spec(),
                ));
            }
        }
        Ok(())
    }

    /// The number of layers.
    pub fn layer_count(&self) -> (r: usize)
        ensures
            r == self.layers_spec().len(),
    {
        self.layers.len()
    }

    /// The number of blobs in the arena.
    pub fn blob_count(&self) -> (r: usize)
        ensures
            r == self.blobs_data_spec().len(),
    {
        self.blobs_data.len()
    }

    /// The number of declared top-level inputs.
    pub fn input_count(&self) -> (r: usize)
        ensures
            r == self.input_blobs_spec().len(),
    {
        self.input_blobs.len()
    }

    /// The data tensor of blob `i`.
    pub fn blob_data(&self, i: usize) -> (r: &Tensor<T>)
        requires
            i < self.blobs_data_spec().len(),
        ensures
            *r == self.blobs_data_spec()[i as int],
    {
        &self.blobs_data[i]
    }

    /// The gradient tensor of blob `i`.
    pub fn blob_grad(&self, i: usize) -> (r: &Tensor<T>)
        requires
            i < self.blobs_grad_spec().len(),
        ensures
            *r == self.blobs_grad_spec()[i as int],
    {
        &self.blobs_grad[i]
    }

    /// The arena index of the `which`th declared top-level input.
    pub fn input_index(&self, which: usize) -> (r: usize)
        requires
            which < self.input_blobs_spec().len(),
        ensures
            r == self.input_blobs_spec()[which as int],
    {
        self.input_blobs[which]
    }

    /// The arena index of the network's output: the last layer's output
    /// blob, if there is a layer.
    pub fn output_index(&self) -> (r: Option<usize>)
        requires
            self.wf(),
        ensures
            match r {
                Some(i) => self.layers_spec().len() >= 1 && i == self.layer_outputs_spec().last()@[0]
                    && i < self.blobs_data_spec().len(),
                None => self.layers_spec().len() == 0,
            },
    {
        if self.layers.len() == 0 {
            None
        } else {
            let last = self.layer_outputs.len() - 1;
            proof {
                assert(unit_wiring_ok(
                    self.layers_spec()[last as int],
                    self.layer_inputs_spec()[last as int]@,
                    self.layer_outputs_spec()[last as int]@,
                ));
                assert(indices_ok(self.layer_outputs_spec()[last as int]@, self.blobs_data_spec().len()));
            }
            let outs = &self.layer_outputs[last];
            Some(outs[0])
        }
    }

    /// The gradient tensors of the learnable weights, in declaration
    /// order.
    pub fn learnable_weights_gradients(&self) -> (r: &Vec<Tensor<T>>)
        ensures
            r@ == self.weights_grad_spec(),
    {
        &self.weights_grad
    }

    /// Mutable access to the learnable weights' gradient tensors, for
    /// the solver's update step. Every other part of the container is
    /// untouched; the caller is responsible for leaving only well-formed
    /// tensors behind.
    pub fn weights_grad_mut(&mut self) -> (r: &mut Vec<Tensor<T>>)
        ensures
            r@ == old(self).weights_grad_spec(),
            final(self).layer_names_spec() == old(self).layer_names_spec(),
            final(self).layers_spec() == old(self).layers_spec(),
            final(self).registry_spec() == old(self).registry_spec(),
            final(self).blobs_data_spec() == old(self).blobs_data_spec(),
            final(self).blobs_grad_spec() == old(self).blobs_grad_spec(),
            final(self).layer_inputs_spec() == old(self).layer_inputs_spec(),
            final(self).layer_outputs_spec() == old(self).layer_outputs_spec(),
            final(self).input_blobs_spec() == old(self).input_blobs_spec(),
            final(self).weights_data_spec() == old(self).weights_data_spec(),
            final(self).weights_grad_spec() == final(r)@,
    {
        &mut self.weights_grad
    }

    /// Look up the newest blob registered under `name`.
    pub fn resolve(&self, name: &String) -> (r: Option<usize>)
        ensures
            r.is_some() <==> registry_has(self.registry_spec(), name@),
            match r {
                Some(i) => registry_maps(self.registry_spec(), name@, i),
                None => true,
            },
    {
        resolve_index(&self.registry, name)
    }

    /// Overwrite the data tensor of the `which`th declared input with the
    /// given elements. Succeeds exactly when the input exists and the
    /// slice matches its capacity.
    pub fn write_input(&mut self, which: usize, values: &[T]) -> (r: Result<(), LeafError>)
        requires
            old(self).wf(),
        ensures
            final(self).wf(),
            final(self).same_structure(old(self)),
            final(self).blobs_grad_spec() == old(self).blobs_grad_spec(),
            r.is_ok() <==> (which < old(self).input_blobs_spec().len() && values@.len() == old(
                self,
            ).blobs_data_spec()[old(self).input_blobs_spec()[which as int] as int]@.len()),
            r.is_ok() ==> {
                let idx = old(self).input_blobs_spec()[which as int] as int;
                &&& final(self).blobs_data_spec() == old(self).blobs_data_spec().update(
                    idx,
                    final(self).blobs_data_spec()[idx],
                )
                &&& final(self).blobs_data_spec()[idx]@ == values@
                &&& final(self).blobs_data_spec()[idx].shape_spec() == old(
                    self,
                ).blobs_data_spec()[idx].shape_spec()
            },
            r.is_err() ==> final(self).blobs_data_spec() == old(self).blobs_data_spec(),
    {
        if which >= self.input_blobs.len() {
            return Err(LeafError::MissingInput);
        }
        let idx = self.input_blobs[which];
        proof {
            assert(self.input_blobs_spec()[which as int] < self.blobs_data_spec().len());
        }
        let t: &mut Tensor<T> = &mut self.blobs_data[idx];
        let res = t.write_slice(values);
        proof {
            if res.is_err() {
                assert(self.blobs_data@ =~= old(self).blobs_data@);
            }
            assert forall|i: int| 0 <= i < self.blobs_data@.len() implies (#[trigger] self.blobs_data@[i]).wf() by {
                if i == idx as int {
                    assert(old(self).blobs_data_spec()[i].wf());
                } else {
                    assert(self.blobs_data@[i] == old(self).blobs_data@[i]);
                    assert(old(self).blobs_data_spec()[i].wf());
                }
            }
            assert forall|i: int| 0 <= i < self.blobs_grad@.len() implies (#[trigger] self.blobs_grad@[i]).wf() by {
                assert(old(self).blobs_grad_spec()[i].wf());
            }
            Self::lemma_wf_same_wiring(old(self), self);
        }
        match res {
            Ok(()) => Ok(()),
            Err(e) => Err(e),
        }
    }

    /// Overwrite the gradient tensor of blob `index` with the given
    /// elements. Succeeds exactly when the blob exists and the slice
    /// matches its capacity.
    pub fn write_blob_grad(&mut self, index: usize, values: &[T]) -> (r: Result<(), LeafError>)
        requires
            old(self).wf(),
        ensures
            final(self).wf(),
            final(self).same_structure(old(self)),
            final(self).blobs_data_spec() == old(self).blobs_data_spec(),
            r.is_ok() <==> (index < old(self).blobs_grad_spec().len() && values@.len() == old(
                self,
            ).blobs_grad_spec()[index as int]@.len()),
            r.is_ok() ==> {
                &&& final(self).blobs_grad_spec() == old(self).blobs_grad_spec().update(
                    index as int,
                    final(self).blobs_grad_spec()[index as int],
                )
                &&& final(self).blobs_grad_spec()[index as int]@ == values@
                &&& final(self).blobs_grad_spec()[index as int].shape_spec() == old(
                    self,
                ).blobs_grad_spec()[index as int].shape_spec()
            },
            r.is_err() ==> final(self).blobs_grad_spec() == old(self).blobs_grad_spec(),
    {
        if index >= self.blobs_grad.len() {
            return Err(LeafError::MissingInput);
        }
        let t: &mut Tensor<T> = &mut self.blobs_grad[index];
        let res = t.write_slice(values);
        proof {
            if res.is_err() {
                assert(self.blobs_grad@ =~= old(self).blobs_grad@);
            }
            assert forall|i: int| 0 <= i < self.blobs_grad@.len() implies (#[trigger] self.blobs_grad@[i]).wf() by {
                if i == index as int {
                    assert(old(self).blobs_grad_spec()[i].wf());
                } else {
                    assert(self.blobs_grad@[i] == old(self).blobs_grad@[i]);
                    assert(old(self).blobs_grad_spec()[i].wf());
                }
            }
            assert forall|i: int| 0 <= i < self.blobs_data@.len() implies (#[trigger] self.blobs_data@[i]).wf() by {
                assert(old(self).blobs_data_spec()[i].wf());
            }
            Self::lemma_wf_same_wiring(old(self), self);
        }
        match res {
            Ok(()) => Ok(()),
            Err(e) => Err(e),
        }
    }
}

/// Duplicate the tensors at the given arena indices, in order.
fn gather_tensors<T: Scalar>(src: &Vec<Tensor<T>>, idxs: &Vec<usize>) -> (r: Vec<Tensor<T>>)
    requires
        indices_ok(idxs@, src@.len()),
        forall|b: int| 0 <= b < src@.len() ==> (#[trigger] src@[b]).wf(),
    ensures
        r@.len() == idxs@.len(),
        forall|q: int|
            0 <= q < idxs@.len() ==> (#[trigger] r@[q])@ == src@[idxs@[q] as int]@ && r@[
                q
            ].shape_spec() == src@[idxs@[q] as int].shape_spec() && r@[q].wf(),
{
    let n = idxs.len();
    let mut r: Vec<Tensor<T>> = Vec::new();
    let mut q: usize = 0;
    while q < n
        invariant
            q <= n,
            n == idxs@.len(),
            indices_ok(idxs@, src@.len()),
            forall|b: int| 0 <= b < src@.len() ==> (#[trigger] src@[b]).wf(),
            r@.len() == q,
            forall|p: int|
                0 <= p < q ==> (#[trigger] r@[p])@ == src@[idxs@[p] as int]@ && r@[
                    p
                ].shape_spec() == src@[idxs@[p] as int].shape_spec() && r@[p].wf(),
        decreases n - q,
    {
        let bi = idxs[q];
        assert(idxs@[q as int] < src@.len());
        r.push(src[bi].duplicate());
        q += 1;
    }
    r
}

/// Check that every sample's true-label position lies below `limit`.
fn check_label_positions<T: Scalar>(labels: &Tensor<T>, num_classes: usize, limit: usize) -> (r:
    Result<(), LeafError>)
    requires
        labels.wf(),
    ensures
        r.is_ok() <==> (forall|b: int|
            0 <= b < labels@.len() ==> 0 <= #[trigger] label_position(labels@, num_classes, b)
                < limit),
        match r {
            Ok(()) => true,
            Err(e) => e == LeafError::LabelOutOfRange,
        },
{
    let n = labels.capacity();
    let mut b: usize = 0;
    while b < n
        invariant
            b <= n,
            n == labels@.len(),
            labels.wf(),
            forall|q: int|
                0 <= q < b ==> 0 <= #[trigger] label_position(labels@, num_classes, q) < limit,
        decreases n - b,
    {
        let idx = T::as_index(labels.get(b));
        let base = match num_classes.checked_mul(b) {
            Some(p) => p,
            None => {
                proof {
                    assert(label_position(labels@, num_classes, b as int) >= limit);
                }
                return Err(LeafError::LabelOutOfRange);
            },
        };
        let pos = match base.checked_add(idx) {
            Some(p) => p,
            None => {
                proof {
                    assert(label_position(labels@, num_classes, b as int) >= limit);
                }
                return Err(LeafError::LabelOutOfRange);
            },
        };
        if pos >= limit {
            proof {
                assert(label_position(labels@, num_classes, b as int) >= limit);
            }
            return Err(LeafError::LabelOutOfRange);
        }
        b += 1;
    }
    Ok(())
}

/// Copy a vector of arena indices element by element.
fn copy_indices(v: &Vec<usize>) -> (r: Vec<usize>)
    ensures
        r@ == v@,
{
    let n = v.len();
    let mut r: Vec<usize> = Vec::new();
    let mut i: usize = 0;
    while i < n
        invariant
            i <= n,
            n == v@.len(),
            r@ =~= v@.take(i as int),
        decreases n - i,
    {
        r.push(v[i]);
        i += 1;
    }
    assert(r@ =~= v@);
    r
}

/// Look up a name in a registry, newest binding first.
fn resolve_index(registry: &Vec<(String, usize)>, name: &String) -> (r: Option<usize>)
    ensures
        r.is_some() <==> registry_has(registry@, name@),
        match r {
            Some(i) => registry_maps(registry@, name@, i),
            None => true,
        },
{
    let n = registry.len();
    let mut q: usize = n;
    while q > 0
        invariant
            q <= n,
            n == registry@.len(),
            forall|p: int| q <= p < n ==> (#[trigger] registry@[p]).0@ != name@,
        decreases q,
    {
        q -= 1;
        if registry[q].0 == *name {
            return Some(registry[q].1);
        }
    }
    None
}

} // verus!
