//! Stochastic gradient descent with momentum.
//!
//! The solver drives the train/update loop: it runs the network forward,
//! runs the objective forward, runs both backward, and then updates each
//! learnable weight gradient using a velocity history:
//! `history := learning_rate * blob_lr * gradient + momentum * history`,
//! followed by `gradient := history`; the caller then subtracts the
//! resulting gradient from the weight.

use vstd::prelude::*;

use crate::backend::{axpby_of, Backend};
use crate::container::{
    backward_pass_blocked, backward_pass_relation, config_wires, forward_pass_blocked,
    forward_pass_relation, written_at, Sequential, SequentialConfig,
};
use crate::error::LeafError;
use crate::scalar::Scalar;
use crate::tensor::Tensor;

verus! {

/// The learning-rate schedule: a pure function of the iteration index.
#[derive(Debug, Clone, Copy)]
pub enum LRPolicy<T> {
    /// The base rate at every iteration.
    Fixed,
    /// Multiply the base rate by `gamma` once every `step_size`
    /// iterations.
    Step {
        /// The decay factor applied at each step.
        gamma: T,
        /// How many iterations one step lasts.
        step_size: usize,
    },
}

/// The base rate multiplied by `gamma`, `n` times over.
pub open spec fn decayed_rate<T: Scalar>(base: T, gamma: T, n: nat) -> T
    decreases n,
{
    if n == 0 {
        base
    } else {
        T::mul_spec(decayed_rate(base, gamma, (n - 1) as nat), gamma)
    }
}

/// Training configuration for one solver run.
#[derive(Debug, Clone)]
pub struct SolverConfig<T> {
    /// The number of samples processed together in one iteration.
    pub minibatch_size: usize,
    /// The base learning rate.
    pub base_lr: T,
    /// The momentum coefficient: the fraction of the previous update
    /// direction retained.
    pub momentum: T,
    /// The network the solver trains.
    pub network: SequentialConfig,
    /// The objective (loss) network appended behind it.
    pub objective: SequentialConfig,
    /// The learning-rate schedule.
    pub lr_policy: LRPolicy<T>,
}

/// What the schedule yields at iteration `iter`.
pub open spec fn learning_rate_spec<T: Scalar>(config: SolverConfig<T>, iter: usize) -> T {
    match config.lr_policy {
        LRPolicy::Fixed => config.base_lr,
        LRPolicy::Step { gamma, step_size } => if step_size == 0 {
            config.base_lr
        } else {
            decayed_rate(config.base_lr, gamma, (iter as int / step_size as int) as nat)
        },
    }
}

impl<T: Scalar> SolverConfig<T> {
    /// The scalar learning rate for iteration `iter`, a pure function of
    /// the iteration index.
    pub fn get_learning_rate(&self, iter: usize) -> (r: T)
        ensures
            r == learning_rate_spec(*self, iter),
    {
        match &self.lr_policy {
            LRPolicy::Fixed => self.base_lr,
            LRPolicy::Step { gamma, step_size } => {
                if *step_size == 0 {
                    self.base_lr
                } else {
                    let steps = iter / *step_size;
                    let mut rate = self.base_lr;
                    let mut s: usize = 0;
                    while s < steps
                        invariant
                            s <= steps,
                            self.lr_policy == (LRPolicy::Step {
                                gamma: *gamma,
                                step_size: *step_size,
                            }),
                            rate == decayed_rate(self.base_lr, *gamma, s as nat),
                        decreases steps - s,
                    {
                        rate = T::times(rate, *gamma);
                        s += 1;
                    }
                    rate
                }
            },
        }
    }
}

/// Divide every gradient element by the effective batch size, turning the
/// summed minibatch gradient into a mean.
pub fn normalize_gradient<T: Scalar>(weight_gradient: &mut Tensor<T>, batch_size: usize)
    requires
        old(weight_gradient).wf(),
        batch_size >= 1,
    ensures
        final(weight_gradient).wf(),
        final(weight_gradient).shape_spec() == old(weight_gradient).shape_spec(),
        final(weight_gradient)@.len() == old(weight_gradient)@.len(),
        forall|i: int|
            0 <= i < old(weight_gradient)@.len() ==> final(weight_gradient)@[i] == T::divn_spec(
                old(weight_gradient)@[i],
                batch_size,
            ),
{
    let n = weight_gradient.elements().len();
    let mut i: usize = 0;
    while i < n
        invariant
            i <= n,
            n == weight_gradient@.len(),
            batch_size >= 1,
            weight_gradient.wf(),
            weight_gradient.shape_spec() == old(weight_gradient).shape_spec(),
            forall|j: int|
                0 <= j < i ==> weight_gradient@[j] == T::divn_spec(
                    old(weight_gradient)@[j],
                    batch_size,
                ),
            forall|j: int| i <= j < n ==> weight_gradient@[j] == old(weight_gradient)@[j],
        decreases n - i,
    {
        let v = weight_gradient.get(i);
        weight_gradient.set(i, T::divn(v, batch_size));
        i += 1;
    }
}

/// Stochastic gradient descent with momentum: one velocity history tensor
/// per learnable weight gradient.
pub struct Momentum<T> {
    history: Vec<Tensor<T>>,
}

impl<T: Scalar> Momentum<T> {
    /// The velocity history tensors, one per learnable weight.
    pub closed spec fn history_spec(&self) -> Seq<Tensor<T>> {
        self.history@
    }

    /// A solver worker with no history yet; [`Momentum::init`] allocates
    /// it once the network's weights are known.
    pub fn new() -> (r: Momentum<T>)
        ensures
            r.history_spec() == Seq::<Tensor<T>>::empty(),
    {
        Momentum { history: Vec::new() }
    }

    /// The velocity history tensors.
    pub fn history(&self) -> (r: &Vec<Tensor<T>>)
        ensures
            r@ == self.history_spec(),
    {
        &self.history
    }

    /// Allocate one history tensor per learnable weight gradient, shaped
    /// identically to that gradient and filled with zero.
    pub fn init(&mut self, weight_gradients: &Vec<Tensor<T>>)
        requires
            forall|i: int|
                0 <= i < weight_gradients@.len() ==> (#[trigger] weight_gradients@[i]).wf(),
        ensures
            final(self).history_spec().len() == weight_gradients@.len(),
            forall|i: int|
                0 <= i < weight_gradients@.len() ==> {
                    &&& (#[trigger] final(self).history_spec()[i]).wf()
                    &&& final(self).history_spec()[i].shape_spec()
                        == weight_gradients@[i].shape_spec()
                    &&& final(self).history_spec()[i]@ == Seq::new(
                        weight_gradients@[i]@.len(),
                        |j: int| T::zero_spec(),
                    )
                },
    {
        let n = weight_gradients.len();
        let mut history: Vec<Tensor<T>> = Vec::new();
        let mut i: usize = 0;
        while i < n
            invariant
                i <= n,
                n == weight_gradients@.len(),
                forall|p: int|
                    0 <= p < weight_gradients@.len() ==> (#[trigger] weight_gradients@[p]).wf(),
                history@.len() == i,
                forall|p: int|
                    0 <= p < i ==> {
                        &&& (#[trigger] history@[p]).wf()
                        &&& history@[p].shape_spec() == weight_gradients@[p].shape_spec()
                        &&& history@[p]@ == Seq::new(
                            weight_gradients@[p]@.len(),
                            |j: int| T::zero_spec(),
                        )
                    },
            decreases n - i,
        {
            let mut t = weight_gradients[i].duplicate();
            crate::weight::FillerType::fill_constant(&mut t, T::zero());
            history.push(t);
            i += 1;
        }
        self.history = history;
    }

    /// One momentum update for weight `history_blob_id`:
    /// `history := global_lr * blob_lr * gradient + momentum * history`
    /// through the backend's scaled-accumulate, then
    /// `gradient := history`, so the caller can subtract the gradient
    /// from the weight as the final step.
    pub fn compute_update_value<B: Backend<T>>(
        &mut self,
        backend: &B,
        config: &SolverConfig<T>,
        weight_gradient: &mut Tensor<T>,
        history_blob_id: usize,
        global_lr: T,
        blob_lr: T,
    )
        requires
            old(self).history_spec().len() > history_blob_id,
            (#[trigger] old(self).history_spec()[history_blob_id as int]).wf(),
            old(weight_gradient).wf(),
            old(self).history_spec()[history_blob_id as int].shape_spec() == old(
                weight_gradient,
            ).shape_spec(),
        ensures
            final(self).history_spec() == old(self).history_spec().update(
                history_blob_id as int,
                final(self).history_spec()[history_blob_id as int],
            ),
            ({
                let h_new = final(self).history_spec()[history_blob_id as int];
                let h_old = old(self).history_spec()[history_blob_id as int];
                &&& h_new.wf()
                &&& h_new.shape_spec() == h_old.shape_spec()
                &&& h_new@.len() == h_old@.len()
                &&& forall|i: int|
                    0 <= i < h_old@.len() ==> h_new@[i] == axpby_of::<T>(
                        T::mul_spec(global_lr, blob_lr),
                        old(weight_gradient)@[i],
                        config.momentum,
                        h_old@[i],
                    )
                &&& final(weight_gradient).wf()
                &&& final(weight_gradient).shape_spec() == old(weight_gradient).shape_spec()
                &&& final(weight_gradient)@ == h_new@
            }),
    {
        let lr = T::times(global_lr, blob_lr);
        let h: &mut Tensor<T> = &mut self.history[history_blob_id];
        match backend.axpby(lr, weight_gradient, config.momentum, h) {
            Ok(()) => {
            },
            Err(_) => {
                assert(false);
            },
        }
        let h_done = &self.history[history_blob_id];
        match backend.copy(h_done, weight_gradient) {
            Ok(()) => {
            },
            Err(_) => {
                assert(false);
            },
        }
    }

    /// One full update round: normalize each weight gradient by the
    /// minibatch size, compute the scalar learning rate for this
    /// iteration, and apply the momentum update to each weight in
    /// declaration order.
    pub fn compute_update<B: Backend<T>>(
        &mut self,
        backend: &B,
        config: &SolverConfig<T>,
        weight_gradients: &mut Vec<Tensor<T>>,
        weight_lrs: &Vec<T>,
        iter: usize,
    )
        requires
            config.minibatch_size >= 1,
            old(self).history_spec().len() == old(weight_gradients)@.len(),
            weight_lrs@.len() == old(weight_gradients)@.len(),
            forall|i: int|
                0 <= i < old(weight_gradients)@.len() ==> (#[trigger] old(weight_gradients)@[i]).wf(),
            forall|i: int|
                0 <= i < old(self).history_spec().len() ==> (#[trigger] old(self).history_spec()[i]).wf(),
            forall|i: int|
                0 <= i < old(self).history_spec().len() ==> (#[trigger] old(self).history_spec()[i]).shape_spec() == old(weight_gradients)@[i].shape_spec(),
        ensures
            final(self).history_spec().len() == old(self).history_spec().len(),
            final(weight_gradients)@.len() == old(weight_gradients)@.len(),
            forall|i: int|
                0 <= i < final(weight_gradients)@.len() ==> (#[trigger] final(weight_gradients)@[i]).wf(),
            forall|i: int|
                0 <= i < final(self).history_spec().len() ==> (#[trigger] final(self).history_spec()[i]).wf(),
            forall|i: int|
                0 <= i < final(self).history_spec().len() ==> (#[trigger] final(self).history_spec()[i]).shape_spec() == final(weight_gradients)@[i].shape_spec(),
            forall|id: int|
                0 <= id < final(self).history_spec().len() ==> {
                    let g_old = old(weight_gradients)@[id];
                    let h_old = old(self).history_spec()[id];
                    let h_new = #[trigger] final(self).history_spec()[id];
                    &&& h_new@.len() == h_old@.len()
                    &&& (h_old@.len() == g_old@.len() ==> forall|i: int|
                        0 <= i < h_old@.len() ==> #[trigger] h_new@[i] == axpby_of::<T>(
                            T::mul_spec(learning_rate_spec(*config, iter), weight_lrs@[id]),
                            T::divn_spec(g_old@[i], config.minibatch_size),
                            config.momentum,
                            h_old@[i],
                        ))
                    &&& final(weight_gradients)@[id]@ == h_new@
                },
    {
        let rate = self.compute_rate_helper(config, iter);
        let n = weight_gradients.len();
        let mut id: usize = 0;
        while id < n
            invariant
                id <= n,
                n == weight_gradients@.len(),
                n == old(weight_gradients)@.len(),
                config.minibatch_size >= 1,
                rate == learning_rate_spec(*config, iter),
                weight_lrs@.len() == n,
                self.history_spec().len() == n,
                forall|i: int|
                    id <= i < n ==> (#[trigger] weight_gradients@[i]) == old(weight_gradients)@[i],
                forall|i: int|
                    id <= i < n ==> (#[trigger] self.history_spec()[i]) == old(self).history_spec()[i],
                forall|i: int|
                    0 <= i < n ==> (#[trigger] weight_gradients@[i]).wf(),
                forall|i: int| 0 <= i < n ==> (#[trigger] self.history_spec()[i]).wf(),
                forall|i: int|
                    0 <= i < n ==> (#[trigger] self.history_spec()[i]).shape_spec()
                        == weight_gradients@[i].shape_spec(),
                forall|p: int|
                    0 <= p < id ==> {
                        let g_old = old(weight_gradients)@[p];
                        let h_old = old(self).history_spec()[p];
                        let h_new = #[trigger] self.history_spec()[p];
                        &&& h_new@.len() == h_old@.len()
                        &&& (h_old@.len() == g_old@.len() ==> forall|i: int|
                            0 <= i < h_old@.len() ==> #[trigger] h_new@[i] == axpby_of::<T>(
                                T::mul_spec(rate, weight_lrs@[p]),
                                T::divn_spec(g_old@[i], config.minibatch_size),
                                config.momentum,
                                h_old@[i],
                            ))
                        &&& weight_gradients@[p]@ == h_new@
                    },
            decreases n - id,
        {
            let g: &mut Tensor<T> = &mut weight_gradients[id];
            normalize_gradient(g, config.minibatch_size);
            let blob_lr = weight_lrs[id];
            self.compute_update_value(backend, config, g, id, rate, blob_lr);
            id += 1;
        }
    }

    /// The schedule's rate for this iteration.
    fn compute_rate_helper(&self, config: &SolverConfig<T>, iter: usize) -> (r: T)
        ensures
            r == learning_rate_spec(*config, iter),
    {
        config.get_learning_rate(iter)
    }
}

/// Starting from a zeroed velocity history, one momentum update leaves
/// exactly the scaled gradient in the history: the momentum term
/// contributes nothing when the history is at rest.
pub proof fn lemma_momentum_from_rest<T: Scalar>(alpha: T, g: T, momentum: T)
    ensures
        axpby_of::<T>(alpha, g, momentum, T::zero_spec()) == T::mul_spec(alpha, g),
{
    T::lemma_mul_zero(momentum);
    T::lemma_add_zero(T::mul_spec(alpha, g));
}

/// One completed training step, witnessed stage by stage: the input was
/// bound into the network, the network ran forward to `(d1, g1)` and
/// `t` is its output blob's buffer, the objective was fed that output
/// and the label, ran forward and then backward into the final objective
/// state, the objective's input gradient was handed back into the
/// network's output-gradient blob, and the network ran backward into its
/// final state.
pub open spec fn train_chain_result<T: Scalar, B: Backend<T>>(
    net0: Sequential<T>,
    obj0: Sequential<T>,
    input: Tensor<T>,
    label: Tensor<T>,
    t: Tensor<T>,
    net1: Sequential<T>,
    obj1: Sequential<T>,
) -> bool {
    exists|
        bound: Seq<Tensor<T>>,
        d1: Seq<Tensor<T>>,
        g1: Seq<Tensor<T>>,
        b0: Seq<Tensor<T>>,
        b1: Seq<Tensor<T>>,
        od1: Seq<Tensor<T>>,
        og1: Seq<Tensor<T>>,
        g1b: Seq<Tensor<T>>,
    |
        #![trigger written_at(net0.blobs_data_spec(), net0.input_blobs_spec()[0] as int, input@, bound), forward_pass_relation::<T, B>(net0.layers_spec(), net0.layer_inputs_spec(), net0.layer_outputs_spec(), net0.layers_spec().len() as int, bound, net0.blobs_grad_spec(), d1, g1), written_at(b0, obj0.input_blobs_spec()[1] as int, label@, b1), forward_pass_relation::<T, B>(obj0.layers_spec(), obj0.layer_inputs_spec(), obj0.layer_outputs_spec(), obj0.layers_spec().len() as int, b1, obj0.blobs_grad_spec(), od1, og1), written_at(g1, net0.layer_outputs_spec().last()@[0] as int, obj1.blobs_grad_spec()[obj0.input_blobs_spec()[0] as int]@, g1b)]
        {
            &&& written_at(
                net0.blobs_data_spec(),
                net0.input_blobs_spec()[0] as int,
                input@,
                bound,
            )
            &&& forward_pass_relation::<T, B>(
                net0.layers_spec(),
                net0.layer_inputs_spec(),
                net0.layer_outputs_spec(),
                net0.layers_spec().len() as int,
                bound,
                net0.blobs_grad_spec(),
                d1,
                g1,
            )
            &&& t@ == d1[net0.layer_outputs_spec().last()@[0] as int]@
            &&& written_at(
                obj0.blobs_data_spec(),
                obj0.input_blobs_spec()[0] as int,
                d1[net0.layer_outputs_spec().last()@[0] as int]@,
                b0,
            )
            &&& written_at(b0, obj0.input_blobs_spec()[1] as int, label@, b1)
            &&& forward_pass_relation::<T, B>(
                obj0.layers_spec(),
                obj0.layer_inputs_spec(),
                obj0.layer_outputs_spec(),
                obj0.layers_spec().len() as int,
                b1,
                obj0.blobs_grad_spec(),
                od1,
                og1,
            )
            &&& backward_pass_relation::<T, B>(
                obj0.layers_spec(),
                obj0.layer_inputs_spec(),
                obj0.layer_outputs_spec(),
                obj0.layers_spec().len() as int,
                od1,
                og1,
                obj1.blobs_data_spec(),
                obj1.blobs_grad_spec(),
            )
            &&& written_at(
                g1,
                net0.layer_outputs_spec().last()@[0] as int,
                obj1.blobs_grad_spec()[obj0.input_blobs_spec()[0] as int]@,
                g1b,
            )
            &&& backward_pass_relation::<T, B>(
                net0.layers_spec(),
                net0.layer_inputs_spec(),
                net0.layer_outputs_spec(),
                net0.layers_spec().len() as int,
                d1,
                g1b,
                net1.blobs_data_spec(),
                net1.blobs_grad_spec(),
            )
        }
}

/// The witnesses of one completed training step assemble into
/// [`train_chain_result`].
proof fn lemma_train_chain_result_intro<T: Scalar, B: Backend<T>>(
    net0: Sequential<T>,
    obj0: Sequential<T>,
    input: Tensor<T>,
    label: Tensor<T>,
    t: Tensor<T>,
    net1: Sequential<T>,
    obj1: Sequential<T>,
    bound: Seq<Tensor<T>>,
    d1: Seq<Tensor<T>>,
    g1: Seq<Tensor<T>>,
    b0: Seq<Tensor<T>>,
    b1: Seq<Tensor<T>>,
    od1: Seq<Tensor<T>>,
    og1: Seq<Tensor<T>>,
    g1b: Seq<Tensor<T>>,
)
    requires
        written_at(net0.blobs_data_spec(), net0.input_blobs_spec()[0] as int, input@, bound),
        forward_pass_relation::<T, B>(
            net0.layers_spec(),
            net0.layer_inputs_spec(),
            net0.layer_outputs_spec(),
            net0.layers_spec().len() as int,
            bound,
            net0.blobs_grad_spec(),
            d1,
            g1,
        ),
        t@ == d1[net0.layer_outputs_spec().last()@[0] as int]@,
        written_at(
            obj0.blobs_data_spec(),
            obj0.input_blobs_spec()[0] as int,
            d1[net0.layer_outputs_spec().last()@[0] as int]@,
            b0,
        ),
        written_at(b0, obj0.input_blobs_spec()[1] as int, label@, b1),
        forward_pass_relation::<T, B>(
            obj0.layers_spec(),
            obj0.layer_inputs_spec(),
            obj0.layer_outputs_spec(),
            obj0.layers_spec().len() as int,
            b1,
            obj0.blobs_grad_spec(),
            od1,
            og1,
        ),
        backward_pass_relation::<T, B>(
            obj0.layers_spec(),
            obj0.layer_inputs_spec(),
            obj0.layer_outputs_spec(),
            obj0.layers_spec().len() as int,
            od1,
            og1,
            obj1.blobs_data_spec(),
            obj1.blobs_grad_spec(),
        ),
        written_at(
            g1,
            net0.layer_outputs_spec().last()@[0] as int,
            obj1.blobs_grad_spec()[obj0.input_blobs_spec()[0] as int]@,
            g1b,
        ),
        backward_pass_relation::<T, B>(
            net0.layers_spec(),
            net0.layer_inputs_spec(),
            net0.layer_outputs_spec(),
            net0.layers_spec().len() as int,
            d1,
            g1b,
            net1.blobs_data_spec(),
            net1.blobs_grad_spec(),
        ),
    ensures
        train_chain_result::<T, B>(net0, obj0, input, label, t, net1, obj1),
{
}

/// A training step cannot run to completion on this starting state: some
/// stage of the chain — binding the minibatch input, the network's
/// forward pass, feeding the objective, the objective's forward and
/// backward passes, handing the gradient back, or the network's backward
/// pass — fails on a state reachable from it. One iteration errs exactly
/// on such states, so a caller who refutes this predicate is owed
/// success.
pub open spec fn train_chain_blocked<T: Scalar, B: Backend<T>>(
    net: Sequential<T>,
    objective: Sequential<T>,
    input: Tensor<T>,
    label: Tensor<T>,
) -> bool {
    ||| net.input_blobs_spec().len() == 0
    ||| input@.len() != net.blobs_data_spec()[net.input_blobs_spec()[0] as int]@.len()
    ||| net.layers_spec().len() == 0
    ||| objective.input_blobs_spec().len() <= 1
    ||| exists|bound: Seq<Tensor<T>>|
        #![trigger written_at(net.blobs_data_spec(), net.input_blobs_spec()[0] as int, input@, bound)]
        written_at(net.blobs_data_spec(), net.input_blobs_spec()[0] as int, input@, bound) && {
            ||| forward_pass_blocked::<T, B>(
                net.layers_spec(),
                net.layer_inputs_spec(),
                net.layer_outputs_spec(),
                net.layers_spec().len() as int,
                bound,
                net.blobs_grad_spec(),
            )
            ||| exists|d1: Seq<Tensor<T>>, g1: Seq<Tensor<T>>|
                #![trigger forward_pass_relation::<T, B>(net.layers_spec(), net.layer_inputs_spec(), net.layer_outputs_spec(), net.layers_spec().len() as int, bound, net.blobs_grad_spec(), d1, g1)]
                forward_pass_relation::<T, B>(
                    net.layers_spec(),
                    net.layer_inputs_spec(),
                    net.layer_outputs_spec(),
                    net.layers_spec().len() as int,
                    bound,
                    net.blobs_grad_spec(),
                    d1,
                    g1,
                ) && {
                    ||| d1[net.layer_outputs_spec().last()@[0] as int]@.len()
                        != objective.blobs_data_spec()[objective.input_blobs_spec()[0] as int]@.len()
                    ||| exists|b0: Seq<Tensor<T>>|
                        #![trigger written_at(objective.blobs_data_spec(), objective.input_blobs_spec()[0] as int, d1[net.layer_outputs_spec().last()@[0] as int]@, b0)]
                        written_at(
                            objective.blobs_data_spec(),
                            objective.input_blobs_spec()[0] as int,
                            d1[net.layer_outputs_spec().last()@[0] as int]@,
                            b0,
                        ) && {
                            ||| label@.len() != b0[objective.input_blobs_spec()[1] as int]@.len()
                            ||| exists|b1: Seq<Tensor<T>>|
                                #![trigger written_at(b0, objective.input_blobs_spec()[1] as int, label@, b1)]
                                written_at(b0, objective.input_blobs_spec()[1] as int, label@, b1)
                                    && {
                                    ||| forward_pass_blocked::<T, B>(
                                        objective.layers_spec(),
                                        objective.layer_inputs_spec(),
                                        objective.layer_outputs_spec(),
                                        objective.layers_spec().len() as int,
                                        b1,
                                        objective.blobs_grad_spec(),
                                    )
                                    ||| exists|od1: Seq<Tensor<T>>, og1: Seq<Tensor<T>>|
                                        #![trigger forward_pass_relation::<T, B>(objective.layers_spec(), objective.layer_inputs_spec(), objective.layer_outputs_spec(), objective.layers_spec().len() as int, b1, objective.blobs_grad_spec(), od1, og1)]
                                        forward_pass_relation::<T, B>(
                                            objective.layers_spec(),
                                            objective.layer_inputs_spec(),
                                            objective.layer_outputs_spec(),
                                            objective.layers_spec().len() as int,
                                            b1,
                                            objective.blobs_grad_spec(),
                                            od1,
                                            og1,
                                        ) && {
                                            ||| backward_pass_blocked::<T, B>(
                                                objective.layers_spec(),
                                                objective.layer_inputs_spec(),
                                                objective.layer_outputs_spec(),
                                                objective.layers_spec().len() as int,
                                                od1,
                                                og1,
                                            )
                                            ||| exists|od2: Seq<Tensor<T>>, og2: Seq<Tensor<T>>|
                                                #![trigger backward_pass_relation::<T, B>(objective.layers_spec(), objective.layer_inputs_spec(), objective.layer_outputs_spec(), objective.layers_spec().len() as int, od1, og1, od2, og2)]
                                                backward_pass_relation::<T, B>(
                                                    objective.layers_spec(),
                                                    objective.layer_inputs_spec(),
                                                    objective.layer_outputs_spec(),
                                                    objective.layers_spec().len() as int,
                                                    od1,
                                                    og1,
                                                    od2,
                                                    og2,
                                                ) && {
                                                    ||| og2[objective.input_blobs_spec()[0] as int]@.len()
                                                        != g1[net.layer_outputs_spec().last()@[0] as int]@.len()
                                                    ||| exists|g1b: Seq<Tensor<T>>|
                                                        #![trigger written_at(g1, net.layer_outputs_spec().last()@[0] as int, og2[objective.input_blobs_spec()[0] as int]@, g1b)]
                                                        written_at(
                                                            g1,
                                                            net.layer_outputs_spec().last()@[0] as int,
                                                            og2[objective.input_blobs_spec()[0] as int]@,
                                                            g1b,
                                                        ) && backward_pass_blocked::<T, B>(
                                                            net.layers_spec(),
                                                            net.layer_inputs_spec(),
                                                            net.layer_outputs_spec(),
                                                            net.layers_spec().len() as int,
                                                            d1,
                                                            g1b,
                                                        )
                                                }
                                        }
                                }
                        }
                }
        }
}

/// A solver driving one network and one objective: state moves from
/// uninitialized (no history) to ready at construction, then iterates.
pub struct Solver<T> {
    net: Sequential<T>,
    objective: Sequential<T>,
    worker: Momentum<T>,
    config: SolverConfig<T>,
    iter: usize,
}

impl<T: Scalar> Solver<T> {
    /// The network under training.
    pub closed spec fn net_spec(&self) -> Sequential<T> {
        self.net
    }

    /// The objective appended behind the network.
    pub closed spec fn objective_spec(&self) -> Sequential<T> {
        self.objective
    }

    /// The iteration counter.
    pub closed spec fn iter_spec(&self) -> usize {
        self.iter
    }

    /// The momentum worker.
    pub closed spec fn worker_spec(&self) -> Momentum<T> {
        self.worker
    }

    /// The configuration the solver was built with.
    pub closed spec fn config_spec(&self) -> SolverConfig<T> {
        self.config
    }

    /// The solver's invariant: both networks are well-formed and the
    /// worker holds one history tensor per learnable weight gradient,
    /// shaped like it.
    pub open spec fn wf(&self) -> bool {
        &&& self.net_spec().wf()
        &&& self.objective_spec().wf()
        &&& self.worker_spec().history_spec().len()
            == self.net_spec().weights_grad_spec().len()
        &&& forall|i: int|
            0 <= i < self.worker_spec().history_spec().len() ==> (#[trigger] self.worker_spec()
                .history_spec()[i]).wf()
        &&& forall|i: int|
            0 <= i < self.worker_spec().history_spec().len() ==> (#[trigger] self.worker_spec()
                .history_spec()[i]).shape_spec()
                == self.net_spec().weights_grad_spec()[i].shape_spec()
        &&& self.config_spec().minibatch_size >= 1
    }

    /// The number of completed iterations.
    pub fn iteration(&self) -> (r: usize)
        ensures
            r == self.iter_spec(),
    {
        self.iter
    }

    /// Build a solver from its configuration: construct the network and
    /// the objective, then allocate one zeroed history tensor per
    /// learnable weight gradient. Succeeds exactly when both
    /// sub-configurations wire up and the minibatch size is positive.
    pub fn from_config(config: SolverConfig<T>) -> (r: Result<Solver<T>, LeafError>)
        ensures
            r.is_ok() <==> (config_wires(config.network) && config_wires(config.objective)
                && config.minibatch_size >= 1),
            match r {
                Ok(s) => s.wf() && s.iter_spec() == 0,
                Err(_) => true,
            },
    {
        if config.minibatch_size == 0 {
            return Err(LeafError::ZeroDimension);
        }
        let net = match Sequential::<T>::from_config(&config.network) {
            Ok(n) => n,
            Err(e) => {
                return Err(e);
            },
        };
        let objective = match Sequential::<T>::from_config(&config.objective) {
            Ok(o) => o,
            Err(e) => {
                return Err(e);
            },
        };
        let mut worker = Momentum::<T>::new();
        worker.init(net.learnable_weights_gradients());
        Ok(Solver { net, objective, worker, config, iter: 0 })
    }

    /// One training iteration on a minibatch: bind the input tensor to
    /// the network's first input blob, run the network forward, feed its
    /// output and the label tensor to the objective, run the objective
    /// forward and backward, hand the objective's input gradient back to
    /// the network, run the network backward, apply the momentum update
    /// to every learnable weight gradient, and advance the iteration
    /// counter. Returns the network's inferred output. The iteration
    /// fails, aborting with an error, exactly when some stage of that
    /// chain is blocked (see [`train_chain_blocked`]): a shape mismatch
    /// at a binding, an invalid reshape target, or bad labels.
    #[verifier::rlimit(100)]
    pub fn train_minibatch<B: Backend<T>>(
        &mut self,
        backend: &B,
        input: &Tensor<T>,
        label: &Tensor<T>,
    ) -> (r: Result<Tensor<T>, LeafError>)
        requires
            old(self).wf(),
            input.wf(),
            label.wf(),
            old(self).iter_spec() < usize::MAX,
        ensures
            final(self).wf(),
            r.is_ok() ==> final(self).iter_spec() == old(self).iter_spec() + 1,
            r.is_err() ==> train_chain_blocked::<T, B>(
                old(self).net_spec(),
                old(self).objective_spec(),
                *input,
                *label,
            ),
            match r {
                Ok(t) => {
                    &&& t.wf()
                    &&& old(self).net_spec().layers_spec().len() >= 1
                    &&& final(self).worker_spec().history_spec().len() == old(self).worker_spec().history_spec().len()
                    &&& forall|id: int|
                        0 <= id < final(self).worker_spec().history_spec().len() ==> {
                            &&& (#[trigger] final(self).worker_spec().history_spec()[id])@.len()
                                == old(self).worker_spec().history_spec()[id]@.len()
                            &&& (old(self).worker_spec().history_spec()[id]@.len() == old(self).net_spec().weights_grad_spec()[id]@.len() ==> forall|i: int|
                                0 <= i < old(self).worker_spec().history_spec()[id]@.len()
                                    ==> #[trigger] final(self).worker_spec().history_spec()[id]@[i] == axpby_of::<T>(
                                    T::mul_spec(
                                        learning_rate_spec(
                                            old(self).config_spec(),
                                            old(self).iter_spec(),
                                        ),
                                        T::one_spec(),
                                    ),
                                    T::divn_spec(
                                        old(self).net_spec().weights_grad_spec()[id]@[i],
                                        old(self).config_spec().minibatch_size,
                                    ),
                                    old(self).config_spec().momentum,
                                    old(self).worker_spec().history_spec()[id]@[i],
                                ))
                            &&& final(self).net_spec().weights_grad_spec()[id]@ == final(self).worker_spec().history_spec()[id]@
                        }
                    &&& train_chain_result::<T, B>(
                        old(self).net_spec(),
                        old(self).objective_spec(),
                        *input,
                        *label,
                        t,
                        final(self).net_spec(),
                        final(self).objective_spec(),
                    )
                },
                Err(_) => true,
            },
    {
        match self.net.write_input(0, input.elements().as_slice()) {
            Ok(()) => {
            },
            Err(e) => {
                return Err(e);
            },
        }
        let ghost bound = self.net.blobs_data_spec();
        proof {
            assert(self.net.blobs_data_spec()[old(self).net_spec().input_blobs_spec()[0] as int].wf());
            assert(written_at(
                old(self).net_spec().blobs_data_spec(),
                old(self).net_spec().input_blobs_spec()[0] as int,
                input@,
                bound,
            ));
        }
        match self.net.forward(backend) {
            Ok(()) => {
            },
            Err(e) => {
                proof {
                    assert(forward_pass_blocked::<T, B>(
                        old(self).net_spec().layers_spec(),
                        old(self).net_spec().layer_inputs_spec(),
                        old(self).net_spec().layer_outputs_spec(),
                        old(self).net_spec().layers_spec().len() as int,
                        bound,
                        old(self).net_spec().blobs_grad_spec(),
                    ));
                }
                return Err(e);
            },
        }
        let ghost d1 = self.net.blobs_data_spec();
        let ghost g1 = self.net.blobs_grad_spec();
        let oi = match self.net.output_index() {
            Some(i) => i,
            None => {
                return Err(LeafError::MissingInput);
            },
        };
        let inferred = self.net.blob_data(oi).duplicate();
        match self.objective.write_input(0, inferred.elements().as_slice()) {
            Ok(()) => {
            },
            Err(e) => {
                return Err(e);
            },
        }
        let ghost b0 = self.objective.blobs_data_spec();
        proof {
            assert(self.objective.blobs_data_spec()[old(self).objective_spec().input_blobs_spec()[0] as int].wf());
            assert(written_at(
                old(self).objective_spec().blobs_data_spec(),
                old(self).objective_spec().input_blobs_spec()[0] as int,
                d1[old(self).net_spec().layer_outputs_spec().last()@[0] as int]@,
                b0,
            ));
        }
        match self.objective.write_input(1, label.elements().as_slice()) {
            Ok(()) => {
            },
            Err(e) => {
                return Err(e);
            },
        }
        let ghost b1 = self.objective.blobs_data_spec();
        proof {
            assert(self.objective.blobs_data_spec()[old(self).objective_spec().input_blobs_spec()[1] as int].wf());
            assert(written_at(
                b0,
                old(self).objective_spec().input_blobs_spec()[1] as int,
                label@,
                b1,
            ));
        }
        match self.objective.forward(backend) {
            Ok(()) => {
            },
            Err(e) => {
                proof {
                    assert(forward_pass_blocked::<T, B>(
                        old(self).objective_spec().layers_spec(),
                        old(self).objective_spec().layer_inputs_spec(),
                        old(self).objective_spec().layer_outputs_spec(),
                        old(self).objective_spec().layers_spec().len() as int,
                        b1,
                        old(self).objective_spec().blobs_grad_spec(),
                    ));
                }
                return Err(e);
            },
        }
        let ghost od1 = self.objective.blobs_data_spec();
        let ghost og1 = self.objective.blobs_grad_spec();
        match self.objective.backward(backend) {
            Ok(()) => {
            },
            Err(e) => {
                proof {
                    assert(backward_pass_blocked::<T, B>(
                        old(self).objective_spec().layers_spec(),
                        old(self).objective_spec().layer_inputs_spec(),
                        old(self).objective_spec().layer_outputs_spec(),
                        old(self).objective_spec().layers_spec().len() as int,
                        od1,
                        og1,
                    ));
                }
                return Err(e);
            },
        }
        let ghost od2 = self.objective.blobs_data_spec();
        let ghost og2 = self.objective.blobs_grad_spec();
        if self.objective.input_count() == 0 {
            return Err(LeafError::MissingInput);
        }
        let gi = self.objective.input_index(0);
        proof {
            assert(self.objective.input_blobs_spec()[0] < self.objective.blobs_data_spec().len());
        }
        let seed = self.objective.blob_grad(gi).duplicate();
        match self.net.write_blob_grad(oi, seed.elements().as_slice()) {
            Ok(()) => {
            },
            Err(e) => {
                return Err(e);
            },
        }
        let ghost g1b = self.net.blobs_grad_spec();
        proof {
            assert(self.net.blobs_grad_spec()[old(self).net_spec().layer_outputs_spec().last()@[0] as int].wf());
            assert(written_at(
                g1,
                old(self).net_spec().layer_outputs_spec().last()@[0] as int,
                og2[old(self).objective_spec().input_blobs_spec()[0] as int]@,
                g1b,
            ));
        }
        match self.net.backward(backend) {
            Ok(()) => {
            },
            Err(e) => {
                proof {
                    assert(backward_pass_blocked::<T, B>(
                        old(self).net_spec().layers_spec(),
                        old(self).net_spec().layer_inputs_spec(),
                        old(self).net_spec().layer_outputs_spec(),
                        old(self).net_spec().layers_spec().len() as int,
                        d1,
                        g1b,
                    ));
                }
                return Err(e);
            },
        }
        let nw = self.net.learnable_weights_gradients().len();
        let mut lrs: Vec<T> = Vec::new();
        while lrs.len() < nw
            invariant
                lrs@.len() <= nw,
                forall|q: int| 0 <= q < lrs@.len() ==> lrs@[q] == T::one_spec(),
            decreases nw - lrs@.len(),
        {
            lrs.push(T::one());
        }
        let ghost net_before = self.net;
        let wg = self.net.weights_grad_mut();
        self.worker.compute_update(backend, &self.config, wg, &lrs, self.iter);
        proof {
            Sequential::<T>::lemma_wf_after_weights_update(&net_before, &self.net);
            assert forall|id: int|
                0 <= id < self.worker.history_spec().len() implies {
                &&& (#[trigger] self.worker.history_spec()[id])@.len() == old(
                    self,
                ).worker_spec().history_spec()[id]@.len()
                &&& (old(self).worker_spec().history_spec()[id]@.len() == old(
                    self,
                ).net_spec().weights_grad_spec()[id]@.len() ==> forall|i: int|
                    0 <= i < old(self).worker_spec().history_spec()[id]@.len()
                        ==> #[trigger] self.worker.history_spec()[id]@[i] == axpby_of::<T>(
                        T::mul_spec(
                            learning_rate_spec(old(self).config_spec(), old(self).iter_spec()),
                            T::one_spec(),
                        ),
                        T::divn_spec(
                            old(self).net_spec().weights_grad_spec()[id]@[i],
                            old(self).config_spec().minibatch_size,
                        ),
                        old(self).config_spec().momentum,
                        old(self).worker_spec().history_spec()[id]@[i],
                    ))
                &&& self.net.weights_grad_spec()[id]@ == self.worker.history_spec()[id]@
            } by {
                assert(0 <= id < self.worker.history_spec().len());
            }
            lemma_train_chain_result_intro::<T, B>(
                old(self).net_spec(),
                old(self).objective_spec(),
                *input,
                *label,
                inferred,
                self.net,
                self.objective,
                bound,
                d1,
                g1,
                b0,
                b1,
                od1,
                og1,
                g1b,
            );
        }
        self.iter = self.iter + 1;
        Ok(inferred)
    }
}

} // verus!
