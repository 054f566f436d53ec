//! The negative-log-likelihood loss layer.
//!
//! Two inputs: a tensor of per-class log-probabilities and an integer
//! label tensor. Forward: each sample contributes the negated
//! log-probability at its true label's index, and the output is the
//! single scalar mean over the batch. Backward: the gradient holds minus
//! one at each sample's true-label position and zero everywhere else (the
//! normalization is left to the paired logarithmic softmax layer's own
//! backward pass).

use vstd::prelude::*;

use crate::scalar::Scalar;
use crate::tensor::{capacity_spec, Tensor};

verus! {

/// The batch size a label shape denotes: rank 1 means a single sample,
/// rank 2 means the first dimension counts the samples.
pub open spec fn batch_size_spec(shape: Seq<usize>) -> usize {
    if shape.len() == 1 {
        1usize
    } else {
        shape[0]
    }
}

/// The flat position of sample `b`'s true-label entry inside a
/// probability buffer with `num_classes` entries per sample.
pub open spec fn label_position<T: Scalar>(labels: Seq<T>, num_classes: usize, b: int) -> int {
    (num_classes as int) * b + (T::index_spec(labels[b]) as int)
}

/// The per-sample loss contributions: for each label, the negated
/// log-probability stored at that sample's true-label position.
pub open spec fn nll_gathered<T: Scalar>(probs: Seq<T>, labels: Seq<T>, num_classes: usize) -> Seq<
    T,
> {
    Seq::new(labels.len(), |b: int| T::neg_spec(probs[label_position(labels, num_classes, b)]))
}

/// Left-to-right sum of a sequence of elements, starting from zero.
pub open spec fn scalar_sum<T: Scalar>(s: Seq<T>) -> T
    decreases s.len(),
{
    if s.len() == 0 {
        T::zero_spec()
    } else {
        T::add_spec(scalar_sum(s.drop_last()), s.last())
    }
}

/// The scalar loss: the summed per-sample contributions divided by the
/// batch size.
pub open spec fn nll_loss<T: Scalar>(
    probs: Seq<T>,
    labels: Seq<T>,
    num_classes: usize,
    batch: usize,
) -> T {
    T::divn_spec(scalar_sum(nll_gathered(probs, labels, num_classes)), batch)
}

/// The input gradient: a buffer of `len` zeros with minus one scattered
/// at each sample's true-label position, in sample order.
pub open spec fn nll_gradient<T: Scalar>(len: nat, labels: Seq<T>, num_classes: usize) -> Seq<T>
    decreases labels.len(),
{
    if labels.len() == 0 {
        Seq::new(len, |i: int| T::zero_spec())
    } else {
        nll_gradient(len, labels.drop_last(), num_classes).update(
            label_position(labels, num_classes, labels.len() - 1),
            T::neg_spec(T::one_spec()),
        )
    }
}

/// The gradient buffer keeps the length it was asked for.
pub proof fn lemma_nll_gradient_len<T: Scalar>(len: nat, labels: Seq<T>, num_classes: usize)
    requires
        forall|b: int|
            0 <= b < labels.len() ==> 0 <= #[trigger] label_position(labels, num_classes, b) < len,
    ensures
        nll_gradient::<T>(len, labels, num_classes).len() == len,
    decreases labels.len(),
{
    if labels.len() > 0 {
        let prefix = labels.drop_last();
        assert(forall|b: int|
            0 <= b < prefix.len() ==> #[trigger] label_position(prefix, num_classes, b)
                == label_position(labels, num_classes, b));
        lemma_nll_gradient_len::<T>(len, prefix, num_classes);
    }
}

/// What each entry of [`nll_gradient`] holds: minus one at the true-label
/// position of some sample, zero everywhere else.
pub proof fn lemma_nll_gradient_entries<T: Scalar>(
    len: nat,
    labels: Seq<T>,
    num_classes: usize,
    j: int,
)
    requires
        forall|b: int|
            0 <= b < labels.len() ==> 0 <= #[trigger] label_position(labels, num_classes, b) < len,
        0 <= j < len,
    ensures
        (exists|b: int|
            0 <= b < labels.len() && j == #[trigger] label_position(labels, num_classes, b))
            ==> nll_gradient::<T>(len, labels, num_classes)[j] == T::neg_spec(T::one_spec()),
        !(exists|b: int|
            0 <= b < labels.len() && j == #[trigger] label_position(labels, num_classes, b))
            ==> nll_gradient::<T>(len, labels, num_classes)[j] == T::zero_spec(),
    decreases labels.len(),
{
    if labels.len() > 0 {
        let m = labels.len() - 1;
        let prefix = labels.drop_last();
        assert(forall|b: int|
            0 <= b < prefix.len() ==> #[trigger] label_position(prefix, num_classes, b)
                == label_position(labels, num_classes, b));
        lemma_nll_gradient_len::<T>(len, labels, num_classes);
        lemma_nll_gradient_len::<T>(len, prefix, num_classes);
        lemma_nll_gradient_entries::<T>(len, prefix, num_classes, j);
        if j == label_position(labels, num_classes, m as int) {
            assert(nll_gradient::<T>(len, labels, num_classes)[j] == T::neg_spec(T::one_spec()));
        } else {
            assert(nll_gradient::<T>(len, labels, num_classes)[j] == nll_gradient::<T>(
                len,
                prefix,
                num_classes,
            )[j]);
            if exists|b: int|
                0 <= b < labels.len() && j == #[trigger] label_position(labels, num_classes, b) {
                let b0 = choose|b: int|
                    0 <= b < labels.len() && j == #[trigger] label_position(labels, num_classes, b);
                assert(b0 < m || b0 == m);
                assert(b0 < prefix.len() && j == label_position(prefix, num_classes, b0));
            }
            if exists|b: int|
                0 <= b < prefix.len() && j == #[trigger] label_position(prefix, num_classes, b) {
                let b0 = choose|b: int|
                    0 <= b < prefix.len() && j == #[trigger] label_position(prefix, num_classes, b);
                assert(0 <= b0 < labels.len() && j == label_position(labels, num_classes, b0));
            }
        }
    }
}

/// Configuration for a [`NegativeLogLikelihood`] layer.
#[derive(Debug, Clone)]
pub struct NegativeLogLikelihoodConfig {
    /// How many different classes can be classified.
    pub num_classes: usize,
}

/// The negative-log-likelihood loss layer.
#[derive(Debug, Clone)]
pub struct NegativeLogLikelihood {
    num_classes: usize,
}

impl NegativeLogLikelihood {
    /// The number of classes the layer distinguishes.
    pub closed spec fn num_classes_spec(&self) -> usize {
        self.num_classes
    }

    /// The number of classes the layer distinguishes.
    pub fn num_classes(&self) -> (r: usize)
        ensures
            r == self.num_classes_spec(),
    {
        self.num_classes
    }

    /// Create a layer from its configuration.
    pub fn from_config(config: &NegativeLogLikelihoodConfig) -> (r: NegativeLogLikelihood)
        ensures
            r.num_classes_spec() == config.num_classes,
    {
        NegativeLogLikelihood { num_classes: config.num_classes }
    }

    /// The product of the dimensions up to and including the softmax axis.
    pub fn calculate_outer_num(softmax_axis: usize, input_shape: &[usize]) -> (r: usize)
        requires
            softmax_axis + 1 <= input_shape@.len(),
            crate::tensor::positive_dims(input_shape@),
            capacity_spec(input_shape@.take(softmax_axis + 1)) <= usize::MAX,
        ensures
            r == capacity_spec(input_shape@.take(softmax_axis + 1)),
    {
        let ghost whole = input_shape@.take(softmax_axis + 1 as int);
        let n = input_shape.len();
        let end = softmax_axis + 1;
        let mut prod: usize = 1;
        let mut i: usize = 0;
        while i < end
            invariant
                i <= end,
                end == softmax_axis + 1,
                softmax_axis + 1 <= input_shape@.len(),
                crate::tensor::positive_dims(input_shape@),
                whole == input_shape@.take(softmax_axis + 1 as int),
                capacity_spec(whole) <= usize::MAX,
                prod == capacity_spec(input_shape@.take(i as int)),
            decreases softmax_axis + 1 - i,
        {
            proof {
                crate::tensor::lemma_capacity_take_succ(input_shape@, i as int);
                assert(crate::tensor::positive_dims(whole));
                crate::tensor::lemma_capacity_prefix_le(whole, i + 1);
                assert(whole.take(i + 1 as int) =~= input_shape@.take(i + 1 as int));
            }
            prod = prod * input_shape[i];
            i += 1;
        }
        prod
    }

    /// The product of the dimensions strictly after the softmax axis.
    pub fn calculate_inner_num(softmax_axis: usize, input_shape: &[usize]) -> (r: usize)
        requires
            softmax_axis + 1 <= input_shape@.len(),
            crate::tensor::positive_dims(input_shape@),
            capacity_spec(input_shape@.skip(softmax_axis + 1)) <= usize::MAX,
        ensures
            r == capacity_spec(input_shape@.skip(softmax_axis + 1)),
    {
        let n = input_shape.len();
        let start = softmax_axis + 1;
        let ghost tail = input_shape@.skip(start as int);
        let mut prod: usize = 1;
        let mut i: usize = start;
        while i < n
            invariant
                start <= i <= n,
                n == input_shape@.len(),
                crate::tensor::positive_dims(input_shape@),
                tail == input_shape@.skip(start as int),
                capacity_spec(tail) <= usize::MAX,
                prod == capacity_spec(tail.take(i - start)),
            decreases n - i,
        {
            proof {
                assert(crate::tensor::positive_dims(tail));
                crate::tensor::lemma_capacity_take_succ(tail, i - start);
                crate::tensor::lemma_capacity_prefix_le(tail, i - start + 1);
                assert(tail[i - start] == input_shape@[i as int]);
            }
            prod = prod * input_shape[i];
            i += 1;
        }
        assert(tail.take(n - start) =~= tail);
        prod
    }

    /// The batch size encoded by a label shape; only ranks 1 and 2 are
    /// supported.
    pub fn batch_size(input_shape: &[usize]) -> (r: usize)
        requires
            input_shape@.len() == 1 || input_shape@.len() == 2,
        ensures
            r == batch_size_spec(input_shape@),
    {
        if input_shape.len() == 1 {
            1
        } else {
            input_shape[0]
        }
    }

    /// The layer's blobs stay host-resident: index-based scatter does not
    /// suit the backend's dense elementwise path.
    pub fn sync_native(&self) -> (r: bool)
        ensures
            r == true,
    {
        true
    }

    /// Shape inference: the input gradient matches the probability
    /// tensor's shape; the loss output is a single scalar.
    pub fn reshape<T: Scalar>(
        &mut self,
        input_data: &Vec<Tensor<T>>,
        input_gradient: &mut Vec<Tensor<T>>,
        output_data: &mut Vec<Tensor<T>>,
    )
        requires
            input_data@.len() >= 2,
            input_data@[0].wf(),
            old(input_gradient)@.len() >= 1,
            old(output_data)@.len() >= 1,
        ensures
            *final(self) == *old(self),
            final(input_gradient)@ == old(input_gradient)@.update(0, final(input_gradient)@[0]),
            crate::tensor::resized_to(
                old(input_gradient)@[0],
                final(input_gradient)@[0],
                input_data@[0].shape_spec(),
                T::zero_spec(),
            ),
            final(output_data)@ == old(output_data)@.update(0, final(output_data)@[0]),
            crate::tensor::resized_to(
                old(output_data)@[0],
                final(output_data)@[0],
                seq![1usize],
                T::zero_spec(),
            ),
    {
        let cap = input_data[0].capacity();
        let dims = input_data[0].dimensions();
        assert(capacity_spec(dims@) == cap);
        let ig: &mut Tensor<T> = &mut input_gradient[0];
        ig.resize_valid(dims, T::zero());
        let mut scalar_dims: Vec<usize> = Vec::new();
        scalar_dims.push(1);
        assert(scalar_dims@ =~= seq![1usize]);
        proof {
            crate::tensor::lemma_capacity_single(1);
        }
        let od: &mut Tensor<T> = &mut output_data[0];
        od.resize_valid(&scalar_dims, T::zero());
    }

    /// Forward: gather each sample's negated log-probability at its
    /// true-label position, sum the contributions, divide by the batch
    /// size, and store the scalar mean as the single output element.
    pub fn compute_output<T: Scalar>(
        &self,
        _weights: &Vec<Tensor<T>>,
        input_data: &Vec<Tensor<T>>,
        output_data: &mut Vec<Tensor<T>>,
    )
        requires
            input_data@.len() >= 2,
            input_data@[0].wf(),
            input_data@[1].wf(),
            input_data@[1].shape_spec().len() == 1 || input_data@[1].shape_spec().len() == 2,
            forall|b: int|
                0 <= b < input_data@[1]@.len() ==> 0 <= #[trigger] label_position(
                    input_data@[1]@,
                    self.num_classes_spec(),
                    b,
                ) < input_data@[0]@.len(),
            old(output_data)@.len() >= 1,
        ensures
            final(output_data)@ == old(output_data)@.update(0, final(output_data)@[0]),
            final(output_data)@[0].wf(),
            final(output_data)@[0].shape_spec() == seq![1usize],
            final(output_data)@[0]@ == seq![
                nll_loss(
                    input_data@[0]@,
                    input_data@[1]@,
                    self.num_classes_spec(),
                    batch_size_spec(input_data@[1].shape_spec()),
                ),
            ],
    {
        let probs = &input_data[0];
        let labels = &input_data[1];
        let batch = Self::batch_size(labels.dimensions().as_slice());
        proof {
            crate::tensor::lemma_capacity_positive(labels.shape_spec());
            if labels.shape_spec().len() == 2 {
                assert(labels.shape_spec()[0] >= 1);
            }
        }
        assert(batch >= 1);
        let n = labels.capacity();
        let probs_len = probs.elements().len();
        assert(probs@.len() == probs_len);
        let ghost gathered = nll_gathered(probs@, labels@, self.num_classes_spec());
        let mut acc = T::zero();
        let mut b: usize = 0;
        while b < n
            invariant
                b <= n,
                n == labels@.len(),
                probs.wf(),
                labels.wf(),
                probs@.len() <= usize::MAX,
                forall|k: int|
                    0 <= k < labels@.len() ==> 0 <= #[trigger] label_position(
                        labels@,
                        self.num_classes_spec(),
                        k,
                    ) < probs@.len(),
                gathered == nll_gathered(probs@, labels@, self.num_classes_spec()),
                acc == scalar_sum(gathered.take(b as int)),
            decreases n - b,
        {
            let label_value = labels.get(b);
            let idx = T::as_index(label_value);
            assert(0 <= label_position(labels@, self.num_classes_spec(), b as int) < probs@.len());
            let pos = self.num_classes * b + idx;
            let p = probs.get(pos);
            acc = T::plus(acc, T::negate(p));
            proof {
                assert(gathered.take(b + 1 as int).drop_last() =~= gathered.take(b as int));
                assert(gathered[b as int] == T::neg_spec(probs@[label_position(
                    labels@,
                    self.num_classes_spec(),
                    b as int,
                )]));
            }
            b += 1;
        }
        assert(gathered.take(n as int) =~= gathered);
        let loss = T::divn(acc, batch);
        let mut scalar_dims: Vec<usize> = Vec::new();
        scalar_dims.push(1);
        assert(scalar_dims@ =~= seq![1usize]);
        proof {
            crate::tensor::lemma_capacity_single(1);
        }
        let od: &mut Tensor<T> = &mut output_data[0];
        od.resize_valid(&scalar_dims, T::zero());
        od.set(0, loss);
        assert(od@ =~= seq![
            nll_loss(
                probs@,
                labels@,
                self.num_classes_spec(),
                batch_size_spec(labels.shape_spec()),
            ),
        ]);
    }

    /// Backward: clear the input gradient to zero, then write minus one
    /// at each sample's true-label position, in sample order.
    pub fn compute_input_gradient<T: Scalar>(
        &self,
        _weights_data: &Vec<Tensor<T>>,
        input_data: &Vec<Tensor<T>>,
        input_gradients: &mut Vec<Tensor<T>>,
    )
        requires
            input_data@.len() >= 2,
            input_data@[1].wf(),
            old(input_gradients)@.len() >= 1,
            old(input_gradients)@[0].wf(),
            forall|b: int|
                0 <= b < input_data@[1]@.len() ==> 0 <= #[trigger] label_position(
                    input_data@[1]@,
                    self.num_classes_spec(),
                    b,
                ) < old(input_gradients)@[0]@.len(),
        ensures
            final(input_gradients)@ == old(input_gradients)@.update(0, final(input_gradients)@[0]),
            final(input_gradients)@[0].wf(),
            final(input_gradients)@[0].shape_spec() == old(input_gradients)@[0].shape_spec(),
            final(input_gradients)@[0]@ == nll_gradient::<T>(
                old(input_gradients)@[0]@.len(),
                input_data@[1]@,
                self.num_classes_spec(),
            ),
    {
        let labels = &input_data[1];
        let ig: &mut Tensor<T> = &mut input_gradients[0];
        let ghost orig_shape = ig.shape_spec();
        let ghost glen = ig@.len();
        let cap = ig.elements().len();
        let zero = T::zero();
        let mut j: usize = 0;
        while j < cap
            invariant
                j <= cap,
                cap == glen,
                ig@.len() == glen,
                ig.wf(),
                ig.shape_spec() == orig_shape,
                zero == T::zero_spec(),
                forall|k: int| 0 <= k < j ==> ig@[k] == T::zero_spec(),
            decreases cap - j,
        {
            ig.set(j, zero);
            j += 1;
        }
        proof {
            lemma_nll_gradient_len::<T>(glen, labels@.take(0), self.num_classes_spec());
        }
        assert(ig@ =~= nll_gradient::<T>(glen, labels@.take(0), self.num_classes_spec()));
        let n = labels.capacity();
        let minus_one = T::negate(T::one());
        let mut b: usize = 0;
        while b < n
            invariant
                b <= n,
                n == labels@.len(),
                labels.wf(),
                cap == glen,
                ig@.len() == glen,
                ig.wf(),
                ig.shape_spec() == orig_shape,
                minus_one == T::neg_spec(T::one_spec()),
                forall|k: int|
                    0 <= k < labels@.len() ==> 0 <= #[trigger] label_position(
                        labels@,
                        self.num_classes_spec(),
                        k,
                    ) < glen,
                ig@ == nll_gradient::<T>(glen, labels@.take(b as int), self.num_classes_spec()),
            decreases n - b,
        {
            let label_value = labels.get(b);
            let idx = T::as_index(label_value);
            assert(0 <= label_position(labels@, self.num_classes_spec(), b as int) < glen);
            let pos = self.num_classes * b + idx;
            ig.set(pos, minus_one);
            proof {
                let taken = labels@.take(b + 1 as int);
                assert(taken.drop_last() =~= labels@.take(b as int));
                assert(forall|k: int|
                    0 <= k < b ==> #[trigger] label_position(
                        labels@.take(b as int),
                        self.num_classes_spec(),
                        k,
                    ) == label_position(labels@, self.num_classes_spec(), k));
                lemma_nll_gradient_len::<T>(glen, labels@.take(b as int), self.num_classes_spec());
                assert(label_position(taken, self.num_classes_spec(), b as int) == label_position(
                    labels@,
                    self.num_classes_spec(),
                    b as int,
                ));
                assert(nll_gradient::<T>(glen, taken, self.num_classes_spec()) == nll_gradient::<
                    T,
                >(glen, labels@.take(b as int), self.num_classes_spec()).update(
                    label_position(labels@, self.num_classes_spec(), b as int),
                    T::neg_spec(T::one_spec()),
                ));
            }
            b += 1;
        }
        assert(labels@.take(n as int) =~= labels@);
    }
}

} // verus!
