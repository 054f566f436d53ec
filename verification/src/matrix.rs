//! A bounded-window accuracy evaluator.
//!
//! The evaluator consumes (predicted, actual) class pairs and reports a
//! running accuracy over the retained pairs. With a capacity set, it is a
//! sliding window: once full, the oldest pairs are evicted.

use vstd::prelude::*;

use crate::scalar::Scalar;
use crate::tensor::Tensor;

verus! {

/// What a bounded window retains of a sample sequence: everything when no
/// capacity is set, otherwise the newest `c` entries.
pub open spec fn windowed(samples: Seq<(usize, usize)>, capacity: Option<usize>) -> Seq<
    (usize, usize),
> {
    match capacity {
        Option::None => samples,
        Option::Some(c) => if samples.len() <= c {
            samples
        } else {
            samples.skip(samples.len() - c)
        },
    }
}

/// How many retained pairs agree: predicted class equals actual class.
pub open spec fn correct_count(samples: Seq<(usize, usize)>) -> nat
    decreases samples.len(),
{
    if samples.len() == 0 {
        0nat
    } else {
        correct_count(samples.drop_last()) + (if samples.last().0 == samples.last().1 {
            1nat
        } else {
            0nat
        })
    }
}

/// A sliding-window evaluator over (predicted, actual) class pairs.
pub struct ConfusionMatrix {
    num_classes: usize,
    capacity: Option<usize>,
    samples: Vec<(usize, usize)>,
}

impl ConfusionMatrix {
    /// The fixed number of classes.
    pub closed spec fn num_classes_spec(&self) -> usize {
        self.num_classes
    }

    /// The optional window capacity.
    pub closed spec fn capacity_spec(&self) -> Option<usize> {
        self.capacity
    }

    /// The retained (predicted, actual) pairs, oldest first.
    pub closed spec fn samples_spec(&self) -> Seq<(usize, usize)> {
        self.samples@
    }

    /// The evaluator's invariant: the retained pairs never exceed the
    /// capacity, when one is set.
    pub open spec fn wf(&self) -> bool {
        match self.capacity_spec() {
            Option::None => true,
            Option::Some(c) => self.samples_spec().len() <= c,
        }
    }

    /// A fresh evaluator for `num_classes` classes, with no samples and
    /// no capacity.
    pub fn new(num_classes: usize) -> (r: ConfusionMatrix)
        ensures
            r.wf(),
            r.num_classes_spec() == num_classes,
            r.capacity_spec() is None,
            r.samples_spec() == Seq::<(usize, usize)>::empty(),
    {
        ConfusionMatrix { num_classes, capacity: None, samples: Vec::new() }
    }

    /// Bound the window, evicting the oldest pairs if the retained ones
    /// already exceed the new capacity.
    pub fn set_capacity(&mut self, capacity: Option<usize>)
        ensures
            final(self).wf(),
            final(self).num_classes_spec() == old(self).num_classes_spec(),
            final(self).capacity_spec() == capacity,
            final(self).samples_spec() == windowed(old(self).samples_spec(), capacity),
    {
        self.capacity = capacity;
        let ghost pushed = self.samples@;
        match capacity {
            None => {
            },
            Some(c) => {
                while self.samples.len() > c
                    invariant
                        self.capacity == capacity,
                        self.num_classes == old(self).num_classes,
                        self.samples@.len() <= pushed.len(),
                        self.samples@.len() >= c || self.samples@.len() == pushed.len(),
                        self.samples@ == pushed.skip(pushed.len() - self.samples@.len()),
                    decreases self.samples@.len(),
                {
                    self.samples.remove(0);
                    proof {
                        let k = pushed.len() - self.samples@.len();
                        assert(pushed.skip(k - 1).remove(0) =~= pushed.skip(k));
                    }
                }
                assert(pushed.skip(0) =~= pushed);
            },
        }
    }

    /// Append one (predicted, actual) pair, evicting the oldest pair if
    /// the window is full.
    pub fn add_sample(&mut self, prediction: usize, label: usize)
        requires
            old(self).wf(),
        ensures
            final(self).wf(),
            final(self).num_classes_spec() == old(self).num_classes_spec(),
            final(self).capacity_spec() == old(self).capacity_spec(),
            final(self).samples_spec() == windowed(
                old(self).samples_spec().push((prediction, label)),
                old(self).capacity_spec(),
            ),
    {
        self.samples.push((prediction, label));
        let ghost pushed = self.samples@;
        let cap = self.capacity;
        match cap {
            None => {
            },
            Some(c) => {
                while self.samples.len() > c
                    invariant
                        self.capacity == cap,
                        self.num_classes == old(self).num_classes,
                        self.samples@.len() <= pushed.len(),
                        self.samples@.len() >= c || self.samples@.len() == pushed.len(),
                        self.samples@ == pushed.skip(pushed.len() - self.samples@.len()),
                    decreases self.samples@.len(),
                {
                    self.samples.remove(0);
                    proof {
                        let k = pushed.len() - self.samples@.len();
                        assert(pushed.skip(k - 1).remove(0) =~= pushed.skip(k));
                    }
                }
                assert(pushed.skip(0) =~= pushed);
            },
        }
    }

    /// Append a batch of (predicted, actual) pairs in order, evicting
    /// the oldest pairs as the window fills: afterwards the window
    /// retains the newest of the old and new pairs together. Pairs
    /// beyond the shorter of the two slices are ignored.
    pub fn add_samples(&mut self, predictions: &[usize], labels: &[usize])
        requires
            old(self).wf(),
        ensures
            final(self).wf(),
            final(self).num_classes_spec() == old(self).num_classes_spec(),
            final(self).capacity_spec() == old(self).capacity_spec(),
            final(self).samples_spec() == windowed(
                old(self).samples_spec() + zipped_pairs(predictions@, labels@),
                old(self).capacity_spec(),
            ),
    {
        let n = if predictions.len() <= labels.len() {
            predictions.len()
        } else {
            labels.len()
        };
        let ghost pairs = zipped_pairs(predictions@, labels@);
        let mut i: usize = 0;
        while i < n
            invariant
                i <= n,
                n == pairs.len(),
                pairs == zipped_pairs(predictions@, labels@),
                self.wf(),
                self.num_classes_spec() == old(self).num_classes_spec(),
                self.capacity_spec() == old(self).capacity_spec(),
                self.samples_spec() == windowed(
                    old(self).samples_spec() + pairs.take(i as int),
                    old(self).capacity_spec(),
                ),
            decreases n - i,
        {
            let ghost before = self.samples_spec();
            self.add_sample(predictions[i], labels[i]);
            proof {
                lemma_windowed_push(
                    old(self).samples_spec() + pairs.take(i as int),
                    (predictions@[i as int], labels@[i as int]),
                    old(self).capacity_spec(),
                );
                assert((old(self).samples_spec() + pairs.take(i as int)).push(pairs[i as int])
                    =~= old(self).samples_spec() + pairs.take(i + 1));
            }
            i += 1;
        }
        proof {
            assert(pairs.take(n as int) =~= pairs);
        }
    }

    /// The retained (predicted, actual) pairs, oldest first.
    pub fn samples(&self) -> (r: &Vec<(usize, usize)>)
        ensures
            r@ == self.samples_spec(),
    {
        &self.samples
    }

    /// The running accuracy, as the pair (correct, total) over the
    /// retained samples; recomputed on demand, never cached.
    pub fn accuracy(&self) -> (r: (usize, usize))
        ensures
            r.0 == correct_count(self.samples_spec()),
            r.1 == self.samples_spec().len(),
    {
        let total = self.samples.len();
        let mut correct: usize = 0;
        let mut i: usize = 0;
        while i < total
            invariant
                i <= total,
                total == self.samples_spec().len(),
                correct == correct_count(self.samples_spec().take(i as int)),
                correct <= i,
            decreases total - i,
        {
            let pair = self.samples[i];
            if pair.0 == pair.1 {
                correct += 1;
            }
            proof {
                assert(self.samples_spec().take(i + 1).drop_last() =~= self.samples_spec().take(
                    i as int,
                ));
            }
            i += 1;
        }
        assert(self.samples_spec().take(total as int) =~= self.samples_spec());
        (correct, total)
    }

    /// Convert a row-major probability tensor into per-sample predicted
    /// classes: the first dimension counts the samples, and each sample's
    /// prediction is the index of the first maximum over its entries.
    pub fn get_predictions<T: Scalar>(&self, tensor: &Tensor<T>) -> (r: Vec<usize>)
        requires
            tensor.wf(),
            tensor.shape_spec().len() >= 1,
        ensures
            r@.len() == tensor.shape_spec()[0],
            ({
                let ss = tensor@.len() as int / tensor.shape_spec()[0] as int;
                forall|s: int|
                    0 <= s < r@.len() ==> #[trigger] r@[s] < ss && is_first_arg_max(
                        tensor@,
                        s * ss,
                        ss,
                        r@[s] as int,
                    )
            }),
    {
        let batch = tensor.dimensions()[0];
        let cap = tensor.capacity();
        let sample_size = cap / batch;
        proof {
            crate::tensor::lemma_capacity_skip_first(tensor.shape_spec());
            crate::tensor::lemma_capacity_positive(tensor.shape_spec().skip(1));
            assert(forall|i: int|
                0 <= i < tensor.shape_spec().skip(1).len() ==> tensor.shape_spec().skip(1)[i]
                    >= 1);
            assert(cap == (batch as nat) * crate::tensor::capacity_spec(
                tensor.shape_spec().skip(1),
            ));
            let rest = crate::tensor::capacity_spec(tensor.shape_spec().skip(1)) as int;
            assert(cap as int == batch * rest);
            assert(batch >= 1);
            assert(rest >= 1);
            assert((batch as int) * rest / (batch as int) == rest) by (nonlinear_arith)
                requires
                    batch >= 1,
                    rest >= 0,
            ;
        }
        let ghost ss = tensor@.len() as int / tensor.shape_spec()[0] as int;
        assert(sample_size == ss);
        assert(sample_size >= 1);
        let mut predictions: Vec<usize> = Vec::new();
        let mut s: usize = 0;
        while s < batch
            invariant
                s <= batch,
                tensor.wf(),
                tensor.shape_spec().len() >= 1,
                batch == tensor.shape_spec()[0],
                cap == tensor@.len(),
                ss == tensor@.len() as int / tensor.shape_spec()[0] as int,
                sample_size == ss,
                sample_size >= 1,
                (batch as int) * (sample_size as int) == cap as int,
                predictions@.len() == s,
                forall|q: int|
                    0 <= q < s ==> #[trigger] predictions@[q] < ss && is_first_arg_max(
                        tensor@,
                        q * ss,
                        ss,
                        predictions@[q] as int,
                    ),
            decreases batch - s,
        {
            proof {
                assert((s as int) * (ss as int) + ss <= (batch as int) * (ss as int))
                    by (nonlinear_arith)
                    requires
                        (s as int) < (batch as int),
                        ss >= 1,
                ;
            }
            let base = s * sample_size;
            let mut best: usize = 0;
            let mut best_value = tensor.get(base);
            proof {
                T::lemma_le_total(best_value, best_value);
            }
            let mut k: usize = 1;
            while k < sample_size
                invariant
                    1 <= k <= sample_size,
                    tensor.wf(),
                    base == s as int * ss,
                    sample_size == ss,
                    base + sample_size <= tensor@.len(),
                    tensor@.len() <= usize::MAX,
                    best < k,
                    best_value == tensor@[base + best],
                    forall|j: int| base <= j < base + k ==> T::le_spec(#[trigger] tensor@[j], best_value),
                    forall|j: int|
                        base <= j < base + best ==> !T::le_spec(best_value, #[trigger] tensor@[j]),
                decreases sample_size - k,
            {
                let v = tensor.get(base + k);
                if !T::le(v, best_value) {
                    proof {
                        T::lemma_le_total(v, best_value);
                        assert forall|j: int| base <= j < base + k implies T::le_spec(
                            #[trigger] tensor@[j],
                            v,
                        ) by {
                            T::lemma_le_trans(tensor@[j], best_value, v);
                        }
                        assert forall|j: int| base <= j < base + k implies !T::le_spec(
                            v,
                            #[trigger] tensor@[j],
                        ) by {
                            if T::le_spec(v, tensor@[j]) {
                                T::lemma_le_trans(v, tensor@[j], best_value);
                            }
                        }
                    }
                    proof {
                        T::lemma_le_total(v, v);
                    }
                    best = k;
                    best_value = v;
                }
                k += 1;
            }
            predictions.push(best);
            s += 1;
        }
        predictions
    }
}

/// The (predicted, actual) pairs formed by walking two slices in step,
/// up to the shorter length.
pub open spec fn zipped_pairs(predictions: Seq<usize>, labels: Seq<usize>) -> Seq<(usize, usize)> {
    Seq::new(
        if predictions.len() <= labels.len() {
            predictions.len()
        } else {
            labels.len()
        },
        |i: int| (predictions[i], labels[i]),
    )
}

/// Index `chosen` holds the first maximum of the `count` entries starting
/// at `base`: every entry is at most the chosen one, and every earlier
/// entry is strictly below it.
pub open spec fn is_first_arg_max<T: Scalar>(
    elements: Seq<T>,
    base: int,
    count: int,
    chosen: int,
) -> bool {
    &&& 0 <= chosen < count
    &&& forall|j: int| base <= j < base + count ==> T::le_spec(#[trigger] elements[j], elements[base + chosen])
    &&& forall|j: int| base <= j < base + chosen ==> !T::le_spec(elements[base + chosen], #[trigger] elements[j])
}

/// Feeding a window one pair at a time is the same as windowing the whole
/// extended sequence: evicting first and then appending keeps exactly the
/// newest entries.
pub proof fn lemma_windowed_push(samples: Seq<(usize, usize)>, pair: (usize, usize), capacity: Option<usize>)
    ensures
        windowed(windowed(samples, capacity).push(pair), capacity) == windowed(
            samples.push(pair),
            capacity,
        ),
{
    match capacity {
        Option::None => {
        },
        Option::Some(c) => {
            if samples.len() <= c {
            } else {
                let w = samples.skip(samples.len() - c);
                assert(w.len() == c);
                if c == 0 {
                    assert(w.push(pair).skip(1) =~= samples.push(pair).skip(
                        samples.push(pair).len() - 0,
                    ));
                } else {
                    assert(w.push(pair).skip(w.push(pair).len() - c) =~= samples.push(pair).skip(
                        samples.push(pair).len() - c,
                    ));
                }
            }
        },
    }
}

} // verus!
