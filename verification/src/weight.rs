//! Configuration of weights and their initialization.

use vstd::prelude::*;

use crate::scalar::Scalar;
use crate::tensor::{shapes_equal, Tensor};

verus! {

/// How the shapes of shared weights are checked against each other.
#[derive(Debug, Copy, Clone, PartialEq, Eq, Structural)]
pub enum DimCheckMode {
    /// Strict requires that shapes match.
    Strict,
    /// Permissive requires only the count of weights to match.
    Permissive,
}

/// A descriptive error for a weight-sharing mismatch, naming the offending
/// weight, the layer that owns it, and the layer that asked to share it.
#[derive(Debug, Clone)]
pub struct SharingError {
    /// The name of the weight that could not be shared.
    pub weight_name: String,
    /// The layer that owns the weight.
    pub owner_name: String,
    /// The layer that asked to share the weight.
    pub layer_name: String,
}

/// The initialization strategy applied once to a weight tensor at
/// creation.
#[derive(Debug, Copy, Clone)]
pub enum FillerType<T> {
    /// Fill the weight tensor with one constant value.
    Constant {
        /// The value every element is set to.
        value: T,
    },
    /// Fill the weight tensor with independent draws from the
    /// Glorot/Xavier uniform distribution.
    Glorot {
        /// Number of input nodes for each output.
        input_size: usize,
        /// Number of output nodes for each input.
        output_size: usize,
    },
}

impl<T: Scalar> FillerType<T> {
    /// Fill a weight tensor as this strategy prescribes. The shape is
    /// kept; a constant filler sets every element to its value, and the
    /// Glorot filler replaces every element by a fresh draw.
    pub fn fill(&self, weight: &mut Tensor<T>)
        requires
            old(weight).wf(),
        ensures
            final(weight).wf(),
            final(weight).shape_spec() == old(weight).shape_spec(),
            final(weight)@.len() == old(weight)@.len(),
            match *self {
                FillerType::Constant { value } => final(weight)@ == Seq::new(
                    old(weight)@.len(),
                    |i: int| value,
                ),
                FillerType::Glorot { input_size, output_size } => forall|i: int|
                    0 <= i < final(weight)@.len() ==> T::le_spec(
                        T::neg_spec(T::glorot_bound(input_size, output_size)),
                        #[trigger] final(weight)@[i],
                    ) && T::le_spec(
                        final(weight)@[i],
                        T::glorot_bound(input_size, output_size),
                    ),
            },
    {
        match *self {
            FillerType::Constant { value } => {
                Self::fill_constant(weight, value);
            },
            FillerType::Glorot { input_size, output_size } => {
                Self::fill_glorot(weight, input_size, output_size);
            },
        }
    }

    /// Set every element of the weight tensor to `value`.
    pub fn fill_constant(weight: &mut Tensor<T>, value: T)
        requires
            old(weight).wf(),
        ensures
            final(weight).wf(),
            final(weight).shape_spec() == old(weight).shape_spec(),
            final(weight)@ == Seq::new(old(weight)@.len(), |i: int| value),
    {
        let n = weight.elements().len();
        let mut i: usize = 0;
        while i < n
            invariant
                i <= n,
                n == weight@.len(),
                weight.wf(),
                weight.shape_spec() == old(weight).shape_spec(),
                forall|j: int| 0 <= j < i ==> weight@[j] == value,
            decreases n - i,
        {
            weight.set(i, value);
            i += 1;
        }
        assert(weight@ =~= Seq::new(old(weight)@.len(), |i: int| value));
    }

    /// Replace every element of the weight tensor by a fresh draw from
    /// the Glorot/Xavier uniform distribution for the given fan-in and
    /// fan-out. The draws may be random; every written element lies
    /// within plus or minus the distribution's bound.
    pub fn fill_glorot(weight: &mut Tensor<T>, num_inputs: usize, num_outputs: usize)
        requires
            old(weight).wf(),
        ensures
            final(weight).wf(),
            final(weight).shape_spec() == old(weight).shape_spec(),
            final(weight)@.len() == old(weight)@.len(),
            forall|i: int|
                0 <= i < final(weight)@.len() ==> T::le_spec(
                    T::neg_spec(T::glorot_bound(num_inputs, num_outputs)),
                    #[trigger] final(weight)@[i],
                ) && T::le_spec(final(weight)@[i], T::glorot_bound(num_inputs, num_outputs)),
    {
        let n = weight.elements().len();
        let mut i: usize = 0;
        while i < n
            invariant
                i <= n,
                n == weight@.len(),
                weight.wf(),
                weight.shape_spec() == old(weight).shape_spec(),
                forall|j: int|
                    0 <= j < i ==> T::le_spec(
                        T::neg_spec(T::glorot_bound(num_inputs, num_outputs)),
                        #[trigger] weight@[j],
                    ) && T::le_spec(weight@[j], T::glorot_bound(num_inputs, num_outputs)),
            decreases n - i,
        {
            let draw = T::glorot(num_inputs, num_outputs);
            weight.set(i, draw);
            i += 1;
        }
    }
}

/// Training configuration for one weight blob.
#[derive(Debug, Clone)]
pub struct WeightConfig<T> {
    /// The name of the weight blob; useful for sharing weights among
    /// layers, and never required otherwise. To share a weight between
    /// two layers, give it a non-empty name.
    pub name: String,
    /// Whether shared weights must have the same shape, or only the same
    /// element count.
    pub share_mode: DimCheckMode,
    /// The multiplier on the global learning rate for this weight.
    pub lr_mult: Option<T>,
    /// The multiplier on the global weight decay for this weight.
    pub decay_mult: Option<T>,
    /// The filler that initializes the weight tensor.
    pub filler: Option<FillerType<T>>,
}

impl<T> Default for WeightConfig<T> {
    /// An unnamed weight with strict sharing, no explicit multipliers and
    /// no filler.
    fn default() -> (r: WeightConfig<T>)
        ensures
            r.name@ == Seq::<char>::empty(),
            r.share_mode == DimCheckMode::Strict,
            r.lr_mult is None,
            r.decay_mult is None,
            r.filler is None,
    {
        WeightConfig {
            name: String::new(),
            share_mode: DimCheckMode::Strict,
            lr_mult: None,
            decay_mult: None,
            filler: None,
        }
    }
}

impl<T: Scalar> WeightConfig<T> {
    /// Check the shapes of two tensors that are to share this weight,
    /// according to the configured mode: strict sharing asks for equal
    /// shapes, permissive sharing only for equal element counts. On a
    /// mismatch the error names the weight, its owner layer and the
    /// requesting layer.
    pub fn check_dimensions<E: Copy>(
        &self,
        tensor_one: &Tensor<E>,
        tensor_two: &Tensor<E>,
        param_name: String,
        owner_name: String,
        layer_name: String,
    ) -> (r: Result<(), SharingError>)
        requires
            tensor_one.wf(),
            tensor_two.wf(),
        ensures
            r.is_ok() <==> match self.share_mode {
                DimCheckMode::Strict => tensor_one.shape_spec() == tensor_two.shape_spec(),
                DimCheckMode::Permissive => tensor_one@.len() == tensor_two@.len(),
            },
            match r {
                Ok(()) => true,
                Err(e) => {
                    &&& e.weight_name@ == param_name@
                    &&& e.owner_name@ == owner_name@
                    &&& e.layer_name@ == layer_name@
                },
            },
    {
        let equal = match self.share_mode {
            DimCheckMode::Strict => shapes_equal(tensor_one.dimensions(), tensor_two.dimensions()),
            DimCheckMode::Permissive => tensor_one.capacity() == tensor_two.capacity(),
        };
        if equal {
            Ok(())
        } else {
            Err(
                SharingError {
                    weight_name: param_name,
                    owner_name: owner_name,
                    layer_name: layer_name,
                },
            )
        }
    }

    /// The multiplier on the global learning rate for this weight; one
    /// when none is configured.
    pub fn lr_mult(&self) -> (r: T)
        ensures
            r == match self.lr_mult {
                Some(v) => v,
                None => T::one_spec(),
            },
    {
        match self.lr_mult {
            Some(v) => v,
            None => T::one(),
        }
    }

    /// The multiplier on the global weight decay for this weight; one
    /// when none is configured.
    pub fn decay_mult(&self) -> (r: T)
        ensures
            r == match self.decay_mult {
                Some(v) => v,
                None => T::one_spec(),
            },
    {
        match self.decay_mult {
            Some(v) => v,
            None => T::one(),
        }
    }
}

} // verus!
