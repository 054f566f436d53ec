//! Utility layers that reinterpret shapes without transforming data.

use vstd::prelude::*;

use crate::error::LeafError;
use crate::scalar::Scalar;
use crate::tensor::{capacity_spec, positive_dims, resized_to, Tensor};

verus! {

/// Configuration for a [`Reshape`] layer: the target shape that the
/// input should assume. Preceding dimensions are treated as independent
/// batch dimensions.
#[derive(Debug, Clone)]
pub struct ReshapeConfig {
    /// The target shape.
    pub shape: Vec<usize>,
}

impl ReshapeConfig {
    /// Describe a reshape to the provided target shape.
    pub fn of_shape(shape: &[usize]) -> (r: ReshapeConfig)
        ensures
            r.shape@ == shape@,
    {
        let mut copied: Vec<usize> = Vec::new();
        let n = shape.len();
        let mut i: usize = 0;
        while i < n
            invariant
                i <= n,
                n == shape@.len(),
                copied@ =~= shape@.take(i as int),
            decreases n - i,
        {
            copied.push(shape[i]);
            i += 1;
        }
        assert(copied@ =~= shape@);
        ReshapeConfig { shape: copied }
    }
}

/// Reshape utility layer.
///
/// Works in place: it does not copy or transform elements, it only
/// reinterprets the existing buffer under the configured target shape.
/// Both compute steps do nothing; only shape inference does work.
#[derive(Debug, Clone)]
pub struct Reshape {
    shape: Vec<usize>,
}

impl Reshape {
    /// The configured target shape.
    pub closed spec fn shape_spec(&self) -> Seq<usize> {
        self.shape@
    }

    /// Create a reshape layer from its configuration.
    pub fn from_config(config: &ReshapeConfig) -> (r: Reshape)
        ensures
            r.shape_spec() == config.shape@,
    {
        let mut copied: Vec<usize> = Vec::new();
        let n = config.shape.len();
        let mut i: usize = 0;
        while i < n
            invariant
                i <= n,
                n == config.shape@.len(),
                copied@ =~= config.shape@.take(i as int),
            decreases n - i,
        {
            copied.push(config.shape[i]);
            i += 1;
        }
        assert(copied@ =~= config.shape@);
        Reshape { shape: copied }
    }

    /// The layer computes in place: its output blob is its input blob.
    pub fn compute_in_place(&self) -> (r: bool)
        ensures
            r == true,
    {
        true
    }

    /// The layer does not allocate fresh output blobs of its own.
    pub fn auto_output_blobs(&self) -> (r: bool)
        ensures
            r == false,
    {
        false
    }

    /// Shape inference: give the output-data and output-gradient tensors
    /// the configured target shape. Elements are preserved
    /// index-for-index whenever the target capacity equals the tensor's
    /// current capacity. Fails, changing nothing, exactly when the target
    /// shape has a zero dimension or overflows `usize`.
    pub fn reshape<T: Scalar>(
        &mut self,
        output_data: &mut Vec<Tensor<T>>,
        output_gradient: &mut Vec<Tensor<T>>,
    ) -> (r: Result<(), LeafError>)
        requires
            old(output_data)@.len() >= 1,
            old(output_gradient)@.len() >= 1,
        ensures
            *final(self) == *old(self),
            r.is_ok() <==> (positive_dims(old(self).shape_spec()) && capacity_spec(
                old(self).shape_spec(),
            ) <= usize::MAX),
            r.is_ok() ==> {
                &&& final(output_data)@ == old(output_data)@.update(0, final(output_data)@[0])
                &&& resized_to(
                    old(output_data)@[0],
                    final(output_data)@[0],
                    old(self).shape_spec(),
                    T::zero_spec(),
                )
                &&& final(output_gradient)@ == old(output_gradient)@.update(
                    0,
                    final(output_gradient)@[0],
                )
                &&& resized_to(
                    old(output_gradient)@[0],
                    final(output_gradient)@[0],
                    old(self).shape_spec(),
                    T::zero_spec(),
                )
            },
            r.is_err() ==> (final(output_data)@ == old(output_data)@ && final(output_gradient)@
                == old(output_gradient)@),
    {
        let od: &mut Tensor<T> = &mut output_data[0];
        match od.resize(&self.shape, T::zero()) {
            Ok(()) => {
            },
            Err(e) => {
                return Err(e);
            },
        }
        let og: &mut Tensor<T> = &mut output_gradient[0];
        og.resize_valid(&self.shape, T::zero());
        Ok(())
    }

    /// Forward is a no-op: the output blob already is the input blob.
    pub fn compute_output<T: Scalar>(
        &self,
        _input_data: &Vec<Tensor<T>>,
        output_data: &mut Vec<Tensor<T>>,
    )
        ensures
            *final(output_data) == *old(output_data),
    {
    }

    /// Backward is a no-op: the input gradient already is the output
    /// gradient.
    pub fn compute_input_gradient<T: Scalar>(
        &self,
        _output_gradients: &Vec<Tensor<T>>,
        input_gradients: &mut Vec<Tensor<T>>,
    )
        ensures
            *final(input_gradients) == *old(input_gradients),
    {
    }
}

/// Flattening utility layer: maps an `N x C x H x W` tensor to
/// `N x (C*H*W)`, a degenerate case of [`Reshape`].
#[derive(Debug, Clone)]
pub struct Flatten;

/// Reshaping never loses elements: resizing a tensor to a new shape of
/// equal capacity and then back to its original shape restores both the
/// original shape and every element, index for index.
pub proof fn lemma_reshape_round_trip<T: Scalar>(
    before: Tensor<T>,
    middle: Tensor<T>,
    after: Tensor<T>,
    target: Seq<usize>,
    fill1: T,
    fill2: T,
)
    requires
        before.wf(),
        capacity_spec(target) == before@.len(),
        resized_to(before, middle, target, fill1),
        resized_to(middle, after, before.shape_spec(), fill2),
    ensures
        after.shape_spec() == before.shape_spec(),
        after@ == before@,
{
}

} // verus!
