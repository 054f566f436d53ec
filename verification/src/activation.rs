//! Nonlinear activation layers.
//!
//! Activation layers take one input tensor, apply an elementwise
//! nonlinearity through the backend, and produce one output tensor of the
//! same shape. They are stateless: they own no weights, and their
//! parameter-gradient step does nothing.

use vstd::prelude::*;

use crate::backend::{relu_grad_of, relu_of, Backend};
use crate::scalar::Scalar;
use crate::tensor::{capacity_spec, resized_to, Tensor};

verus! {

/// What the shared activation shape-inference step does: when an input is
/// bound, the input-gradient, output-data and output-gradient tensors in
/// slot 0 are resized to the input tensor's shape (keeping their elements
/// when the capacity is unchanged, clearing to zero otherwise) and every
/// other slot is untouched; with no input bound, nothing changes.
pub open spec fn activation_reshape_relation<T: Scalar>(
    input_data: Seq<Tensor<T>>,
    old_ig: Seq<Tensor<T>>,
    old_od: Seq<Tensor<T>>,
    old_og: Seq<Tensor<T>>,
    new_ig: Seq<Tensor<T>>,
    new_od: Seq<Tensor<T>>,
    new_og: Seq<Tensor<T>>,
) -> bool {
    if input_data.len() == 0 {
        new_ig == old_ig && new_od == old_od && new_og == old_og
    } else {
        let s = input_data[0].shape_spec();
        &&& new_ig == old_ig.update(0, new_ig[0])
        &&& resized_to(old_ig[0], new_ig[0], s, T::zero_spec())
        &&& new_od == old_od.update(0, new_od[0])
        &&& resized_to(old_od[0], new_od[0], s, T::zero_spec())
        &&& new_og == old_og.update(0, new_og[0])
        &&& resized_to(old_og[0], new_og[0], s, T::zero_spec())
    }
}

/// The reusable partial behaviour shared by all activation layers: exactly
/// one input blob, exactly one output blob, and shape inference that
/// carries the input tensor's shape to the gradient and output tensors.
pub trait ActivationLayer: Sized {
    /// An activation layer consumes exactly one input blob.
    fn exact_num_input_blobs(&self) -> (r: Option<usize>)
        ensures
            r == Some(1usize),
    {
        Some(1)
    }

    /// An activation layer produces exactly one output blob.
    fn exact_num_output_blobs(&self) -> (r: Option<usize>)
        ensures
            r == Some(1usize),
    {
        Some(1)
    }

    /// Shape inference shared by layers that do not change shape: resize
    /// the input-gradient, output-data and output-gradient tensors to
    /// match the input tensor's shape. Does nothing when no input is
    /// bound.
    fn reshape<T: Scalar>(
        &mut self,
        input_data: &Vec<Tensor<T>>,
        input_gradient: &mut Vec<Tensor<T>>,
        output_data: &mut Vec<Tensor<T>>,
        output_gradient: &mut Vec<Tensor<T>>,
    )
        requires
            input_data@.len() >= 1 ==> {
                &&& input_data@[0].wf()
                &&& old(input_gradient)@.len() >= 1
                &&& old(output_data)@.len() >= 1
                &&& old(output_gradient)@.len() >= 1
            },
        ensures
            *final(self) == *old(self),
            activation_reshape_relation(
                input_data@,
                old(input_gradient)@,
                old(output_data)@,
                old(output_gradient)@,
                final(input_gradient)@,
                final(output_data)@,
                final(output_gradient)@,
            ),
    {
        if input_data.len() >= 1 {
            let cap = input_data[0].capacity();
            let dims = input_data[0].dimensions();
            assert(capacity_spec(dims@) == cap);
            let ig: &mut Tensor<T> = &mut input_gradient[0];
            ig.resize_valid(dims, T::zero());
            let od: &mut Tensor<T> = &mut output_data[0];
            od.resize_valid(dims, T::zero());
            let og: &mut Tensor<T> = &mut output_gradient[0];
            og.resize_valid(dims, T::zero());
        }
    }
}

/// For every activation layer and every valid input shape: after shape
/// inference, the input-gradient, output-data and output-gradient tensors
/// all have exactly the input tensor's shape.
pub proof fn lemma_activation_reshape_shapes<T: Scalar>(
    input_data: Seq<Tensor<T>>,
    old_ig: Seq<Tensor<T>>,
    old_od: Seq<Tensor<T>>,
    old_og: Seq<Tensor<T>>,
    new_ig: Seq<Tensor<T>>,
    new_od: Seq<Tensor<T>>,
    new_og: Seq<Tensor<T>>,
)
    requires
        input_data.len() >= 1,
        activation_reshape_relation(input_data, old_ig, old_od, old_og, new_ig, new_od, new_og),
    ensures
        new_ig[0].shape_spec() == input_data[0].shape_spec(),
        new_od[0].shape_spec() == input_data[0].shape_spec(),
        new_og[0].shape_spec() == input_data[0].shape_spec(),
{
}

/// Rectified Linear Unit activation layer: `y = max(0, x)`.
#[derive(Debug, Clone)]
pub struct ReLU;

impl ActivationLayer for ReLU {

}

impl ReLU {
    /// Forward: `y = max(0, x)` elementwise, through the backend.
    pub fn compute_output<T: Scalar, B: Backend<T>>(
        &self,
        backend: &B,
        _weights: &Vec<Tensor<T>>,
        input_data: &Vec<Tensor<T>>,
        output_data: &mut Vec<Tensor<T>>,
    )
        requires
            input_data@.len() >= 1,
            old(output_data)@.len() >= 1,
            input_data@[0].wf(),
            old(output_data)@[0].wf(),
            input_data@[0].shape_spec() == old(output_data)@[0].shape_spec(),
        ensures
            final(output_data)@ == old(output_data)@.update(0, final(output_data)@[0]),
            final(output_data)@[0].wf(),
            final(output_data)@[0].shape_spec() == old(output_data)@[0].shape_spec(),
            final(output_data)@[0]@.len() == input_data@[0]@.len(),
            forall|i: int|
                0 <= i < input_data@[0]@.len() ==> final(output_data)@[0]@[i] == relu_of::<T>(
                    input_data@[0]@[i],
                ),
    {
        let x = &input_data[0];
        let y: &mut Tensor<T> = &mut output_data[0];
        match backend.relu(x, y) {
            Ok(()) => {
            },
            Err(_) => {
                assert(false);
            },
        }
    }

    /// Backward: `dx = dy` where the forward output was positive, zero
    /// elsewhere, through the backend.
    pub fn compute_input_gradient<T: Scalar, B: Backend<T>>(
        &self,
        backend: &B,
        _weights_data: &Vec<Tensor<T>>,
        output_data: &Vec<Tensor<T>>,
        output_gradients: &Vec<Tensor<T>>,
        input_data: &Vec<Tensor<T>>,
        input_gradients: &mut Vec<Tensor<T>>,
    )
        requires
            output_data@.len() >= 1,
            output_gradients@.len() >= 1,
            input_data@.len() >= 1,
            old(input_gradients)@.len() >= 1,
            output_data@[0].wf(),
            output_gradients@[0].wf(),
            input_data@[0].wf(),
            old(input_gradients)@[0].wf(),
            output_data@[0].shape_spec() == old(input_gradients)@[0].shape_spec(),
            output_gradients@[0].shape_spec() == old(input_gradients)@[0].shape_spec(),
            input_data@[0].shape_spec() == old(input_gradients)@[0].shape_spec(),
        ensures
            final(input_gradients)@ == old(input_gradients)@.update(0, final(input_gradients)@[0]),
            final(input_gradients)@[0].wf(),
            final(input_gradients)@[0].shape_spec() == old(input_gradients)@[0].shape_spec(),
            final(input_gradients)@[0]@.len() == output_data@[0]@.len(),
            forall|i: int|
                0 <= i < output_data@[0]@.len() ==> final(input_gradients)@[0]@[i]
                    == relu_grad_of::<T>(output_data@[0]@[i], output_gradients@[0]@[i]),
    {
        let y = &output_data[0];
        let dy = &output_gradients[0];
        let x = &input_data[0];
        let dx: &mut Tensor<T> = &mut input_gradients[0];
        match backend.relu_grad(y, dy, x, dx) {
            Ok(()) => {
            },
            Err(_) => {
                assert(false);
            },
        }
    }
}

/// Sigmoid activation layer: `y = 1 / (1 + e^(-x))`, as the backend
/// computes it.
#[derive(Debug, Clone)]
pub struct Sigmoid;

impl ActivationLayer for Sigmoid {

}

impl Sigmoid {
    /// Forward: the backend's sigmoid, elementwise.
    pub fn compute_output<T: Scalar, B: Backend<T>>(
        &self,
        backend: &B,
        _weights: &Vec<Tensor<T>>,
        input_data: &Vec<Tensor<T>>,
        output_data: &mut Vec<Tensor<T>>,
    )
        requires
            input_data@.len() >= 1,
            old(output_data)@.len() >= 1,
            input_data@[0].wf(),
            old(output_data)@[0].wf(),
            input_data@[0].shape_spec() == old(output_data)@[0].shape_spec(),
        ensures
            final(output_data)@ == old(output_data)@.update(0, final(output_data)@[0]),
            final(output_data)@[0].wf(),
            final(output_data)@[0].shape_spec() == old(output_data)@[0].shape_spec(),
            final(output_data)@[0]@.len() == input_data@[0]@.len(),
            forall|i: int|
                0 <= i < input_data@[0]@.len() ==> final(output_data)@[0]@[i] == B::sigmoid_of(
                    input_data@[0]@[i],
                ),
    {
        let x = &input_data[0];
        let y: &mut Tensor<T> = &mut output_data[0];
        match backend.sigmoid(x, y) {
            Ok(()) => {
            },
            Err(_) => {
                assert(false);
            },
        }
    }

    /// Backward: the backend's sigmoid gradient, elementwise.
    pub fn compute_input_gradient<T: Scalar, B: Backend<T>>(
        &self,
        backend: &B,
        _weights_data: &Vec<Tensor<T>>,
        output_data: &Vec<Tensor<T>>,
        output_gradients: &Vec<Tensor<T>>,
        input_data: &Vec<Tensor<T>>,
        input_gradients: &mut Vec<Tensor<T>>,
    )
        requires
            output_data@.len() >= 1,
            output_gradients@.len() >= 1,
            input_data@.len() >= 1,
            old(input_gradients)@.len() >= 1,
            output_data@[0].wf(),
            output_gradients@[0].wf(),
            input_data@[0].wf(),
            old(input_gradients)@[0].wf(),
            output_data@[0].shape_spec() == old(input_gradients)@[0].shape_spec(),
            output_gradients@[0].shape_spec() == old(input_gradients)@[0].shape_spec(),
            input_data@[0].shape_spec() == old(input_gradients)@[0].shape_spec(),
        ensures
            final(input_gradients)@ == old(input_gradients)@.update(0, final(input_gradients)@[0]),
            final(input_gradients)@[0].wf(),
            final(input_gradients)@[0].shape_spec() == old(input_gradients)@[0].shape_spec(),
            final(input_gradients)@[0]@.len() == output_data@[0]@.len(),
            forall|i: int|
                0 <= i < output_data@[0]@.len() ==> final(input_gradients)@[0]@[i]
                    == B::sigmoid_grad_of(
                    output_data@[0]@[i],
                    output_gradients@[0]@[i],
                    input_data@[0]@[i],
                ),
    {
        let y = &output_data[0];
        let dy = &output_gradients[0];
        let x = &input_data[0];
        let dx: &mut Tensor<T> = &mut input_gradients[0];
        match backend.sigmoid_grad(y, dy, x, dx) {
            Ok(()) => {
            },
            Err(_) => {
                assert(false);
            },
        }
    }
}

/// Hyperbolic tangent activation layer: `y = tanh(x)`, as the backend
/// computes it.
#[derive(Debug, Clone)]
pub struct TanH;

impl ActivationLayer for TanH {

}

impl TanH {
    /// Forward: the backend's hyperbolic tangent, elementwise.
    pub fn compute_output<T: Scalar, B: Backend<T>>(
        &self,
        backend: &B,
        _weights: &Vec<Tensor<T>>,
        input_data: &Vec<Tensor<T>>,
        output_data: &mut Vec<Tensor<T>>,
    )
        requires
            input_data@.len() >= 1,
            old(output_data)@.len() >= 1,
            input_data@[0].wf(),
            old(output_data)@[0].wf(),
            input_data@[0].shape_spec() == old(output_data)@[0].shape_spec(),
        ensures
            final(output_data)@ == old(output_data)@.update(0, final(output_data)@[0]),
            final(output_data)@[0].wf(),
            final(output_data)@[0].shape_spec() == old(output_data)@[0].shape_spec(),
            final(output_data)@[0]@.len() == input_data@[0]@.len(),
            forall|i: int|
                0 <= i < input_data@[0]@.len() ==> final(output_data)@[0]@[i] == B::tanh_of(
                    input_data@[0]@[i],
                ),
    {
        let x = &input_data[0];
        let y: &mut Tensor<T> = &mut output_data[0];
        match backend.tanh(x, y) {
            Ok(()) => {
            },
            Err(_) => {
                assert(false);
            },
        }
    }

    /// Backward: the backend's hyperbolic tangent gradient, elementwise.
    pub fn compute_input_gradient<T: Scalar, B: Backend<T>>(
        &self,
        backend: &B,
        _weights_data: &Vec<Tensor<T>>,
        output_data: &Vec<Tensor<T>>,
        output_gradients: &Vec<Tensor<T>>,
        input_data: &Vec<Tensor<T>>,
        input_gradients: &mut Vec<Tensor<T>>,
    )
        requires
            output_data@.len() >= 1,
            output_gradients@.len() >= 1,
            input_data@.len() >= 1,
            old(input_gradients)@.len() >= 1,
            output_data@[0].wf(),
            output_gradients@[0].wf(),
            input_data@[0].wf(),
            old(input_gradients)@[0].wf(),
            output_data@[0].shape_spec() == old(input_gradients)@[0].shape_spec(),
            output_gradients@[0].shape_spec() == old(input_gradients)@[0].shape_spec(),
            input_data@[0].shape_spec() == old(input_gradients)@[0].shape_spec(),
        ensures
            final(input_gradients)@ == old(input_gradients)@.update(0, final(input_gradients)@[0]),
            final(input_gradients)@[0].wf(),
            final(input_gradients)@[0].shape_spec() == old(input_gradients)@[0].shape_spec(),
            final(input_gradients)@[0]@.len() == output_data@[0]@.len(),
            forall|i: int|
                0 <= i < output_data@[0]@.len() ==> final(input_gradients)@[0]@[i]
                    == B::tanh_grad_of(
                    output_data@[0]@[i],
                    output_gradients@[0]@[i],
                    input_data@[0]@[i],
                ),
    {
        let y = &output_data[0];
        let dy = &output_gradients[0];
        let x = &input_data[0];
        let dx: &mut Tensor<T> = &mut input_gradients[0];
        match backend.tanh_grad(y, dy, x, dx) {
            Ok(()) => {
            },
            Err(_) => {
                assert(false);
            },
        }
    }
}

} // verus!
