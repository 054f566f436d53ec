//! Softmax family layers.
//!
//! Both layers keep the input shape and compute through distinct backend
//! primitives. The logarithmic variant is the usual companion of the
//! negative-log-likelihood loss, which lets the backend fold the logarithm
//! into its own kernel.

use vstd::prelude::*;

use crate::activation::activation_reshape_relation;
use crate::backend::Backend;
use crate::scalar::Scalar;
use crate::tensor::{capacity_spec, Tensor};

verus! {

/// Softmax layer: normalizes its input into a probability distribution,
/// as the backend computes it.
#[derive(Debug, Clone)]
pub struct Softmax;

impl Softmax {
    /// Shape inference: resize the input-gradient, output-data and
    /// output-gradient tensors to the input tensor's shape.
    pub fn reshape<T: Scalar>(
        &mut self,
        input_data: &Vec<Tensor<T>>,
        input_gradient: &mut Vec<Tensor<T>>,
        output_data: &mut Vec<Tensor<T>>,
        output_gradient: &mut Vec<Tensor<T>>,
    )
        requires
            input_data@.len() >= 1,
            input_data@[0].wf(),
            old(input_gradient)@.len() >= 1,
            old(output_data)@.len() >= 1,
            old(output_gradient)@.len() >= 1,
        ensures
            *final(self) == *old(self),
            activation_reshape_relation(
                input_data@,
                old(input_gradient)@,
                old(output_data)@,
                old(output_gradient)@,
                final(input_gradient)@,
                final(output_data)@,
                final(output_gradient)@,
            ),
    {
        let cap = input_data[0].capacity();
        let dims = input_data[0].dimensions();
        assert(capacity_spec(dims@) == cap);
        let ig: &mut Tensor<T> = &mut input_gradient[0];
        ig.resize_valid(dims, T::zero());
        let od: &mut Tensor<T> = &mut output_data[0];
        od.resize_valid(dims, T::zero());
        let og: &mut Tensor<T> = &mut output_gradient[0];
        og.resize_valid(dims, T::zero());
    }

    /// Forward: the backend's softmax over the input buffer.
    pub fn compute_output<T: Scalar, B: Backend<T>>(
        &self,
        backend: &B,
        _weights: &Vec<Tensor<T>>,
        input_data: &Vec<Tensor<T>>,
        output_data: &mut Vec<Tensor<T>>,
    )
        requires
            input_data@.len() >= 1,
            old(output_data)@.len() >= 1,
            input_data@[0].wf(),
            old(output_data)@[0].wf(),
            input_data@[0].shape_spec() == old(output_data)@[0].shape_spec(),
        ensures
            final(output_data)@ == old(output_data)@.update(0, final(output_data)@[0]),
            final(output_data)@[0].wf(),
            final(output_data)@[0].shape_spec() == old(output_data)@[0].shape_spec(),
            final(output_data)@[0]@ == B::softmax_of(input_data@[0]@),
            final(output_data)@[0]@.len() == input_data@[0]@.len(),
    {
        let x = &input_data[0];
        let y: &mut Tensor<T> = &mut output_data[0];
        match backend.softmax(x, y) {
            Ok(()) => {
            },
            Err(_) => {
                assert(false);
            },
        }
    }

    /// Backward: the backend's softmax gradient.
    pub fn compute_input_gradient<T: Scalar, B: Backend<T>>(
        &self,
        backend: &B,
        _weights_data: &Vec<Tensor<T>>,
        output_data: &Vec<Tensor<T>>,
        output_gradients: &Vec<Tensor<T>>,
        _input_data: &Vec<Tensor<T>>,
        input_gradients: &mut Vec<Tensor<T>>,
    )
        requires
            output_data@.len() >= 1,
            output_gradients@.len() >= 1,
            old(input_gradients)@.len() >= 1,
            output_data@[0].wf(),
            output_gradients@[0].wf(),
            old(input_gradients)@[0].wf(),
            output_data@[0].shape_spec() == old(input_gradients)@[0].shape_spec(),
            output_gradients@[0].shape_spec() == old(input_gradients)@[0].shape_spec(),
        ensures
            final(input_gradients)@ == old(input_gradients)@.update(0, final(input_gradients)@[0]),
            final(input_gradients)@[0].wf(),
            final(input_gradients)@[0].shape_spec() == old(input_gradients)@[0].shape_spec(),
            final(input_gradients)@[0]@ == B::softmax_grad_of(
                output_data@[0]@,
                output_gradients@[0]@,
            ),
            final(input_gradients)@[0]@.len() == output_data@[0]@.len(),
    {
        let y = &output_data[0];
        let dy = &output_gradients[0];
        let dx: &mut Tensor<T> = &mut input_gradients[0];
        match backend.softmax_grad(y, dy, dx) {
            Ok(()) => {
            },
            Err(_) => {
                assert(false);
            },
        }
    }
}

impl Default for Softmax {
    /// The layer is stateless; its default value is the layer itself.
    fn default() -> (r: Softmax) {
        Softmax
    }
}

/// Logarithmic softmax layer: `y = log(softmax(x))`, as the backend
/// computes it.
#[derive(Debug, Clone)]
pub struct LogSoftmax;

impl LogSoftmax {
    /// Shape inference: resize the input-gradient, output-data and
    /// output-gradient tensors to the input tensor's shape.
    pub fn reshape<T: Scalar>(
        &mut self,
        input_data: &Vec<Tensor<T>>,
        input_gradient: &mut Vec<Tensor<T>>,
        output_data: &mut Vec<Tensor<T>>,
        output_gradient: &mut Vec<Tensor<T>>,
    )
        requires
            input_data@.len() >= 1,
            input_data@[0].wf(),
            old(input_gradient)@.len() >= 1,
            old(output_data)@.len() >= 1,
            old(output_gradient)@.len() >= 1,
        ensures
            *final(self) == *old(self),
            activation_reshape_relation(
                input_data@,
                old(input_gradient)@,
                old(output_data)@,
                old(output_gradient)@,
                final(input_gradient)@,
                final(output_data)@,
                final(output_gradient)@,
            ),
    {
        let cap = input_data[0].capacity();
        let dims = input_data[0].dimensions();
        assert(capacity_spec(dims@) == cap);
        let ig: &mut Tensor<T> = &mut input_gradient[0];
        ig.resize_valid(dims, T::zero());
        let od: &mut Tensor<T> = &mut output_data[0];
        od.resize_valid(dims, T::zero());
        let og: &mut Tensor<T> = &mut output_gradient[0];
        og.resize_valid(dims, T::zero());
    }

    /// Forward: the backend's logarithmic softmax over the input buffer.
    pub fn compute_output<T: Scalar, B: Backend<T>>(
        &self,
        backend: &B,
        _weights: &Vec<Tensor<T>>,
        input_data: &Vec<Tensor<T>>,
        output_data: &mut Vec<Tensor<T>>,
    )
        requires
            input_data@.len() >= 1,
            old(output_data)@.len() >= 1,
            input_data@[0].wf(),
            old(output_data)@[0].wf(),
            input_data@[0].shape_spec() == old(output_data)@[0].shape_spec(),
        ensures
            final(output_data)@ == old(output_data)@.update(0, final(output_data)@[0]),
            final(output_data)@[0].wf(),
            final(output_data)@[0].shape_spec() == old(output_data)@[0].shape_spec(),
            final(output_data)@[0]@ == B::log_softmax_of(input_data@[0]@),
            final(output_data)@[0]@.len() == input_data@[0]@.len(),
    {
        let x = &input_data[0];
        let y: &mut Tensor<T> = &mut output_data[0];
        match backend.log_softmax(x, y) {
            Ok(()) => {
            },
            Err(_) => {
                assert(false);
            },
        }
    }

    /// Backward: the backend's logarithmic softmax gradient.
    pub fn compute_input_gradient<T: Scalar, B: Backend<T>>(
        &self,
        backend: &B,
        _weights_data: &Vec<Tensor<T>>,
        output_data: &Vec<Tensor<T>>,
        output_gradients: &Vec<Tensor<T>>,
        _input_data: &Vec<Tensor<T>>,
        input_gradients: &mut Vec<Tensor<T>>,
    )
        requires
            output_data@.len() >= 1,
            output_gradients@.len() >= 1,
            old(input_gradients)@.len() >= 1,
            output_data@[0].wf(),
            output_gradients@[0].wf(),
            old(input_gradients)@[0].wf(),
            output_data@[0].shape_spec() == old(input_gradients)@[0].shape_spec(),
            output_gradients@[0].shape_spec() == old(input_gradients)@[0].shape_spec(),
        ensures
            final(input_gradients)@ == old(input_gradients)@.update(0, final(input_gradients)@[0]),
            final(input_gradients)@[0].wf(),
            final(input_gradients)@[0].shape_spec() == old(input_gradients)@[0].shape_spec(),
            final(input_gradients)@[0]@ == B::log_softmax_grad_of(
                output_data@[0]@,
                output_gradients@[0]@,
            ),
            final(input_gradients)@[0]@.len() == output_data@[0]@.len(),
    {
        let y = &output_data[0];
        let dy = &output_gradients[0];
        let dx: &mut Tensor<T> = &mut input_gradients[0];
        match backend.log_softmax_grad(y, dy, dx) {
            Ok(()) => {
            },
            Err(_) => {
                assert(false);
            },
        }
    }
}

impl Default for LogSoftmax {
    /// The layer is stateless; its default value is the layer itself.
    fn default() -> (r: LogSoftmax) {
        LogSoftmax
    }
}

} // verus!
