//! The backend capability: the provider of numeric primitives.
//!
//! The engine never computes an activation or a linear combination itself;
//! it calls a [`Backend`], injected by the caller, and relies only on the
//! contracts written here. Where a primitive's result is expressible in
//! the scalar algebra (the rectifier, `axpby`, `copy`), the contract pins
//! it exactly; where it is not (the sigmoid family, the softmax family),
//! the contract binds the result to a specification function that the
//! backend implementation itself names, so repeated calls are still known
//! to be the same pure function of the input.
//!
//! Every operation fails, leaving its destination unchanged, exactly when
//! the shapes involved are incompatible.

use vstd::prelude::*;

use crate::error::LeafError;
use crate::scalar::Scalar;
use crate::tensor::Tensor;

verus! {

/// What the rectifier returns for one element: `max(0, x)`.
pub open spec fn relu_of<T: Scalar>(x: T) -> T {
    if T::le_spec(x, T::zero_spec()) {
        T::zero_spec()
    } else {
        x
    }
}

/// What the rectifier's gradient returns for one element:
/// `dy` where the output was positive, zero elsewhere.
pub open spec fn relu_grad_of<T: Scalar>(y: T, dy: T) -> T {
    if T::le_spec(y, T::zero_spec()) {
        T::zero_spec()
    } else {
        dy
    }
}

/// What `axpby` leaves in one destination element:
/// `alpha * x + beta * y`.
pub open spec fn axpby_of<T: Scalar>(alpha: T, x: T, beta: T, y: T) -> T {
    T::add_spec(T::mul_spec(alpha, x), T::mul_spec(beta, y))
}

/// A provider of the numeric primitives the engine consumes.
///
/// Implementations live outside the verified core (a float backend, a
/// device backend); the engine is verified against these contracts for
/// every implementation that meets them.
pub trait Backend<T: Scalar> {
    /// The sigmoid this backend computes, elementwise.
    spec fn sigmoid_of(x: T) -> T;

    /// The sigmoid gradient this backend computes, elementwise, from the
    /// forward output `y`, the output gradient `dy` and the input `x`.
    spec fn sigmoid_grad_of(y: T, dy: T, x: T) -> T;

    /// The hyperbolic tangent this backend computes, elementwise.
    spec fn tanh_of(x: T) -> T;

    /// The hyperbolic tangent gradient this backend computes, elementwise.
    spec fn tanh_grad_of(y: T, dy: T, x: T) -> T;

    /// The softmax this backend computes over a buffer. The default
    /// names no particular function; an implementation proved against
    /// this trait overrides it with its own.
    open spec fn softmax_of(x: Seq<T>) -> Seq<T> {
        arbitrary()
    }

    /// The softmax gradient this backend computes from the forward
    /// output and the output gradient. The default names no particular
    /// function.
    open spec fn softmax_grad_of(y: Seq<T>, dy: Seq<T>) -> Seq<T> {
        arbitrary()
    }

    /// The logarithmic softmax this backend computes over a buffer. The
    /// default names no particular function.
    open spec fn log_softmax_of(x: Seq<T>) -> Seq<T> {
        arbitrary()
    }

    /// The logarithmic softmax gradient this backend computes from the
    /// forward output and the output gradient. The default names no
    /// particular function.
    open spec fn log_softmax_grad_of(y: Seq<T>, dy: Seq<T>) -> Seq<T> {
        arbitrary()
    }

    /// `y := max(0, x)` elementwise.
    fn relu(&self, x: &Tensor<T>, y: &mut Tensor<T>) -> (r: Result<(), LeafError>)
        requires
            x.wf(),
            old(y).wf(),
        ensures
            final(y).wf(),
            r.is_ok() <==> x.shape_spec() == old(y).shape_spec(),
            r.is_err() ==> *final(y) == *old(y),
            r.is_ok() ==> {
                &&& final(y).shape_spec() == old(y).shape_spec()
                &&& final(y)@.len() == x@.len()
                &&& forall|i: int| 0 <= i < x@.len() ==> final(y)@[i] == relu_of::<T>(x@[i])
            },
    ;

    /// `dx := dy` where `y` is positive, zero elsewhere.
    fn relu_grad(
        &self,
        y: &Tensor<T>,
        dy: &Tensor<T>,
        x: &Tensor<T>,
        dx: &mut Tensor<T>,
    ) -> (r: Result<(), LeafError>)
        requires
            y.wf(),
            dy.wf(),
            x.wf(),
            old(dx).wf(),
        ensures
            final(dx).wf(),
            r.is_ok() <==> (y.shape_spec() == old(dx).shape_spec() && dy.shape_spec()
                == old(dx).shape_spec() && x.shape_spec() == old(dx).shape_spec()),
            r.is_err() ==> *final(dx) == *old(dx),
            r.is_ok() ==> {
                &&& final(dx).shape_spec() == old(dx).shape_spec()
                &&& final(dx)@.len() == y@.len()
                &&& forall|i: int|
                    0 <= i < y@.len() ==> final(dx)@[i] == relu_grad_of::<T>(y@[i], dy@[i])
            },
    ;

    /// `y := sigmoid(x)` elementwise.
    fn sigmoid(&self, x: &Tensor<T>, y: &mut Tensor<T>) -> (r: Result<(), LeafError>)
        requires
            x.wf(),
            old(y).wf(),
        ensures
            final(y).wf(),
            r.is_ok() <==> x.shape_spec() == old(y).shape_spec(),
            r.is_err() ==> *final(y) == *old(y),
            r.is_ok() ==> {
                &&& final(y).shape_spec() == old(y).shape_spec()
                &&& final(y)@.len() == x@.len()
                &&& forall|i: int| 0 <= i < x@.len() ==> final(y)@[i] == Self::sigmoid_of(x@[i])
            },
    ;

    /// `dx := sigmoid'` composed with `dy`, elementwise.
    fn sigmoid_grad(
        &self,
        y: &Tensor<T>,
        dy: &Tensor<T>,
        x: &Tensor<T>,
        dx: &mut Tensor<T>,
    ) -> (r: Result<(), LeafError>)
        requires
            y.wf(),
            dy.wf(),
            x.wf(),
            old(dx).wf(),
        ensures
            final(dx).wf(),
            r.is_ok() <==> (y.shape_spec() == old(dx).shape_spec() && dy.shape_spec()
                == old(dx).shape_spec() && x.shape_spec() == old(dx).shape_spec()),
            r.is_err() ==> *final(dx) == *old(dx),
            r.is_ok() ==> {
                &&& final(dx).shape_spec() == old(dx).shape_spec()
                &&& final(dx)@.len() == y@.len()
                &&& forall|i: int|
                    0 <= i < y@.len() ==> final(dx)@[i] == Self::sigmoid_grad_of(
                        y@[i],
                        dy@[i],
                        x@[i],
                    )
            },
    ;

    /// `y := tanh(x)` elementwise.
    fn tanh(&self, x: &Tensor<T>, y: &mut Tensor<T>) -> (r: Result<(), LeafError>)
        requires
            x.wf(),
            old(y).wf(),
        ensures
            final(y).wf(),
            r.is_ok() <==> x.shape_spec() == old(y).shape_spec(),
            r.is_err() ==> *final(y) == *old(y),
            r.is_ok() ==> {
                &&& final(y).shape_spec() == old(y).shape_spec()
                &&& final(y)@.len() == x@.len()
                &&& forall|i: int| 0 <= i < x@.len() ==> final(y)@[i] == Self::tanh_of(x@[i])
            },
    ;

    /// `dx := tanh'` composed with `dy`, elementwise.
    fn tanh_grad(
        &self,
        y: &Tensor<T>,
        dy: &Tensor<T>,
        x: &Tensor<T>,
        dx: &mut Tensor<T>,
    ) -> (r: Result<(), LeafError>)
        requires
            y.wf(),
            dy.wf(),
            x.wf(),
            old(dx).wf(),
        ensures
            final(dx).wf(),
            r.is_ok() <==> (y.shape_spec() == old(dx).shape_spec() && dy.shape_spec()
                == old(dx).shape_spec() && x.shape_spec() == old(dx).shape_spec()),
            r.is_err() ==> *final(dx) == *old(dx),
            r.is_ok() ==> {
                &&& final(dx).shape_spec() == old(dx).shape_spec()
                &&& final(dx)@.len() == y@.len()
                &&& forall|i: int|
                    0 <= i < y@.len() ==> final(dx)@[i] == Self::tanh_grad_of(y@[i], dy@[i], x@[i])
            },
    ;

    /// `y := softmax(x)` over the whole buffer.
    fn softmax(&self, x: &Tensor<T>, y: &mut Tensor<T>) -> (r: Result<(), LeafError>)
        requires
            x.wf(),
            old(y).wf(),
        ensures
            final(y).wf(),
            r.is_ok() <==> x.shape_spec() == old(y).shape_spec(),
            r.is_err() ==> *final(y) == *old(y),
            r.is_ok() ==> {
                &&& final(y).shape_spec() == old(y).shape_spec()
                &&& final(y)@ == Self::softmax_of(x@)
                &&& final(y)@.len() == x@.len()
            },
    ;

    /// `dx := softmax'` composed with `dy`.
    fn softmax_grad(&self, y: &Tensor<T>, dy: &Tensor<T>, dx: &mut Tensor<T>) -> (r: Result<
        (),
        LeafError,
    >)
        requires
            y.wf(),
            dy.wf(),
            old(dx).wf(),
        ensures
            final(dx).wf(),
            r.is_ok() <==> (y.shape_spec() == old(dx).shape_spec() && dy.shape_spec()
                == old(dx).shape_spec()),
            r.is_err() ==> *final(dx) == *old(dx),
            r.is_ok() ==> {
                &&& final(dx).shape_spec() == old(dx).shape_spec()
                &&& final(dx)@ == Self::softmax_grad_of(y@, dy@)
                &&& final(dx)@.len() == y@.len()
            },
    ;

    /// `y := log(softmax(x))` over the whole buffer.
    fn log_softmax(&self, x: &Tensor<T>, y: &mut Tensor<T>) -> (r: Result<(), LeafError>)
        requires
            x.wf(),
            old(y).wf(),
        ensures
            final(y).wf(),
            r.is_ok() <==> x.shape_spec() == old(y).shape_spec(),
            r.is_err() ==> *final(y) == *old(y),
            r.is_ok() ==> {
                &&& final(y).shape_spec() == old(y).shape_spec()
                &&& final(y)@ == Self::log_softmax_of(x@)
                &&& final(y)@.len() == x@.len()
            },
    ;

    /// `dx := (log ∘ softmax)'` composed with `dy`.
    fn log_softmax_grad(&self, y: &Tensor<T>, dy: &Tensor<T>, dx: &mut Tensor<T>) -> (r: Result<
        (),
        LeafError,
    >)
        requires
            y.wf(),
            dy.wf(),
            old(dx).wf(),
        ensures
            final(dx).wf(),
            r.is_ok() <==> (y.shape_spec() == old(dx).shape_spec() && dy.shape_spec()
                == old(dx).shape_spec()),
            r.is_err() ==> *final(dx) == *old(dx),
            r.is_ok() ==> {
                &&& final(dx).shape_spec() == old(dx).shape_spec()
                &&& final(dx)@ == Self::log_softmax_grad_of(y@, dy@)
                &&& final(dx)@.len() == y@.len()
            },
    ;

    /// `y := alpha * x + beta * y`, elementwise, in place.
    fn axpby(&self, alpha: T, x: &Tensor<T>, beta: T, y: &mut Tensor<T>) -> (r: Result<
        (),
        LeafError,
    >)
        requires
            x.wf(),
            old(y).wf(),
        ensures
            final(y).wf(),
            r.is_ok() <==> x.shape_spec() == old(y).shape_spec(),
            r.is_err() ==> *final(y) == *old(y),
            r.is_ok() ==> {
                &&& final(y).shape_spec() == old(y).shape_spec()
                &&& final(y)@.len() == old(y)@.len()
                &&& forall|i: int|
                    0 <= i < old(y)@.len() ==> final(y)@[i] == axpby_of::<T>(
                        alpha,
                        x@[i],
                        beta,
                        old(y)@[i],
                    )
            },
    ;

    /// `y := x`, element for element.
    fn copy(&self, x: &Tensor<T>, y: &mut Tensor<T>) -> (r: Result<(), LeafError>)
        requires
            x.wf(),
            old(y).wf(),
        ensures
            final(y).wf(),
            r.is_ok() <==> x.shape_spec() == old(y).shape_spec(),
            r.is_err() ==> *final(y) == *old(y),
            r.is_ok() ==> {
                &&& final(y).shape_spec() == old(y).shape_spec()
                &&& final(y)@ == x@
            },
    ;
}

} // verus!
