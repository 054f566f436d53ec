//! The abstract element algebra of tensors.
//!
//! The engine never fixes a concrete number type: every layer, filler and
//! solver is generic over a [`Scalar`], which names the handful of element
//! operations the engine needs and binds each executable operation to its
//! own specification function. Contracts throughout the crate are stated
//! over these specification functions, so they pin the engine's behaviour
//! for every scalar instance that meets this trait's obligations.
//!
//! An exact instance for `i64` (wrapping arithmetic) lives here as well, so
//! the algebra is witnessed by a checked implementation.

use vstd::prelude::*;

verus! {

/// Element operations that layers, fillers and solvers compute with.
///
/// Each executable operation returns exactly what its specification
/// function names, so callers can reason about compositions of operations
/// without knowing the concrete element type.
pub trait Scalar: Sized + Copy {
    /// The additive identity used to clear gradients and history buffers.
    spec fn zero_spec() -> Self;

    /// The multiplicative identity, the default weight multiplier.
    spec fn one_spec() -> Self;

    /// What addition of two elements yields.
    spec fn add_spec(a: Self, b: Self) -> Self;

    /// What multiplication of two elements yields.
    spec fn mul_spec(a: Self, b: Self) -> Self;

    /// What negation of an element yields.
    spec fn neg_spec(a: Self) -> Self;

    /// What dividing an element by a positive sample count yields.
    spec fn divn_spec(a: Self, n: usize) -> Self;

    /// The ordering that arg-max and the rectifier compare with.
    spec fn le_spec(a: Self, b: Self) -> bool;

    /// The class index that a label element denotes.
    spec fn index_spec(a: Self) -> usize;

    /// The Glorot/Xavier distribution's limit for the given fan-in and
    /// fan-out, `sqrt(6 / (fan_in + fan_out))`, as this scalar
    /// represents it: every draw lies within plus or minus this bound.
    spec fn glorot_bound(num_inputs: usize, num_outputs: usize) -> Self;

    fn zero() -> (r: Self)
        ensures
            r == Self::zero_spec(),
    ;

    fn one() -> (r: Self)
        ensures
            r == Self::one_spec(),
    ;

    fn plus(a: Self, b: Self) -> (r: Self)
        ensures
            r == Self::add_spec(a, b),
    ;

    fn times(a: Self, b: Self) -> (r: Self)
        ensures
            r == Self::mul_spec(a, b),
    ;

    fn negate(a: Self) -> (r: Self)
        ensures
            r == Self::neg_spec(a),
    ;

    fn divn(a: Self, n: usize) -> (r: Self)
        requires
            n >= 1,
        ensures
            r == Self::divn_spec(a, n),
    ;

    fn le(a: Self, b: Self) -> (r: bool)
        ensures
            r == Self::le_spec(a, b),
    ;

    fn as_index(a: Self) -> (r: usize)
        ensures
            r == Self::index_spec(a),
    ;

    /// One draw from the Glorot/Xavier uniform distribution for a weight
    /// connecting `num_inputs` inputs to `num_outputs` outputs. The draw
    /// may be random; what holds of every outcome is that it lies within
    /// the distribution's bound.
    fn glorot(num_inputs: usize, num_outputs: usize) -> (r: Self)
        ensures
            Self::le_spec(Self::neg_spec(Self::glorot_bound(num_inputs, num_outputs)), r),
            Self::le_spec(r, Self::glorot_bound(num_inputs, num_outputs)),
    ;

    /// Zero is neutral for addition.
    proof fn lemma_add_zero(a: Self)
        ensures
            Self::add_spec(a, Self::zero_spec()) == a,
    ;

    /// Multiplying zero yields zero.
    proof fn lemma_mul_zero(a: Self)
        ensures
            Self::mul_spec(a, Self::zero_spec()) == Self::zero_spec(),
    ;

    /// The ordering relates every pair of elements one way or the other.
    proof fn lemma_le_total(a: Self, b: Self)
        ensures
            Self::le_spec(a, b) || Self::le_spec(b, a),
    ;

    /// The ordering is transitive.
    proof fn lemma_le_trans(a: Self, b: Self, c: Self)
        requires
            Self::le_spec(a, b),
            Self::le_spec(b, c),
        ensures
            Self::le_spec(a, c),
    ;
}

/// Exact integer elements with wrapping arithmetic.
///
/// This instance keeps the engine runnable, and checkable end to end, with
/// no rounding: addition and multiplication wrap, division truncates, and
/// the Glorot draw is the degenerate distribution at zero, whose bound is
/// zero.
impl Scalar for i64 {
    open spec fn zero_spec() -> i64 {
        0i64
    }

    open spec fn one_spec() -> i64 {
        1i64
    }

    open spec fn add_spec(a: i64, b: i64) -> i64 {
        a.wrapping_add(b)
    }

    open spec fn mul_spec(a: i64, b: i64) -> i64 {
        a.wrapping_mul(b)
    }

    open spec fn neg_spec(a: i64) -> i64 {
        (0i64).wrapping_sub(a)
    }

    open spec fn divn_spec(a: i64, n: usize) -> i64 {
        let d: i64 = if (n as int) > (i64::MAX as int) {
            i64::MAX
        } else {
            n as i64
        };
        match a.checked_div(d) {
            Some(q) => q,
            None => 0i64,
        }
    }

    open spec fn le_spec(a: i64, b: i64) -> bool {
        a <= b
    }

    open spec fn index_spec(a: i64) -> usize {
        if 0 <= a <= usize::MAX {
            a as usize
        } else {
            0usize
        }
    }

    open spec fn glorot_bound(num_inputs: usize, num_outputs: usize) -> i64 {
        0i64
    }

    fn zero() -> i64 {
        0i64
    }

    fn one() -> i64 {
        1i64
    }

    fn plus(a: i64, b: i64) -> i64 {
        a.wrapping_add(b)
    }

    fn times(a: i64, b: i64) -> i64 {
        a.wrapping_mul(b)
    }

    fn negate(a: i64) -> i64 {
        (0i64).wrapping_sub(a)
    }

    fn divn(a: i64, n: usize) -> i64 {
        let d: i64 = if (n as u64) > (i64::MAX as u64) {
            i64::MAX
        } else {
            n as i64
        };
        match a.checked_div(d) {
            Some(q) => q,
            None => 0i64,
        }
    }

    fn le(a: i64, b: i64) -> bool {
        a <= b
    }

    fn as_index(a: i64) -> (r: usize)
    {
        if a >= 0 && (a as u64) <= (usize::MAX as u64) {
            #[verifier::truncate]
            (a as usize)
        } else {
            0usize
        }
    }

    fn glorot(_num_inputs: usize, _num_outputs: usize) -> i64 {
        0i64
    }

    proof fn lemma_add_zero(a: i64) {
    }

    proof fn lemma_mul_zero(a: i64) {
    }

    proof fn lemma_le_total(a: i64, b: i64) {
    }

    proof fn lemma_le_trans(a: i64, b: i64, c: i64) {
    }
}

} // verus!
