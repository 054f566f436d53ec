//! Error values reported by the engine.

use vstd::prelude::*;

verus! {

/// Failures that the engine reports instead of proceeding with a
/// misconfigured graph.
#[derive(Debug, Clone, PartialEq, Eq, Structural)]
pub enum LeafError {
    /// A tensor shape contained a zero dimension.
    ZeroDimension,
    /// The product of the requested dimensions does not fit in `usize`.
    CapacityOverflow,
    /// Two tensors that must agree in shape or element count do not.
    ShapeMismatch,
    /// A layer was invoked without a required input tensor bound.
    MissingInput,
    /// A slice written into a tensor did not match its capacity.
    LengthMismatch,
    /// A loss layer was handed a label tensor of unsupported rank.
    UnsupportedRank,
    /// A label value does not name a class inside the probability tensor.
    LabelOutOfRange,
    /// A layer's declared input name resolves to no known blob.
    UnresolvedInput,
    /// A layer was wired to the wrong number of input blobs.
    WrongBlobCount,
}

impl LeafError {
    /// A short, stable description of the error.
    pub fn description(&self) -> (r: &'static str)
    {
        match self {
            LeafError::ZeroDimension => "tensor shapes must have positive dimensions",
            LeafError::CapacityOverflow => "tensor capacity does not fit in usize",
            LeafError::ShapeMismatch => "tensor shapes are incompatible",
            LeafError::MissingInput => "no input tensor bound for layer",
            LeafError::LengthMismatch => "slice length does not match tensor capacity",
            LeafError::UnsupportedRank => "loss layer supports only rank 1 or 2 labels",
            LeafError::LabelOutOfRange => "label does not fit the class count",
            LeafError::UnresolvedInput => "layer input name resolves to no blob",
            LeafError::WrongBlobCount => "layer wired to the wrong number of input blobs",
        }
    }
}

} // verus!
