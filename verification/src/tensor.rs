//! N-dimensional tensors with explicit shapes.
//!
//! A tensor couples an ordered list of positive dimension sizes with a
//! contiguous element buffer whose length always equals the product of the
//! dimensions. Resizing to a shape of the same capacity reinterprets the
//! buffer without touching the elements, which is what the reshape layer
//! relies on.

use vstd::prelude::*;

use crate::error::LeafError;

verus! {

/// The number of elements a shape addresses: the product of its dimensions.
pub open spec fn capacity_spec(dims: Seq<usize>) -> nat
    decreases dims.len(),
{
    if dims.len() == 0 {
        1nat
    } else {
        capacity_spec(dims.drop_last()) * (dims.last() as nat)
    }
}

/// Every dimension of the shape is positive.
pub open spec fn positive_dims(dims: Seq<usize>) -> bool {
    forall|i: int| 0 <= i < dims.len() ==> dims[i] >= 1
}

/// Capacity of a one-longer prefix: multiply by the next dimension.
pub proof fn lemma_capacity_take_succ(dims: Seq<usize>, i: int)
    requires
        0 <= i < dims.len(),
    ensures
        capacity_spec(dims.take(i + 1)) == capacity_spec(dims.take(i)) * dims[i],
{
    assert(dims.take(i + 1).drop_last() =~= dims.take(i));
    assert(dims.take(i + 1).last() == dims[i]);
}

/// A shape of positive dimensions addresses at least one element.
pub proof fn lemma_capacity_positive(dims: Seq<usize>)
    requires
        positive_dims(dims),
    ensures
        capacity_spec(dims) >= 1,
    decreases dims.len(),
{
    if dims.len() > 0 {
        assert(positive_dims(dims.drop_last()));
        lemma_capacity_positive(dims.drop_last());
        let a = capacity_spec(dims.drop_last());
        let b = dims.last() as nat;
        assert(a * b >= 1) by (nonlinear_arith)
            requires
                a >= 1,
                b >= 1,
        ;
    }
}

/// With positive dimensions, a prefix never addresses more elements than
/// the whole shape.
pub proof fn lemma_capacity_prefix_le(dims: Seq<usize>, i: int)
    requires
        positive_dims(dims),
        0 <= i <= dims.len(),
    ensures
        capacity_spec(dims.take(i)) <= capacity_spec(dims),
    decreases dims.len() - i,
{
    if i == dims.len() {
        assert(dims.take(i) =~= dims);
    } else {
        lemma_capacity_take_succ(dims, i);
        let a = capacity_spec(dims.take(i));
        let b = dims[i] as nat;
        assert(a <= a * b) by (nonlinear_arith)
            requires
                b >= 1,
        ;
        lemma_capacity_prefix_le(dims, i + 1);
    }
}

/// A one-dimensional shape addresses exactly its single dimension.
pub proof fn lemma_capacity_single(d: usize)
    ensures
        capacity_spec(seq![d]) == d,
{
    let s = seq![d];
    assert(s.drop_last() =~= Seq::<usize>::empty());
    assert(capacity_spec(Seq::<usize>::empty()) == 1);
    assert(s.last() == d);
    assert(capacity_spec(s) == capacity_spec(s.drop_last()) * (s.last() as nat));
}

/// A shape's capacity splits at the front: the first dimension times the
/// capacity of the rest.
pub proof fn lemma_capacity_skip_first(dims: Seq<usize>)
    requires
        dims.len() >= 1,
    ensures
        capacity_spec(dims) == (dims[0] as nat) * capacity_spec(dims.skip(1)),
    decreases dims.len(),
{
    if dims.len() == 1 {
        assert(capacity_spec(Seq::<usize>::empty()) == 1);
        assert(dims.drop_last() =~= Seq::<usize>::empty());
        assert(dims.skip(1) =~= Seq::<usize>::empty());
        assert(dims.last() == dims[0]);
    } else {
        lemma_capacity_skip_first(dims.drop_last());
        assert(dims.drop_last()[0] == dims[0]);
        assert(dims.drop_last().skip(1) =~= dims.skip(1).drop_last());
        let a = dims[0] as nat;
        let b = capacity_spec(dims.skip(1).drop_last());
        let c = dims.last() as nat;
        assert(dims.skip(1).last() == dims.last());
        assert(capacity_spec(dims.skip(1)) == b * c);
        assert(capacity_spec(dims.drop_last()) == a * b);
        assert(capacity_spec(dims) == (a * b) * c);
        assert((a * b) * c == a * (b * c)) by (nonlinear_arith);
    }
}

/// An N-dimensional buffer of elements under an explicit shape.
///
/// Well-formed tensors (see [`Tensor::wf`]) keep the buffer length equal to
/// the shape's capacity; every operation here preserves that invariant.
pub struct Tensor<T> {
    dims: Vec<usize>,
    data: Vec<T>,
}

impl<T> View for Tensor<T> {
    type V = Seq<T>;

    closed spec fn view(&self) -> Seq<T> {
        self.data@
    }
}

impl<T: Copy> Tensor<T> {
    /// The shape, as a mathematical sequence of dimension sizes.
    pub closed spec fn shape_spec(&self) -> Seq<usize> {
        self.dims@
    }

    /// The tensor's invariant: positive dimensions, and exactly as many
    /// elements as the shape addresses.
    pub open spec fn wf(&self) -> bool {
        positive_dims(self.shape_spec()) && self@.len() == capacity_spec(self.shape_spec())
    }

    /// Allocate a tensor of the given shape with every element set to
    /// `fill`. Succeeds exactly when the dimensions are positive and their
    /// product fits in `usize`.
    pub fn new(dims: &Vec<usize>, fill: T) -> (r: Result<Tensor<T>, LeafError>)
        ensures
            match r {
                Ok(t) => {
                    &&& positive_dims(dims@)
                    &&& capacity_spec(dims@) <= usize::MAX
                    &&& t.wf()
                    &&& t.shape_spec() == dims@
                    &&& t@ == Seq::new(capacity_spec(dims@), |i: int| fill)
                },
                Err(e) => {
                    ||| (e == LeafError::ZeroDimension && !positive_dims(dims@))
                    ||| (e == LeafError::CapacityOverflow && positive_dims(dims@)
                            && capacity_spec(dims@) > usize::MAX)
                },
            },
            r.is_ok() <==> (positive_dims(dims@) && capacity_spec(dims@) <= usize::MAX),
    {
        let cap = match checked_capacity(dims) {
            Ok(c) => c,
            Err(e) => {
                return Err(e);
            },
        };
        let mut data: Vec<T> = Vec::new();
        while data.len() < cap
            invariant
                data@ =~= Seq::new(data@.len(), |i: int| fill),
                data@.len() <= cap,
            decreases cap - data@.len(),
        {
            data.push(fill);
        }
        assert(data@ =~= Seq::new(cap as nat, |i: int| fill));
        let dims_copy = copy_shape(dims);
        Ok(Tensor { dims: dims_copy, data })
    }

    /// The dimension sizes.
    pub fn dimensions(&self) -> (r: &Vec<usize>)
        ensures
            r@ == self.shape_spec(),
    {
        &self.dims
    }

    /// The number of dimensions.
    pub fn rank(&self) -> (r: usize)
        ensures
            r == self.shape_spec().len(),
    {
        self.dims.len()
    }

    /// The number of elements the shape addresses.
    pub fn capacity(&self) -> (r: usize)
        requires
            self.wf(),
        ensures
            r == capacity_spec(self.shape_spec()),
    {
        self.data.len()
    }

    /// The element at flat (row-major) index `i`.
    pub fn get(&self, i: usize) -> (r: T)
        requires
            i < self@.len(),
        ensures
            r == self@[i as int],
    {
        self.data[i]
    }

    /// Overwrite the element at flat index `i`.
    pub fn set(&mut self, i: usize, value: T)
        requires
            i < old(self)@.len(),
        ensures
            final(self)@ == old(self)@.update(i as int, value),
            final(self).shape_spec() == old(self).shape_spec(),
    {
        self.data.set(i, value);
    }

    /// An element-for-element copy of the tensor: same shape, same
    /// buffer contents.
    pub fn duplicate(&self) -> (r: Tensor<T>)
        ensures
            r.shape_spec() == self.shape_spec(),
            r@ == self@,
    {
        let dims_copy = copy_shape(&self.dims);
        let mut data: Vec<T> = Vec::new();
        let n = self.data.len();
        let mut i: usize = 0;
        while i < n
            invariant
                i <= n,
                n == self.data@.len(),
                data@ =~= self.data@.take(i as int),
            decreases n - i,
        {
            data.push(self.data[i]);
            i += 1;
        }
        assert(data@ =~= self.data@);
        Tensor { dims: dims_copy, data }
    }

    /// Read-only access to the whole element buffer.
    pub fn elements(&self) -> (r: &Vec<T>)
        ensures
            r@ == self@,
    {
        &self.data
    }

    /// Give the tensor a new shape. If the new shape addresses exactly as
    /// many elements as are currently stored, the elements are kept
    /// index-for-index; otherwise the buffer is reallocated and every
    /// element set to `fill`.
    pub fn resize(&mut self, dims: &Vec<usize>, fill: T) -> (r: Result<(), LeafError>)
        ensures
            match r {
                Ok(()) => {
                    &&& positive_dims(dims@)
                    &&& capacity_spec(dims@) <= usize::MAX
                    &&& final(self).wf()
                    &&& final(self).shape_spec() == dims@
                    &&& if capacity_spec(dims@) == old(self)@.len() {
                            final(self)@ == old(self)@
                        } else {
                            final(self)@ == Seq::new(capacity_spec(dims@), |i: int| fill)
                        }
                },
                Err(e) => {
                    &&& *final(self) == *old(self)
                    &&& {
                        ||| (e == LeafError::ZeroDimension && !positive_dims(dims@))
                        ||| (e == LeafError::CapacityOverflow && positive_dims(dims@)
                                && capacity_spec(dims@) > usize::MAX)
                    }
                },
            },
            r.is_ok() <==> (positive_dims(dims@) && capacity_spec(dims@) <= usize::MAX),
    {
        let cap = match checked_capacity(dims) {
            Ok(c) => c,
            Err(e) => {
                return Err(e);
            },
        };
        self.dims = copy_shape(dims);
        if cap != self.data.len() {
            let mut data: Vec<T> = Vec::new();
            while data.len() < cap
                invariant
                    data@ =~= Seq::new(data@.len(), |i: int| fill),
                    data@.len() <= cap,
                decreases cap - data@.len(),
            {
                data.push(fill);
            }
            assert(data@ =~= Seq::new(cap as nat, |i: int| fill));
            self.data = data;
        }
        Ok(())
    }

    /// Resize to a shape already known to be valid: positive dimensions
    /// whose product fits in `usize`. Elements are kept index-for-index
    /// when the capacity is unchanged, else the buffer is refilled.
    pub fn resize_valid(&mut self, dims: &Vec<usize>, fill: T)
        requires
            positive_dims(dims@),
            capacity_spec(dims@) <= usize::MAX,
        ensures
            final(self).wf(),
            final(self).shape_spec() == dims@,
            if capacity_spec(dims@) == old(self)@.len() {
                final(self)@ == old(self)@
            } else {
                final(self)@ == Seq::new(capacity_spec(dims@), |i: int| fill)
            },
    {
        match self.resize(dims, fill) {
            Ok(()) => {
            },
            Err(_) => {
                assert(false);
            },
        }
    }

    /// Replace the whole element buffer. Succeeds exactly when the slice
    /// matches the tensor's capacity; the shape is kept.
    pub fn write_slice(&mut self, values: &[T]) -> (r: Result<(), LeafError>)
        ensures
            match r {
                Ok(()) => {
                    &&& final(self)@ == values@
                    &&& final(self).shape_spec() == old(self).shape_spec()
                },
                Err(e) => {
                    &&& *final(self) == *old(self)
                    &&& e == LeafError::LengthMismatch
                },
            },
            r.is_ok() <==> values@.len() == old(self)@.len(),
    {
        if values.len() != self.data.len() {
            return Err(LeafError::LengthMismatch);
        }
        let n = values.len();
        let mut i: usize = 0;
        while i < n
            invariant
                i <= n,
                n == values@.len(),
                self.data@.len() == n,
                self.dims@ == old(self).dims@,
                forall|j: int| 0 <= j < i ==> self.data@[j] == values@[j],
                forall|j: int| i <= j < n ==> self.data@[j] == old(self).data@[j],
            decreases n - i,
        {
            let v = values[i];
            self.data.set(i, v);
            i += 1;
        }
        assert(self.data@ =~= values@);
        Ok(())
    }

    /// Write `values` into the buffer starting at flat index `offset`,
    /// leaving every other element unchanged. Succeeds exactly when the
    /// written range lies inside the buffer.
    pub fn write_offset(&mut self, values: &[T], offset: usize) -> (r: Result<(), LeafError>)
        ensures
            match r {
                Ok(()) => {
                    &&& final(self).shape_spec() == old(self).shape_spec()
                    &&& final(self)@.len() == old(self)@.len()
                    &&& forall|j: int|
                        0 <= j < old(self)@.len() ==> final(self)@[j] == (if offset <= j
                            < offset + values@.len() {
                            values@[j - offset]
                        } else {
                            old(self)@[j]
                        })
                },
                Err(e) => {
                    &&& *final(self) == *old(self)
                    &&& e == LeafError::LengthMismatch
                },
            },
            r.is_ok() <==> offset + values@.len() <= old(self)@.len(),
    {
        if offset > self.data.len() || values.len() > self.data.len() - offset {
            return Err(LeafError::LengthMismatch);
        }
        let n = values.len();
        let mut i: usize = 0;
        while i < n
            invariant
                i <= n,
                n == values@.len(),
                offset + n <= self.data@.len(),
                self.data@.len() <= usize::MAX,
                self.data@.len() == old(self).data@.len(),
                self.dims@ == old(self).dims@,
                forall|j: int| 0 <= j < i ==> self.data@[offset + j] == values@[j],
                forall|j: int|
                    0 <= j < self.data@.len() && !(offset <= j < offset + i) ==> self.data@[j]
                        == old(self).data@[j],
            decreases n - i,
        {
            let v = values[i];
            self.data.set(offset + i, v);
            i += 1;
        }
        Ok(())
    }
}

/// Relates a tensor after a resize to the tensor before it: the new shape
/// is `dims`, elements are kept when the capacity is unchanged, and are
/// all `fill` otherwise.
pub open spec fn resized_to<T: Copy>(before: Tensor<T>, after: Tensor<T>, dims: Seq<usize>, fill: T) -> bool {
    &&& after.wf()
    &&& after.shape_spec() == dims
    &&& if capacity_spec(dims) == before@.len() {
        after@ == before@
    } else {
        after@ == Seq::new(capacity_spec(dims), |i: int| fill)
    }
}

/// Validate a shape and compute its capacity. Succeeds exactly when every
/// dimension is positive and the product fits in `usize`.
pub fn checked_capacity(dims: &Vec<usize>) -> (r: Result<usize, LeafError>)
    ensures
        match r {
            Ok(c) => positive_dims(dims@) && c == capacity_spec(dims@),
            Err(e) => {
                ||| (e == LeafError::ZeroDimension && !positive_dims(dims@))
                ||| (e == LeafError::CapacityOverflow && positive_dims(dims@) && capacity_spec(
                    dims@,
                ) > usize::MAX)
            },
        },
        r.is_ok() <==> (positive_dims(dims@) && capacity_spec(dims@) <= usize::MAX),
{
    let n = dims.len();
    let mut i: usize = 0;
    while i < n
        invariant
            i <= n,
            n == dims@.len(),
            forall|j: int| 0 <= j < i ==> dims@[j] >= 1,
        decreases n - i,
    {
        if dims[i] == 0 {
            return Err(LeafError::ZeroDimension);
        }
        i += 1;
    }
    assert(positive_dims(dims@));
    let mut cap: usize = 1;
    let mut i: usize = 0;
    while i < n
        invariant
            i <= n,
            n == dims@.len(),
            positive_dims(dims@),
            cap == capacity_spec(dims@.take(i as int)),
        decreases n - i,
    {
        proof {
            lemma_capacity_take_succ(dims@, i as int);
        }
        cap = match cap.checked_mul(dims[i]) {
            Some(c) => c,
            None => {
                proof {
                    lemma_capacity_prefix_le(dims@, i as int + 1);
                }
                return Err(LeafError::CapacityOverflow);
            },
        };
        i += 1;
    }
    assert(dims@.take(n as int) =~= dims@);
    Ok(cap)
}

/// Whether two shape vectors hold the same dimensions in the same order.
pub fn shapes_equal(a: &Vec<usize>, b: &Vec<usize>) -> (r: bool)
    ensures
        r == (a@ == b@),
{
    if a.len() != b.len() {
        assert(a@ != b@);
        return false;
    }
    let n = a.len();
    let mut i: usize = 0;
    while i < n
        invariant
            i <= n,
            n == a@.len(),
            n == b@.len(),
            forall|j: int| 0 <= j < i ==> a@[j] == b@[j],
        decreases n - i,
    {
        if a[i] != b[i] {
            assert(a@ != b@);
            return false;
        }
        i += 1;
    }
    assert(a@ =~= b@);
    true
}

/// Copy a shape vector element by element.
fn copy_shape(dims: &Vec<usize>) -> (r: Vec<usize>)
    ensures
        r@ == dims@,
{
    let mut r: Vec<usize> = Vec::new();
    let n = dims.len();
    let mut i: usize = 0;
    while i < n
        invariant
            i <= n,
            n == dims@.len(),
            r@ =~= dims@.take(i as int),
        decreases n - i,
    {
        r.push(dims[i]);
        i += 1;
    }
    assert(r@ =~= dims@);
    r
}

/// Write the `i`th sample of a batch into a tensor.
///
/// The size of a single sample is inferred from the first dimension of the
/// tensor's shape, which is taken to be the batch size. Succeeds exactly
/// when the tensor has at least one dimension and the sample's range lies
/// inside the buffer.
pub fn write_batch_sample<T: Copy>(tensor: &mut Tensor<T>, values: &[T], i: usize) -> (r: Result<
    (),
    LeafError,
>)
    requires
        old(tensor).wf(),
    ensures
        final(tensor).wf(),
        final(tensor).shape_spec() == old(tensor).shape_spec(),
        match r {
            Ok(()) => {
                &&& old(tensor).shape_spec().len() >= 1
                &&& {
                    let ss = old(tensor)@.len() as int / old(tensor).shape_spec()[0] as int;
                    &&& i * ss + values@.len() <= old(tensor)@.len()
                    &&& final(tensor)@.len() == old(tensor)@.len()
                    &&& forall|j: int|
                        0 <= j < old(tensor)@.len() ==> final(tensor)@[j] == (if i * ss <= j < i
                            * ss + values@.len() {
                            values@[j - i * ss]
                        } else {
                            old(tensor)@[j]
                        })
                }
            },
            Err(e) => {
                &&& *final(tensor) == *old(tensor)
                &&& {
                    ||| (e == LeafError::UnsupportedRank && old(tensor).shape_spec().len() == 0)
                    ||| (e == LeafError::LengthMismatch && old(tensor).shape_spec().len() >= 1
                            && i * (old(tensor)@.len() as int / old(
                        tensor,
                    ).shape_spec()[0] as int) + values@.len() > old(tensor)@.len())
                }
            },
        },
{
    if tensor.rank() == 0 {
        return Err(LeafError::UnsupportedRank);
    }
    let batch = tensor.dimensions()[0];
    let sample_size = tensor.capacity() / batch;
    let ghost ss = old(tensor)@.len() as int / old(tensor).shape_spec()[0] as int;
    assert(sample_size == ss);
    let offset = match i.checked_mul(sample_size) {
        Some(o) => o,
        None => {
            proof {
                let c = old(tensor)@.len() as int;
                assert(i * ss + values@.len() > c) by (nonlinear_arith)
                    requires
                        i * ss > usize::MAX,
                        c <= usize::MAX,
                        values@.len() >= 0,
                ;
            }
            return Err(LeafError::LengthMismatch);
        },
    };
    match tensor.write_offset(values, offset) {
        Ok(()) => Ok(()),
        Err(_) => Err(LeafError::LengthMismatch),
    }
}

} // verus!
