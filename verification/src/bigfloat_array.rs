//! Dense arrays of decimal scalars.
//!
//! A [`BigFloatArray`] is a shape (one extent per axis) and the elements in
//! row-major order. Its view is the sequence of the elements' decimals; the
//! shape is read with [`BigFloatArray::shape`]. Operations between two arrays
//! ask for equal shapes: nothing is broadcast or truncated silently.
use crate::scalar::{
    decimal_difference, decimal_exp, decimal_ln, decimal_negation, decimal_of_int,
    decimal_product, decimal_quotient, decimal_sum, decimals, Decimal, Scalar,
};
use vstd::prelude::*;

verus! {

/// The number of elements of a shape: the product of its extents. A shape
/// without axes holds one element.
pub open spec fn volume(shape: Seq<usize>) -> nat
    decreases shape.len(),
{
    if shape.len() == 0 {
        1
    } else {
        volume(shape.drop_last()) * (shape.last() as nat)
    }
}

/// Whether so many scalars can be held in one allocation: thirty-two bytes
/// are allowed for each, and no allocation holds more than `isize::MAX`
/// bytes.
pub open spec fn addressable(count: int) -> bool {
    count * 32 <= isize::MAX
}

/// Appending an axis multiplies the volume by its extent.
pub proof fn lemma_volume_push(shape: Seq<usize>, extent: usize)
    ensures
        volume(shape.push(extent)) == volume(shape) * (extent as nat),
{
    assert(shape.push(extent).drop_last() =~= shape);
    assert(shape.push(extent).last() == extent);
}

/// A vector's volume is its length.
pub proof fn lemma_volume_of_vector(length: usize)
    ensures
        volume(seq![length]) == length,
{
    assert(seq![length] =~= Seq::<usize>::empty().push(length));
    lemma_volume_push(Seq::<usize>::empty(), length);
    assert(volume(Seq::<usize>::empty()) == 1);
    assert(1 * (length as nat) == length) by (nonlinear_arith);
}

/// A matrix's volume is rows times columns.
pub proof fn lemma_volume_of_matrix(rows: usize, cols: usize)
    ensures
        volume(seq![rows, cols]) == rows * cols,
{
    assert(seq![rows, cols] =~= seq![rows].push(cols));
    lemma_volume_push(seq![rows], cols);
    lemma_volume_of_vector(rows);
}

/// A shape with an empty axis holds nothing.
proof fn lemma_volume_with_empty_axis(shape: Seq<usize>, axis: int)
    requires
        0 <= axis < shape.len(),
        shape[axis] == 0,
    ensures
        volume(shape) == 0,
    decreases shape.len(),
{
    if axis < shape.len() - 1 {
        lemma_volume_with_empty_axis(shape.drop_last(), axis);
        assert(volume(shape.drop_last()) * (shape.last() as nat) == 0) by (nonlinear_arith)
            requires
                volume(shape.drop_last()) == 0,
        ;
    } else {
        assert(volume(shape.drop_last()) * (shape.last() as nat) == 0) by (nonlinear_arith)
            requires
                shape.last() == 0,
        ;
    }
}

/// Without empty axes, the leading axes of a shape hold no more than the
/// whole shape.
proof fn lemma_volume_of_leading_axes(shape: Seq<usize>, count: int)
    requires
        0 <= count <= shape.len(),
        forall|j: int| 0 <= j < shape.len() ==> shape[j] >= 1,
    ensures
        volume(shape.take(count)) <= volume(shape),
    decreases shape.len() - count,
{
    if count == shape.len() {
        assert(shape.take(count) =~= shape);
    } else {
        lemma_volume_of_leading_axes(shape, count + 1);
        assert(shape.take(count + 1) =~= shape.take(count).push(shape[count]));
        lemma_volume_push(shape.take(count), shape[count]);
        assert(volume(shape.take(count)) <= volume(shape.take(count)) * (shape[count] as nat))
            by (nonlinear_arith)
            requires
                shape[count] >= 1,
        ;
    }
}

/// The volume of a shape, or `None` where it does not fit the machine word.
pub fn checked_volume(dims: &Vec<usize>) -> (r: Option<usize>)
    ensures
        r.is_some() == (volume(dims@) <= usize::MAX),
        r.is_some() ==> r.unwrap() == volume(dims@),
{
    let mut i: usize = 0;
    while i < dims.len()
        invariant
            i <= dims.len(),
            forall|j: int| 0 <= j < i ==> dims@[j] >= 1,
        decreases dims.len() - i,
    {
        if dims[i] == 0 {
            proof {
                lemma_volume_with_empty_axis(dims@, i as int);
            }
            return Some(0);
        }
        i += 1;
    }
    let mut product: usize = 1;
    let mut k: usize = 0;
    proof {
        assert(dims@.take(0) =~= Seq::<usize>::empty());
    }
    while k < dims.len()
        invariant
            k <= dims.len(),
            product == volume(dims@.take(k as int)),
            forall|j: int| 0 <= j < dims.len() ==> dims@[j] >= 1,
        decreases dims.len() - k,
    {
        proof {
            assert(dims@.take(k + 1) =~= dims@.take(k as int).push(dims@[k as int]));
            lemma_volume_push(dims@.take(k as int), dims@[k as int]);
        }
        match product.checked_mul(dims[k]) {
            Some(next) => {
                product = next;
            },
            None => {
                proof {
                    lemma_volume_of_leading_axes(dims@, k + 1);
                }
                return None;
            },
        }
        k += 1;
    }
    proof {
        assert(dims@.take(dims.len() as int) =~= dims@);
    }
    Some(product)
}

/// An array of decimal scalars with a fixed shape.
#[derive(Debug)]
pub struct BigFloatArray {
    pub(crate) dims: Vec<usize>,
    pub(crate) data: Vec<Scalar>,
}

impl View for BigFloatArray {
    type V = Seq<Decimal>;

    closed spec fn view(&self) -> Seq<Decimal> {
        decimals(self.data@)
    }
}

impl BigFloatArray {
    /// The extent of each axis.
    pub closed spec fn shape(&self) -> Seq<usize> {
        self.dims@
    }

    /// The array holds exactly as many elements as its shape says.
    pub open spec fn wf(&self) -> bool {
        volume(self.shape()) == self@.len()
    }

    /// Whether the array is a matrix of `rows` by `cols`.
    pub open spec fn is_matrix(&self, rows: usize, cols: usize) -> bool {
        self.wf() && self.shape() == seq![rows, cols]
    }

    /// Whether the array is a vector of `length` elements.
    pub open spec fn is_vector(&self, length: usize) -> bool {
        self.wf() && self.shape() == seq![length]
    }

    /// The number of elements fits the machine word.
    pub proof fn lemma_len_fits(&self)
        ensures
            self@.len() <= usize::MAX,
    {
        assert(self.data@.len() == self.data.len());
    }

    /// An array of the given shape over the given elements in row-major
    /// order. `None` where the shape asks for another number of elements.
    pub fn from_vec(dims: Vec<usize>, data: Vec<Scalar>) -> (r: Option<BigFloatArray>)
        ensures
            r.is_some() == (volume(dims@) == data@.len()),
            r.is_some() ==> r.unwrap().wf() && r.unwrap().shape() == dims@ && r.unwrap()@
                == decimals(data@),
    {
        assert(data@.len() == data.len());
        match checked_volume(&dims) {
            Some(count) => {
                if count == data.len() {
                    Some(BigFloatArray { dims, data })
                } else {
                    None
                }
            },
            None => None,
        }
    }

    /// A vector over the given elements.
    pub fn vector(data: Vec<Scalar>) -> (r: BigFloatArray)
        ensures
            r.is_vector(data.len()),
            r@ == decimals(data@),
    {
        let mut dims: Vec<usize> = Vec::new();
        dims.push(data.len());
        proof {
            assert(dims@ =~= seq![data.len()]);
            lemma_volume_of_vector(data.len());
        }
        BigFloatArray { dims, data }
    }

    /// An array of the given shape with every element equal to `value`.
    /// `None` where the shape's volume does not fit the machine word.
    pub fn filled(dims: Vec<usize>, value: Scalar) -> (r: Option<BigFloatArray>)
        ensures
            r.is_some() == (volume(dims@) <= usize::MAX),
            r.is_some() ==> r.unwrap().wf() && r.unwrap().shape() == dims@ && (forall|i: int|
                0 <= i < r.unwrap()@.len() ==> #[trigger] r.unwrap()@[i] == value@),
    {
        match checked_volume(&dims) {
            Some(count) => {
                let mut data: Vec<Scalar> = Vec::new();
                let mut i: usize = 0;
                while i < count
                    invariant
                        i <= count,
                        data.len() == i,
                        forall|j: int| 0 <= j < i ==> #[trigger] data@[j] == value,
                    decreases count - i,
                {
                    data.push(value);
                    i += 1;
                }
                Some(BigFloatArray { dims, data })
            },
            None => None,
        }
    }

    /// An array of the given shape with every element zero. `None` where the
    /// shape's volume does not fit the machine word.
    pub fn zeros(dims: Vec<usize>) -> (r: Option<BigFloatArray>)
        ensures
            r.is_some() == (volume(dims@) <= usize::MAX),
            r.is_some() ==> r.unwrap().wf() && r.unwrap().shape() == dims@ && (forall|i: int|
                0 <= i < r.unwrap()@.len() ==> #[trigger] r.unwrap()@[i] == decimal_of_int(0)),
    {
        BigFloatArray::filled(dims, Scalar::from_int(0))
    }

    /// The extents of the axes.
    pub fn dims(&self) -> (r: &Vec<usize>)
        ensures
            r@ == self.shape(),
    {
        &self.dims
    }

    /// The extents of the axes, as a vector of its own.
    pub fn shape_vec(&self) -> (r: Vec<usize>)
        ensures
            r@ == self.shape(),
    {
        let mut dims: Vec<usize> = Vec::new();
        let mut k: usize = 0;
        while k < self.dims.len()
            invariant
                k <= self.dims.len(),
                dims.len() == k,
                forall|j: int| 0 <= j < k ==> #[trigger] dims@[j] == self.dims@[j],
            decreases self.dims.len() - k,
        {
            dims.push(self.dims[k]);
            k += 1;
        }
        proof {
            assert(dims@ =~= self.dims@);
        }
        dims
    }

    /// The number of axes.
    pub fn ndim(&self) -> (r: usize)
        ensures
            r == self.shape().len(),
    {
        self.dims.len()
    }

    /// The number of elements.
    pub fn len(&self) -> (r: usize)
        ensures
            r == self@.len(),
    {
        self.data.len()
    }

    /// The element at a row-major position.
    pub fn get(&self, index: usize) -> (r: Scalar)
        requires
            index < self@.len(),
        ensures
            r@ == self@[index as int],
    {
        self.data[index]
    }

    /// Replaces the element at a row-major position; the shape and every
    /// other element stay.
    pub fn set(&mut self, index: usize, value: Scalar)
        requires
            index < old(self)@.len(),
        ensures
            final(self).shape() == old(self).shape(),
            final(self)@ == old(self)@.update(index as int, value@),
    {
        self.data.set(index, value);
        proof {
            assert(decimals(self.data@) =~= decimals(old(self).data@).update(index as int, value@));
        }
    }

    /// The elements in row-major order.
    pub fn to_vec(&self) -> (r: Vec<Scalar>)
        ensures
            decimals(r@) == self@,
    {
        let mut out: Vec<Scalar> = Vec::new();
        let mut i: usize = 0;
        while i < self.data.len()
            invariant
                i <= self.data.len(),
                out.len() == i,
                forall|j: int| 0 <= j < i ==> #[trigger] out@[j] == self.data@[j],
            decreases self.data.len() - i,
        {
            out.push(self.data[i]);
            i += 1;
        }
        proof {
            assert(out@ =~= self.data@);
        }
        out
    }

    /// A copy with the same shape and elements.
    pub fn duplicate(&self) -> (r: BigFloatArray)
        ensures
            r.shape() == self.shape(),
            r@ == self@,
    {
        let dims = self.shape_vec();
        let data = self.to_vec();
        BigFloatArray { dims, data }
    }

    /// Whether two arrays have the same shape.
    pub fn same_shape(&self, other: &BigFloatArray) -> (r: bool)
        ensures
            r == (self.shape() == other.shape()),
    {
        if self.dims.len() != other.dims.len() {
            return false;
        }
        let mut k: usize = 0;
        while k < self.dims.len()
            invariant
                k <= self.dims.len(),
                self.dims.len() == other.dims.len(),
                forall|j: int| 0 <= j < k ==> self.dims@[j] == other.dims@[j],
            decreases self.dims.len() - k,
        {
            if self.dims[k] != other.dims[k] {
                return false;
            }
            k += 1;
        }
        proof {
            assert(self.dims@ =~= other.dims@);
        }
        true
    }

    /// Applies `f` to every element. `g` is what `f` computes, on decimals.
    pub(crate) fn map_with<F: Fn(Scalar) -> Scalar>(
        &self,
        f: F,
        Ghost(g): Ghost<spec_fn(Decimal) -> Decimal>,
    ) -> (r: BigFloatArray)
        requires
            forall|s: Scalar| f.requires((s,)),
            forall|s: Scalar, t: Scalar| f.ensures((s,), t) ==> t@ == g(s@),
        ensures
            r.shape() == self.shape(),
            r@.len() == self@.len(),
            forall|i: int| 0 <= i < self@.len() ==> #[trigger] r@[i] == g(self@[i]),
    {
        let mut out = self.duplicate();
        assert(out.data@.len() == out@.len() && self.data@.len() == self@.len());
        let mut i: usize = 0;
        while i < self.data.len()
            invariant
                i <= self.data.len(),
                out.dims@ == self.dims@,
                out.data.len() == self.data.len(),
                forall|s: Scalar| f.requires((s,)),
                forall|s: Scalar, t: Scalar| f.ensures((s,), t) ==> t@ == g(s@),
                forall|j: int| 0 <= j < i ==> (#[trigger] out.data@[j])@ == g(self.data@[j]@),
            decreases self.data.len() - i,
        {
            let value = f(self.data[i]);
            out.data.set(i, value);
            i += 1;
        }
        out
    }

    /// Applies `f` to every pair of elements at the same position. `g` is
    /// what `f` computes, on decimals.
    pub(crate) fn zip_with<F: Fn(Scalar, Scalar) -> Scalar>(
        &self,
        other: &BigFloatArray,
        f: F,
        Ghost(g): Ghost<spec_fn(Decimal, Decimal) -> Decimal>,
    ) -> (r: BigFloatArray)
        requires
            self@.len() == other@.len(),
            forall|s: Scalar, t: Scalar| f.requires((s, t)),
            forall|s: Scalar, t: Scalar, u: Scalar| f.ensures((s, t), u) ==> u@ == g(s@, t@),
        ensures
            r.shape() == self.shape(),
            r@.len() == self@.len(),
            forall|i: int| 0 <= i < self@.len() ==> #[trigger] r@[i] == g(self@[i], other@[i]),
    {
        let mut out = self.duplicate();
        assert(out.data@.len() == out@.len() && self.data@.len() == self@.len());
        let mut i: usize = 0;
        while i < self.data.len()
            invariant
                i <= self.data.len(),
                out.dims@ == self.dims@,
                out.data.len() == self.data.len(),
                other.data.len() == self.data.len(),
                forall|s: Scalar, t: Scalar| f.requires((s, t)),
                forall|s: Scalar, t: Scalar, u: Scalar| f.ensures((s, t), u) ==> u@ == g(s@, t@),
                forall|j: int|
                    0 <= j < i ==> (#[trigger] out.data@[j])@ == g(
                        self.data@[j]@,
                        other.data@[j]@,
                    ),
            decreases self.data.len() - i,
        {
            let value = f(self.data[i], other.data[i]);
            out.data.set(i, value);
            i += 1;
        }
        out
    }

    /// Applies `f` to every element and `operand`, the operand first where
    /// `operand_first` says so. `g` is what `f` computes, on decimals.
    pub(crate) fn map_with_operand<F: Fn(Scalar, Scalar) -> Scalar>(
        &self,
        f: F,
        operand: Scalar,
        operand_first: bool,
        Ghost(g): Ghost<spec_fn(Decimal, Decimal) -> Decimal>,
    ) -> (r: BigFloatArray)
        requires
            forall|s: Scalar, t: Scalar| f.requires((s, t)),
            forall|s: Scalar, t: Scalar, u: Scalar| f.ensures((s, t), u) ==> u@ == g(s@, t@),
        ensures
            r.shape() == self.shape(),
            r@.len() == self@.len(),
            forall|i: int|
                0 <= i < self@.len() ==> #[trigger] r@[i] == if operand_first {
                    g(operand@, self@[i])
                } else {
                    g(self@[i], operand@)
                },
    {
        let mut out = self.duplicate();
        assert(out.data@.len() == out@.len() && self.data@.len() == self@.len());
        let mut i: usize = 0;
        while i < self.data.len()
            invariant
                i <= self.data.len(),
                out.dims@ == self.dims@,
                out.data.len() == self.data.len(),
                forall|s: Scalar, t: Scalar| f.requires((s, t)),
                forall|s: Scalar, t: Scalar, u: Scalar| f.ensures((s, t), u) ==> u@ == g(s@, t@),
                forall|j: int|
                    0 <= j < i ==> (#[trigger] out.data@[j])@ == if operand_first {
                        g(operand@, self.data@[j]@)
                    } else {
                        g(self.data@[j]@, operand@)
                    },
            decreases self.data.len() - i,
        {
            let value = if operand_first {
                f(operand, self.data[i])
            } else {
                f(self.data[i], operand)
            };
            out.data.set(i, value);
            i += 1;
        }
        out
    }

    /// The element-wise sum of two arrays of one shape.
    pub fn add(&self, other: &BigFloatArray) -> (r: BigFloatArray)
        requires
            self.shape() == other.shape(),
            self.wf(),
            other.wf(),
        ensures
            r.wf(),
            r.shape() == self.shape(),
            forall|i: int| 0 <= i < self@.len() ==> #[trigger] r@[i] == decimal_sum(self@[i], other@[i]),
    {
        self.zip_with(
            other,
            Scalar::plus,
            Ghost(|a: Decimal, b: Decimal| decimal_sum(a, b)),
        )
    }

    /// The element-wise difference of two arrays of one shape.
    pub fn sub(&self, other: &BigFloatArray) -> (r: BigFloatArray)
        requires
            self.shape() == other.shape(),
            self.wf(),
            other.wf(),
        ensures
            r.wf(),
            r.shape() == self.shape(),
            forall|i: int|
                0 <= i < self@.len() ==> #[trigger] r@[i] == decimal_difference(self@[i], other@[i]),
    {
        self.zip_with(
            other,
            Scalar::minus,
            Ghost(|a: Decimal, b: Decimal| decimal_difference(a, b)),
        )
    }

    /// The element-wise product of two arrays of one shape.
    pub fn mul(&self, other: &BigFloatArray) -> (r: BigFloatArray)
        requires
            self.shape() == other.shape(),
            self.wf(),
            other.wf(),
        ensures
            r.wf(),
            r.shape() == self.shape(),
            forall|i: int|
                0 <= i < self@.len() ==> #[trigger] r@[i] == decimal_product(self@[i], other@[i]),
    {
        self.zip_with(
            other,
            Scalar::times,
            Ghost(|a: Decimal, b: Decimal| decimal_product(a, b)),
        )
    }

    /// The element-wise quotient of two arrays of one shape.
    pub fn div(&self, other: &BigFloatArray) -> (r: BigFloatArray)
        requires
            self.shape() == other.shape(),
            self.wf(),
            other.wf(),
        ensures
            r.wf(),
            r.shape() == self.shape(),
            forall|i: int|
                0 <= i < self@.len() ==> #[trigger] r@[i] == decimal_quotient(self@[i], other@[i]),
    {
        self.zip_with(
            other,
            Scalar::over,
            Ghost(|a: Decimal, b: Decimal| decimal_quotient(a, b)),
        )
    }

    /// Every element under the other sign.
    pub fn neg(&self) -> (r: BigFloatArray)
        requires
            self.wf(),
        ensures
            r.wf(),
            r.shape() == self.shape(),
            forall|i: int| 0 <= i < self@.len() ==> #[trigger] r@[i] == decimal_negation(self@[i]),
    {
        self.map_with(
            Scalar::negated,
            Ghost(|a: Decimal| decimal_negation(a)),
        )
    }

    /// The exponential of every element.
    pub fn exp(&self) -> (r: BigFloatArray)
        requires
            self.wf(),
        ensures
            r.wf(),
            r.shape() == self.shape(),
            forall|i: int| 0 <= i < self@.len() ==> #[trigger] r@[i] == decimal_exp(self@[i]),
    {
        self.map_with(
            Scalar::exp,
            Ghost(|a: Decimal| decimal_exp(a)),
        )
    }

    /// The natural logarithm of every element.
    pub fn ln(&self) -> (r: BigFloatArray)
        requires
            self.wf(),
        ensures
            r.wf(),
            r.shape() == self.shape(),
            forall|i: int| 0 <= i < self@.len() ==> #[trigger] r@[i] == decimal_ln(self@[i]),
    {
        self.map_with(
            Scalar::ln,
            Ghost(|a: Decimal| decimal_ln(a)),
        )
    }

    /// Every element plus `value`.
    pub fn add_scalar(&self, value: &Scalar) -> (r: BigFloatArray)
        requires
            self.wf(),
        ensures
            r.wf(),
            r.shape() == self.shape(),
            forall|i: int| 0 <= i < self@.len() ==> #[trigger] r@[i] == decimal_sum(self@[i], value@),
    {
        self.map_with_operand(Scalar::plus, *value, false, Ghost(|a: Decimal, b: Decimal| decimal_sum(a, b)))
    }

    /// Every element minus `value`.
    pub fn sub_scalar(&self, value: &Scalar) -> (r: BigFloatArray)
        requires
            self.wf(),
        ensures
            r.wf(),
            r.shape() == self.shape(),
            forall|i: int|
                0 <= i < self@.len() ==> #[trigger] r@[i] == decimal_difference(self@[i], value@),
    {
        self.map_with_operand(Scalar::minus, *value, false, Ghost(|a: Decimal, b: Decimal| decimal_difference(a, b)))
    }

    /// Every element times `value`.
    pub fn mul_scalar(&self, value: &Scalar) -> (r: BigFloatArray)
        requires
            self.wf(),
        ensures
            r.wf(),
            r.shape() == self.shape(),
            forall|i: int|
                0 <= i < self@.len() ==> #[trigger] r@[i] == decimal_product(self@[i], value@),
    {
        self.map_with_operand(Scalar::times, *value, false, Ghost(|a: Decimal, b: Decimal| decimal_product(a, b)))
    }

    /// Every element divided by `value`.
    pub fn div_scalar(&self, value: &Scalar) -> (r: BigFloatArray)
        requires
            self.wf(),
        ensures
            r.wf(),
            r.shape() == self.shape(),
            forall|i: int|
                0 <= i < self@.len() ==> #[trigger] r@[i] == decimal_quotient(self@[i], value@),
    {
        self.map_with_operand(Scalar::over, *value, false, Ghost(|a: Decimal, b: Decimal| decimal_quotient(a, b)))
    }

    /// `value` times every element.
    pub fn scalar_mul(value: &Scalar, array: &BigFloatArray) -> (r: BigFloatArray)
        requires
            array.wf(),
        ensures
            r.wf(),
            r.shape() == array.shape(),
            forall|i: int|
                0 <= i < array@.len() ==> #[trigger] r@[i] == decimal_product(value@, array@[i]),
    {
        array.map_with_operand(Scalar::times, *value, true, Ghost(|a: Decimal, b: Decimal| decimal_product(a, b)))
    }

    /// `value` divided by every element.
    pub fn scalar_div(value: &Scalar, array: &BigFloatArray) -> (r: BigFloatArray)
        requires
            array.wf(),
        ensures
            r.wf(),
            r.shape() == array.shape(),
            forall|i: int|
                0 <= i < array@.len() ==> #[trigger] r@[i] == decimal_quotient(value@, array@[i]),
    {
        array.map_with_operand(Scalar::over, *value, true, Ghost(|a: Decimal, b: Decimal| decimal_quotient(a, b)))
    }
}

} // verus!
