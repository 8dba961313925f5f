//! Matrix products, reductions and row-wise access.
//!
//! The matrix product and the sum of all elements are computed by `ndarray`;
//! their results are known here by the names [`matrix_product`] and
//! [`array_sum`]. Everything that is a matter of shapes and positions (rows,
//! broadcasting a vector over the rows of a matrix, gathering rows, the
//! position of a row's greatest element) is done and proved in this module.
use crate::bigfloat_array::{
    addressable, lemma_volume_of_matrix, lemma_volume_of_vector, volume, BigFloatArray,
};
use crate::scalar::Value::{Finite, NegativeInfinity, NotANumber, PositiveInfinity};
use crate::scalar::{
    decimal_gt, decimal_of_int, decimal_same, decimal_sum, decimals, Decimal, Scalar,
};
use ndarray::{Array1, Array2};
use num_bigfloat::{BigFloat, INF_NEG, INF_POS, NAN};
use vstd::prelude::*;

verus! {

/// The product that `ndarray`'s `dot` gives for a `rows` by `inner` matrix
/// and an `inner` by `cols` matrix, both given row-major, itself row-major.
pub uninterp spec fn matrix_product(
    rows: nat,
    inner: nat,
    cols: nat,
    left: Seq<Decimal>,
    right: Seq<Decimal>,
) -> Seq<Decimal>;

/// The sum that `ndarray`'s `sum` gives for a one-dimensional array of the
/// given elements.
pub uninterp spec fn array_sum(items: Seq<Decimal>) -> Decimal;

/// Calls `ndarray`'s `dot` on two matrices built with `from_shape_vec`. The
/// result holds `rows * cols` elements and is named [`matrix_product`]. The
/// extents are positive and the operands hold exactly what the extents say,
/// so that building the matrices cannot fail; the result is small enough
/// to be allocated.
#[verifier::external_body]
fn ndarray_dot(rows: usize, inner: usize, cols: usize, left: &Vec<Scalar>, right: &Vec<Scalar>) -> (r:
    Vec<Scalar>)
    requires
        rows > 0,
        inner > 0,
        cols > 0,
        left.len() == rows * inner,
        right.len() == inner * cols,
        addressable(rows * cols),
    ensures
        r.len() == rows * cols,
        decimals(r@) == matrix_product(
            rows as nat,
            inner as nat,
            cols as nat,
            decimals(left@),
            decimals(right@),
        ),
{
    let big = |s: &Scalar| match s.value {
        Finite(p) => BigFloat::from_raw_parts(p.0, p.1, p.2, p.3),
        NotANumber => NAN,
        PositiveInfinity => INF_POS,
        NegativeInfinity => INF_NEG,
    };
    let matrix = |v: &Vec<Scalar>, r, c| Array2::from_shape_vec((r, c), v.iter().map(big).collect()).unwrap();
    let product = matrix(left, rows, inner).dot(&matrix(right, inner, cols));
    product.into_iter().map(|z| Scalar { value: match z.to_raw_parts() {
        Some(p) => Finite(p),
        None if z.is_nan() => NotANumber,
        None if z.is_inf_pos() => PositiveInfinity,
        None => NegativeInfinity,
    } }).collect()
}

/// Calls `ndarray`'s `sum` on a one-dimensional array built with
/// `from_vec`. The result is named [`array_sum`].
#[verifier::external_body]
fn ndarray_sum(items: &Vec<Scalar>) -> (r: Scalar)
    ensures
        r@ == array_sum(decimals(items@)),
{
    let big = |s: &Scalar| match s.value {
        Finite(p) => BigFloat::from_raw_parts(p.0, p.1, p.2, p.3),
        NotANumber => NAN,
        PositiveInfinity => INF_POS,
        NegativeInfinity => INF_NEG,
    };
    let z = Array1::from_vec(items.iter().map(big).collect()).sum();
    Scalar { value: match z.to_raw_parts() {
        Some(p) => Finite(p),
        None if z.is_nan() => NotANumber,
        None if z.is_inf_pos() => PositiveInfinity,
        None => NegativeInfinity,
    } }
}

/// The elements of the product of a `rows` by `inner` matrix and an `inner`
/// by `cols` matrix. A product without rows or columns is empty; one over an
/// empty inner axis is all zero.
pub open spec fn dot_items(
    rows: nat,
    inner: nat,
    cols: nat,
    left: Seq<Decimal>,
    right: Seq<Decimal>,
) -> Seq<Decimal> {
    if rows == 0 || cols == 0 {
        Seq::empty()
    } else if inner == 0 {
        Seq::new(rows * cols, |k: int| decimal_of_int(0))
    } else {
        matrix_product(rows, inner, cols, left, right)
    }
}

/// The row that starts at position `start` in a row-major sequence.
pub open spec fn row_at(items: Seq<Decimal>, start: int, width: int) -> Seq<Decimal> {
    items.subrange(start, start + width)
}

/// The position of the first greatest element among the first `count`
/// elements: the scan keeps the earliest element that no later one is
/// ordered strictly above. Zero for an empty prefix.
pub open spec fn argmax_prefix(items: Seq<Decimal>, count: nat) -> int
    decreases count,
{
    if count <= 1 {
        0
    } else {
        let best = argmax_prefix(items, (count - 1) as nat);
        if decimal_gt(items[count - 1], items[best]) {
            count - 1
        } else {
            best
        }
    }
}

/// The position of the first greatest element of a sequence; ties go to the
/// lowest position. Zero for an empty sequence.
pub open spec fn argmax(items: Seq<Decimal>) -> int {
    argmax_prefix(items, items.len())
}

/// The position found by [`argmax_prefix`] lies within the prefix.
pub proof fn lemma_argmax_in_range(items: Seq<Decimal>, count: nat)
    requires
        0 < count,
    ensures
        0 <= argmax_prefix(items, count) < count,
    decreases count,
{
    if count > 1 {
        lemma_argmax_in_range(items, (count - 1) as nat);
    }
}

/// The sums of the elements of two sequences at equal positions.
pub open spec fn zip_sum(left: Seq<Decimal>, right: Seq<Decimal>) -> Seq<Decimal> {
    Seq::new(left.len(), |j: int| decimal_sum(left[j], right[j]))
}

/// A row-major sequence with `row` added to each of its rows of that width.
pub open spec fn add_to_rows(items: Seq<Decimal>, row: Seq<Decimal>) -> Seq<Decimal>
    decreases items.len(),
{
    if row.len() == 0 || items.len() < row.len() {
        Seq::empty()
    } else {
        add_to_rows(items.take(items.len() - row.len()), row) + zip_sum(
            items.skip(items.len() - row.len()),
            row,
        )
    }
}

/// The rows of a row-major sequence of the given width that `indices` name,
/// in the order of the indices.
pub open spec fn gather_rows(items: Seq<Decimal>, width: int, indices: Seq<usize>) -> Seq<Decimal>
    decreases indices.len(),
{
    if indices.len() == 0 {
        Seq::empty()
    } else {
        gather_rows(items, width, indices.drop_last()) + row_at(
            items,
            indices.last() * width,
            width,
        )
    }
}

/// For each of the `count` rows of the given width, the position of its
/// first greatest element.
pub open spec fn row_argmaxes(items: Seq<Decimal>, width: int, count: nat) -> Seq<usize> {
    Seq::new(count, |i: int| argmax(row_at(items, i * width, width)) as usize)
}

/// The number of positions below `count` at which two sequences agree.
pub open spec fn agreements(left: Seq<usize>, right: Seq<usize>, count: nat) -> nat
    decreases count,
{
    if count == 0 {
        0
    } else {
        agreements(left, right, (count - 1) as nat) + if left[count - 1] == right[count - 1] {
            1nat
        } else {
            0nat
        }
    }
}

/// The number of positions below `count` at which the class equals the
/// label, the label being a decimal.
pub open spec fn label_hits(classes: Seq<usize>, labels: Seq<Decimal>, count: nat) -> nat
    decreases count,
{
    if count == 0 {
        0
    } else {
        label_hits(classes, labels, (count - 1) as nat) + if decimal_same(
            decimal_of_int(classes[count - 1] as int),
            labels[count - 1],
        ) {
            1nat
        } else {
            0nat
        }
    }
}

/// Two sequences agree at no more positions than are counted.
pub proof fn lemma_agreements_bounded(left: Seq<usize>, right: Seq<usize>, count: nat)
    ensures
        agreements(left, right, count) <= count,
    decreases count,
{
    if count > 0 {
        lemma_agreements_bounded(left, right, (count - 1) as nat);
    }
}

/// Sequences that agree everywhere agree at every counted position.
pub proof fn lemma_agreements_everywhere(left: Seq<usize>, right: Seq<usize>, count: nat)
    requires
        forall|i: int| 0 <= i < count ==> left[i] == right[i],
    ensures
        agreements(left, right, count) == count,
    decreases count,
{
    if count > 0 {
        lemma_agreements_everywhere(left, right, (count - 1) as nat);
    }
}

/// Sequences that differ everywhere agree at no position.
pub proof fn lemma_agreements_nowhere(left: Seq<usize>, right: Seq<usize>, count: nat)
    requires
        forall|i: int| 0 <= i < count ==> left[i] != right[i],
    ensures
        agreements(left, right, count) == 0,
    decreases count,
{
    if count > 0 {
        lemma_agreements_nowhere(left, right, (count - 1) as nat);
    }
}

/// A row of a matrix starts and ends inside the matrix.
pub proof fn lemma_row_start(rows: int, cols: int, row: int)
    requires
        0 <= row < rows,
        0 <= cols,
    ensures
        0 <= row * cols,
        row * cols + cols <= rows * cols,
        (row + 1) * cols == row * cols + cols,
{
    assert(0 <= row * cols && row * cols + cols <= rows * cols && (row + 1) * cols == row * cols
        + cols) by (nonlinear_arith)
        requires
            0 <= row < rows,
            0 <= cols,
    ;
}

/// The position of the first greatest element of a vector of scalars.
pub fn argmax_of(row: &Vec<Scalar>) -> (r: usize)
    ensures
        r == argmax(decimals(row@)),
        row.len() > 0 ==> r < row.len(),
{
    let mut best: usize = 0;
    let mut i: usize = 1;
    if row.len() == 0 {
        return 0;
    }
    while i < row.len()
        invariant
            1 <= i <= row.len(),
            best == argmax_prefix(decimals(row@), i as nat),
            best < i,
        decreases row.len() - i,
    {
        if row[i].gt(row[best]) {
            best = i;
        }
        i += 1;
    }
    best
}

/// The number of positions at which two vectors of equal length agree.
pub fn count_agreements(left: &Vec<usize>, right: &Vec<usize>) -> (r: usize)
    requires
        left.len() == right.len(),
    ensures
        r == agreements(left@, right@, left@.len()),
        r <= left.len(),
{
    let mut hits: usize = 0;
    let mut i: usize = 0;
    while i < left.len()
        invariant
            i <= left.len(),
            left.len() == right.len(),
            hits == agreements(left@, right@, i as nat),
            hits <= i,
        decreases left.len() - i,
    {
        if left[i] == right[i] {
            hits += 1;
        }
        i += 1;
    }
    hits
}

/// The number of positions at which the class equals the label.
pub fn count_label_hits(classes: &Vec<usize>, labels: &BigFloatArray) -> (r: usize)
    requires
        classes@.len() == labels@.len(),
    ensures
        r == label_hits(classes@, labels@, classes@.len()),
        r <= classes@.len(),
{
    let mut hits: usize = 0;
    let mut i: usize = 0;
    while i < classes.len()
        invariant
            i <= classes.len(),
            classes@.len() == labels@.len(),
            hits == label_hits(classes@, labels@, i as nat),
            hits <= i,
        decreases classes.len() - i,
    {
        if Scalar::from_count(classes[i]).same_as(labels.get(i)) {
            hits += 1;
        }
        i += 1;
    }
    hits
}

/// The sum of a vector of scalars.
pub fn sum_of(items: &Vec<Scalar>) -> (r: Scalar)
    ensures
        r@ == array_sum(decimals(items@)),
{
    ndarray_sum(items)
}

impl BigFloatArray {
    /// The number of rows of a matrix.
    pub fn nrows(&self) -> (r: usize)
        requires
            self.shape().len() == 2,
        ensures
            r == self.shape()[0],
    {
        self.dims()[0]
    }

    /// The number of columns of a matrix.
    pub fn ncols(&self) -> (r: usize)
        requires
            self.shape().len() == 2,
        ensures
            r == self.shape()[1],
    {
        self.dims()[1]
    }

    /// A matrix of `rows` by `cols` over the given row-major elements.
    /// `None` where their number is not `rows * cols`.
    pub fn matrix(rows: usize, cols: usize, data: Vec<Scalar>) -> (r: Option<BigFloatArray>)
        ensures
            r.is_some() == (rows * cols == data@.len()),
            r.is_some() ==> r.unwrap().is_matrix(rows, cols) && r.unwrap()@ == decimals(data@),
    {
        let mut dims: Vec<usize> = Vec::new();
        dims.push(rows);
        dims.push(cols);
        proof {
            assert(dims@ =~= seq![rows, cols]);
            lemma_volume_of_matrix(rows, cols);
        }
        BigFloatArray::from_vec(dims, data)
    }

    /// The same elements under another shape. `None` where the new shape
    /// holds another number of elements.
    pub fn reshaped(&self, dims: Vec<usize>) -> (r: Option<BigFloatArray>)
        ensures
            r.is_some() == (volume(dims@) == self@.len()),
            r.is_some() ==> r.unwrap().wf() && r.unwrap().shape() == dims@ && r.unwrap()@ == self@,
    {
        BigFloatArray::from_vec(dims, self.to_vec())
    }

    /// The sum of all elements.
    pub fn sum(&self) -> (r: Scalar)
        ensures
            r@ == array_sum(self@),
    {
        sum_of(&self.to_vec())
    }

    /// The matrix product of two matrices whose inner extents agree.
    pub fn dot(&self, other: &BigFloatArray) -> (r: BigFloatArray)
        requires
            self.wf(),
            other.wf(),
            self.shape().len() == 2,
            other.shape().len() == 2,
            self.shape()[1] == other.shape()[0],
            addressable(self.shape()[0] * other.shape()[1]),
        ensures
            r.is_matrix(self.shape()[0], other.shape()[1]),
            r@ == dot_items(
                self.shape()[0] as nat,
                self.shape()[1] as nat,
                other.shape()[1] as nat,
                self@,
                other@,
            ),
    {
        let rows = self.nrows();
        let inner = self.ncols();
        let cols = other.ncols();
        proof {
            assert(self.shape() =~= seq![rows, inner]);
            assert(other.shape() =~= seq![inner, cols]);
            lemma_volume_of_matrix(rows, inner);
            lemma_volume_of_matrix(inner, cols);
            lemma_volume_of_matrix(rows, cols);
        }
        if rows == 0 || cols == 0 {
            assert(rows * cols == 0) by (nonlinear_arith)
                requires
                    rows == 0 || cols == 0,
            ;
            let r = BigFloatArray::matrix(rows, cols, Vec::new()).unwrap();
            assert(r@ =~= Seq::<Decimal>::empty());
            r
        } else if inner == 0 {
            let mut dims: Vec<usize> = Vec::new();
            dims.push(rows);
            dims.push(cols);
            assert(dims@ =~= seq![rows, cols]);
            let r = BigFloatArray::zeros(dims).unwrap();
            assert(r@ =~= Seq::new((rows * cols) as nat, |k: int| decimal_of_int(0)));
            r
        } else {
            let left = self.to_vec();
            let right = other.to_vec();
            let data = ndarray_dot(rows, inner, cols, &left, &right);
            BigFloatArray::matrix(rows, cols, data).unwrap()
        }
    }

    /// The elements of the row that starts at `start`, as a vector.
    pub fn row_vec(&self, start: usize, width: usize) -> (r: Vec<Scalar>)
        requires
            start + width <= self@.len(),
        ensures
            r.len() == width,
            decimals(r@) == row_at(self@, start as int, width as int),
    {
        proof {
            self.lemma_len_fits();
        }
        let mut out: Vec<Scalar> = Vec::new();
        let mut j: usize = 0;
        while j < width
            invariant
                j <= width,
                out.len() == j,
                start + width <= self@.len(),
                self@.len() <= usize::MAX,
                forall|k: int| 0 <= k < j ==> (#[trigger] out@[k])@ == self@[start + k],
            decreases width - j,
        {
            out.push(self.get(start + j));
            j += 1;
        }
        proof {
            assert(decimals(out@) =~= row_at(self@, start as int, width as int));
        }
        out
    }

    /// Row `index` of a matrix, as a vector.
    pub fn row(&self, index: usize) -> (r: BigFloatArray)
        requires
            self.wf(),
            self.shape().len() == 2,
            index < self.shape()[0],
        ensures
            r.is_vector(self.shape()[1]),
            r@ == row_at(self@, index * self.shape()[1], self.shape()[1] as int),
    {
        let rows = self.nrows();
        let cols = self.ncols();
        proof {
            self.lemma_len_fits();
        }
        proof {
            assert(self.shape() =~= seq![rows, cols]);
            lemma_volume_of_matrix(rows, cols);
            lemma_row_start(rows as int, cols as int, index as int);
        }
        let start = index * cols;
        BigFloatArray::vector(self.row_vec(start, cols))
    }

    /// `count` rows of a matrix from row `first` on, as a matrix.
    pub fn rows_slice(&self, first: usize, count: usize) -> (r: BigFloatArray)
        requires
            self.wf(),
            self.shape().len() == 2,
            first + count <= self.shape()[0],
        ensures
            r.is_matrix(count, self.shape()[1]),
            r@ == row_at(self@, first * self.shape()[1], count * self.shape()[1]),
    {
        let rows = self.nrows();
        let cols = self.ncols();
        proof {
            self.lemma_len_fits();
        }
        proof {
            assert(self.shape() =~= seq![rows, cols]);
            lemma_volume_of_matrix(rows, cols);
            assert(first * cols + count * cols == (first + count) * cols && (first + count) * cols
                <= rows * cols && 0 <= first * cols && 0 <= count * cols) by (nonlinear_arith)
                requires
                    first + count <= rows,
                    0 <= first,
                    0 <= count,
                    0 <= cols,
            ;
        }
        let data = self.row_vec(first * cols, count * cols);
        BigFloatArray::matrix(count, cols, data).unwrap()
    }

    /// A matrix with the vector `row` added to each of its rows.
    pub fn add_row(&self, row: &BigFloatArray) -> (r: BigFloatArray)
        requires
            self.wf(),
            self.shape().len() == 2,
            row.is_vector(self.shape()[1]),
        ensures
            r.wf(),
            r.shape() == self.shape(),
            r@ == add_to_rows(self@, row@),
    {
        let rows = self.nrows();
        let cols = self.ncols();
        proof {
            self.lemma_len_fits();
        }
        proof {
            assert(self.shape() =~= seq![rows, cols]);
            lemma_volume_of_matrix(rows, cols);
            lemma_volume_of_vector(cols);
        }
        if cols == 0 {
            assert(rows * cols == 0) by (nonlinear_arith)
                requires
                    cols == 0,
            ;
            let out = self.duplicate();
            assert(out@ =~= Seq::<Decimal>::empty());
            return out;
        }
        let mut data: Vec<Scalar> = Vec::new();
        let mut i: usize = 0;
        let mut start: usize = 0;
        proof {
            assert(self@.take(0) =~= Seq::<Decimal>::empty());
            assert(decimals(data@) =~= Seq::<Decimal>::empty());
        }
        while i < rows
            invariant
                i <= rows,
                cols > 0,
                start == i * cols,
                self@.len() == rows * cols,
                self@.len() <= usize::MAX,
                row@.len() == cols,
                data@.len() == start,
                decimals(data@) == add_to_rows(self@.take(start as int), row@),
            decreases rows - i,
        {
            proof {
                lemma_row_start(rows as int, cols as int, i as int);
            }
            let ghost before = data@;
            let mut j: usize = 0;
            while j < cols
                invariant
                    j <= cols,
                    start + cols <= self@.len(),
                    self@.len() <= usize::MAX,
                    row@.len() == cols,
                    data@.len() == start + j,
                    before.len() == start,
                    forall|k: int| 0 <= k < start ==> data@[k] == before[k],
                    forall|k: int|
                        start <= k < start + j ==> (#[trigger] data@[k])@ == decimal_sum(
                            self@[k],
                            row@[k - start],
                        ),
                decreases cols - j,
            {
                let value = self.get(start + j).plus(row.get(j));
                data.push(value);
                j += 1;
            }
            proof {
                let next = start + cols;
                let prefix = self@.take(next);
                assert(prefix.take(prefix.len() - row@.len()) =~= self@.take(start as int));
                assert(decimals(data@) =~= decimals(before) + zip_sum(
                    prefix.skip(prefix.len() - row@.len()),
                    row@,
                ));
            }
            start = start + cols;
            i += 1;
        }
        proof {
            assert(self@.take(start as int) =~= self@);
        }
        BigFloatArray::matrix(rows, cols, data).unwrap()
    }

    /// The rows of a matrix that `indices` name, in that order, as a matrix.
    pub fn select_rows(&self, indices: &Vec<usize>) -> (r: BigFloatArray)
        requires
            self.wf(),
            self.shape().len() == 2,
            forall|k: int| 0 <= k < indices@.len() ==> indices@[k] < self.shape()[0],
            indices@.len() * self.shape()[1] <= usize::MAX,
        ensures
            r.is_matrix(indices.len(), self.shape()[1]),
            r@ == gather_rows(self@, self.shape()[1] as int, indices@),
    {
        let rows = self.nrows();
        let cols = self.ncols();
        proof {
            self.lemma_len_fits();
        }
        proof {
            assert(self.shape() =~= seq![rows, cols]);
            lemma_volume_of_matrix(rows, cols);
        }
        let mut data: Vec<Scalar> = Vec::new();
        let mut i: usize = 0;
        proof {
            assert(indices@.take(0) =~= Seq::<usize>::empty());
            assert(decimals(data@) =~= Seq::<Decimal>::empty());
            assert(0 * cols == 0) by (nonlinear_arith);
        }
        while i < indices.len()
            invariant
                i <= indices.len(),
                self@.len() == rows * cols,
                self@.len() <= usize::MAX,
                forall|k: int| 0 <= k < indices@.len() ==> indices@[k] < rows,
                data@.len() == i * cols,
                decimals(data@) == gather_rows(self@, cols as int, indices@.take(i as int)),
            decreases indices.len() - i,
        {
            let index = indices[i];
            proof {
                lemma_row_start(rows as int, cols as int, index as int);
                assert((i + 1) * cols == i * cols + cols) by (nonlinear_arith);
            }
            let start = index * cols;
            let ghost before = data@;
            let mut j: usize = 0;
            while j < cols
                invariant
                    j <= cols,
                    start + cols <= self@.len(),
                    self@.len() <= usize::MAX,
                    data@.len() == before.len() + j,
                    forall|k: int| 0 <= k < before.len() ==> data@[k] == before[k],
                    forall|k: int|
                        before.len() <= k < data@.len() ==> (#[trigger] data@[k])@ == self@[start + k
                            - before.len()],
                decreases cols - j,
            {
                data.push(self.get(start + j));
                j += 1;
            }
            proof {
                let taken = indices@.take(i + 1);
                assert(taken.drop_last() =~= indices@.take(i as int));
                assert(taken.last() == index);
                assert(decimals(data@) =~= decimals(before) + row_at(
                    self@,
                    index * cols,
                    cols as int,
                ));
            }
            i += 1;
        }
        proof {
            assert(indices@.take(indices.len() as int) =~= indices@);
        }
        BigFloatArray::matrix(indices.len(), cols, data).unwrap()
    }

    /// For each row of a matrix, the position of its first greatest element:
    /// ties go to the lowest position.
    pub fn argmax_rows(&self) -> (r: Vec<usize>)
        requires
            self.wf(),
            self.shape().len() == 2,
        ensures
            r@ == row_argmaxes(self@, self.shape()[1] as int, self.shape()[0] as nat),
    {
        let rows = self.nrows();
        let cols = self.ncols();
        proof {
            self.lemma_len_fits();
        }
        proof {
            assert(self.shape() =~= seq![rows, cols]);
            lemma_volume_of_matrix(rows, cols);
            assert(0 * cols == 0) by (nonlinear_arith);
        }
        let mut out: Vec<usize> = Vec::new();
        let mut i: usize = 0;
        let mut start: usize = 0;
        while i < rows
            invariant
                i <= rows,
                start == i * cols,
                self@.len() == rows * cols,
                self@.len() <= usize::MAX,
                out.len() == i,
                forall|k: int|
                    0 <= k < i ==> #[trigger] out@[k] == argmax(row_at(self@, k * cols, cols as int)),
            decreases rows - i,
        {
            proof {
                lemma_row_start(rows as int, cols as int, i as int);
            }
            let row = self.row_vec(start, cols);
            out.push(argmax_of(&row));
            start = start + cols;
            i += 1;
        }
        proof {
            assert(out@ =~= row_argmaxes(self@, cols as int, rows as nat));
        }
        out
    }
}

} // verus!
