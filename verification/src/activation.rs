//! Activation functions.
//!
//! Each is applied element by element, but for [`softmax`], which works on
//! whole rows: the row is the last axis of the array.
use crate::bigfloat_array::{volume, BigFloatArray};
use crate::linalg::{argmax, argmax_of, array_sum, row_at, sum_of};
use crate::scalar::{
    decimal_difference, decimal_exp, decimal_gt, decimal_negation, decimal_of_int,
    decimal_quotient, decimal_sum, decimals, Decimal, Scalar,
};
use vstd::prelude::*;

verus! {

/// One where the value is ordered above zero, zero elsewhere.
pub open spec fn decimal_step(value: Decimal) -> Decimal {
    if decimal_gt(value, decimal_of_int(0)) {
        decimal_of_int(1)
    } else {
        decimal_of_int(0)
    }
}

/// The value where it is ordered above zero, zero elsewhere.
pub open spec fn decimal_relu(value: Decimal) -> Decimal {
    if decimal_gt(value, decimal_of_int(0)) {
        value
    } else {
        decimal_of_int(0)
    }
}

/// `1 / (exp(-x) + 1)`.
pub open spec fn decimal_sigmoid(value: Decimal) -> Decimal {
    decimal_quotient(
        decimal_of_int(1),
        decimal_sum(decimal_exp(decimal_negation(value)), decimal_of_int(1)),
    )
}

/// The exponentials of a row's elements, each taken after the row's first
/// greatest element was subtracted.
pub open spec fn shifted_powers(row: Seq<Decimal>) -> Seq<Decimal> {
    Seq::new(row.len(), |j: int| decimal_exp(decimal_difference(row[j], row[argmax(row)])))
}

/// The softmax of one row: the shifted exponentials, each divided by their
/// sum.
pub open spec fn softmax_row(row: Seq<Decimal>) -> Seq<Decimal> {
    Seq::new(
        row.len(),
        |j: int| decimal_quotient(shifted_powers(row)[j], array_sum(shifted_powers(row))),
    )
}

/// The softmax of each row of the given width of a row-major sequence.
pub open spec fn softmax_rows(items: Seq<Decimal>, width: nat) -> Seq<Decimal>
    decreases items.len(),
{
    if width == 0 || items.len() < width {
        Seq::empty()
    } else {
        softmax_rows(items.take(items.len() - width), width) + softmax_row(
            items.skip(items.len() - width),
        )
    }
}

/// A row whose elements are all the same has a softmax whose elements are
/// all the same.
pub proof fn lemma_softmax_of_tied_row(row: Seq<Decimal>)
    requires
        forall|j: int| 0 <= j < row.len() ==> #[trigger] row[j] == row[0],
    ensures
        forall|j: int| 0 <= j < row.len() ==> #[trigger] softmax_row(row)[j] == softmax_row(row)[0],
{
    assert forall|j: int| 0 <= j < row.len() implies #[trigger] shifted_powers(row)[j]
        == shifted_powers(row)[0] by {
        assert(row[j] == row[0]);
    }
}

/// The step function of one scalar.
pub fn step_of(value: Scalar) -> (r: Scalar)
    ensures
        r@ == decimal_step(value@),
{
    if value.gt(Scalar::from_int(0)) {
        Scalar::from_int(1)
    } else {
        Scalar::from_int(0)
    }
}

/// The rectifier of one scalar.
pub fn relu_of(value: Scalar) -> (r: Scalar)
    ensures
        r@ == decimal_relu(value@),
{
    if value.gt(Scalar::from_int(0)) {
        value
    } else {
        Scalar::from_int(0)
    }
}

/// The sigmoid of one scalar.
pub fn sigmoid_of(value: Scalar) -> (r: Scalar)
    ensures
        r@ == decimal_sigmoid(value@),
{
    Scalar::from_int(1).over(value.negated().exp().plus(Scalar::from_int(1)))
}

/// The array itself.
pub fn identity_function(x: &BigFloatArray) -> (r: BigFloatArray)
    ensures
        r.shape() == x.shape(),
        r@ == x@,
{
    x.duplicate()
}

/// One for every element above zero, zero for the others.
pub fn step_function(x: &BigFloatArray) -> (r: BigFloatArray)
    requires
        x.wf(),
    ensures
        r.wf(),
        r.shape() == x.shape(),
        forall|i: int| 0 <= i < x@.len() ==> #[trigger] r@[i] == decimal_step(x@[i]),
{
    x.map_with(step_of, Ghost(|d: Decimal| decimal_step(d)))
}

/// Every element above zero kept, every other replaced by zero.
pub fn relu(x: &BigFloatArray) -> (r: BigFloatArray)
    requires
        x.wf(),
    ensures
        r.wf(),
        r.shape() == x.shape(),
        forall|i: int| 0 <= i < x@.len() ==> #[trigger] r@[i] == decimal_relu(x@[i]),
{
    x.map_with(relu_of, Ghost(|d: Decimal| decimal_relu(d)))
}

/// The sigmoid of every element.
pub fn sigmoid(x: &BigFloatArray) -> (r: BigFloatArray)
    requires
        x.wf(),
    ensures
        r.wf(),
        r.shape() == x.shape(),
        forall|i: int| 0 <= i < x@.len() ==> #[trigger] r@[i] == decimal_sigmoid(x@[i]),
{
    x.map_with(sigmoid_of, Ghost(|d: Decimal| decimal_sigmoid(d)))
}

/// The softmax of one row given as a vector of scalars.
pub fn softmax_vec(row: &Vec<Scalar>) -> (r: Vec<Scalar>)
    ensures
        r.len() == row.len(),
        decimals(r@) == softmax_row(decimals(row@)),
{
    let top_at = argmax_of(row);
    let powers = shifted_powers_of(row, top_at);
    let total = sum_of(&powers);
    let ghost shifted = shifted_powers(decimals(row@));
    let mut out: Vec<Scalar> = Vec::new();
    let mut k: usize = 0;
    while k < row.len()
        invariant
            k <= row.len(),
            out.len() == k,
            powers.len() == row.len(),
            decimals(powers@) == shifted,
            total@ == array_sum(shifted),
            forall|m: int|
                0 <= m < k ==> (#[trigger] out@[m])@ == decimal_quotient(shifted[m], array_sum(shifted)),
        decreases row.len() - k,
    {
        out.push(powers[k].over(total));
        k += 1;
    }
    proof {
        assert(decimals(out@) =~= softmax_row(decimals(row@)));
    }
    out
}

/// The shifted exponentials of a row, given where its greatest element is.
fn shifted_powers_of(row: &Vec<Scalar>, top_at: usize) -> (r: Vec<Scalar>)
    requires
        top_at == argmax(decimals(row@)),
        row.len() > 0 ==> top_at < row.len(),
    ensures
        r.len() == row.len(),
        decimals(r@) == shifted_powers(decimals(row@)),
{
    let mut powers: Vec<Scalar> = Vec::new();
    let mut j: usize = 0;
    while j < row.len()
        invariant
            j <= row.len(),
            powers.len() == j,
            row.len() > 0 ==> top_at < row.len(),
            top_at == argmax(decimals(row@)),
            forall|k: int|
                0 <= k < j ==> (#[trigger] powers@[k])@ == decimal_exp(
                    decimal_difference(row@[k]@, row@[top_at as int]@),
                ),
        decreases row.len() - j,
    {
        powers.push(row[j].minus(row[top_at]).exp());
        j += 1;
    }
    proof {
        assert(decimals(powers@) =~= shifted_powers(decimals(row@)));
    }
    powers
}

/// The softmax of every row of an array: of the array itself where it is a
/// vector, of each stretch along the last axis elsewhere. Before the
/// exponentials are taken, the row's greatest element is subtracted.
pub fn softmax(x: &BigFloatArray) -> (r: BigFloatArray)
    requires
        x.wf(),
        x.shape().len() >= 1,
    ensures
        r.wf(),
        r.shape() == x.shape(),
        r@ == softmax_rows(x@, x.shape().last() as nat),
{
    let rank = x.ndim();
    let width = x.dims()[rank - 1];
    let total = x.len();
    let ghost count = volume(x.shape().drop_last());
    let mut data: Vec<Scalar> = Vec::new();
    let mut start: usize = 0;
    let ghost mut done: nat = 0;
    proof {
        assert(x@.take(0) =~= Seq::<Decimal>::empty());
        assert(decimals(data@) =~= Seq::<Decimal>::empty());
        assert(0 * width == 0) by (nonlinear_arith);
    }
    if width == 0 {
        assert(count * (width as nat) == 0) by (nonlinear_arith)
            requires
                width == 0,
        ;
        let out = x.duplicate();
        assert(out@ =~= Seq::<Decimal>::empty());
        return out;
    }
    while start < total
        invariant
            width > 0,
            start <= total,
            start == done * width,
            total == count * width,
            x@.len() == total,
            data@.len() == start,
            decimals(data@) == softmax_rows(x@.take(start as int), width as nat),
        decreases total - start,
    {
        proof {
            assert(done < count && (done + 1) * width <= count * width && (done + 1) * width == done
                * width + width) by (nonlinear_arith)
                requires
                    done * width < count * width,
                    width > 0,
            ;
        }
        let row = x.row_vec(start, width);
        let row_out = softmax_vec(&row);
        let ghost before = data@;
        let mut j: usize = 0;
        while j < width
            invariant
                j <= width,
                row_out.len() == width,
                data@.len() == before.len() + j,
                forall|k: int| 0 <= k < before.len() ==> data@[k] == before[k],
                forall|k: int|
                    before.len() <= k < data@.len() ==> #[trigger] data@[k] == row_out@[k
                        - before.len()],
            decreases width - j,
        {
            data.push(row_out[j]);
            j += 1;
        }
        proof {
            let next = start + width;
            let prefix = x@.take(next);
            assert(prefix.take(prefix.len() - width) =~= x@.take(start as int));
            assert(prefix.skip(prefix.len() - width) =~= row_at(x@, start as int, width as int));
            assert(decimals(data@) =~= decimals(before) + decimals(row_out@));
            done = done + 1;
        }
        start = start + width;
    }
    proof {
        assert(x@.take(start as int) =~= x@);
    }
    BigFloatArray::from_vec(x.shape_vec(), data).unwrap()
}

} // verus!
