//! Loss functions: how far a prediction is from its target.
use crate::bigfloat_array::BigFloatArray;
use crate::linalg::array_sum;
use crate::scalar::{
    decimal_difference, decimal_ln, decimal_negation, decimal_of_int, decimal_product,
    decimal_quotient, decimal_ratio, decimal_sum, Decimal, Scalar,
};
use vstd::prelude::*;

verus! {

/// The small number added to a prediction before its logarithm is taken:
/// one ten-millionth.
pub open spec fn log_guard() -> Decimal {
    decimal_ratio(1, 10_000_000)
}

/// Target times the logarithm of the guarded prediction, position by
/// position.
pub open spec fn weighted_logs(y: Seq<Decimal>, t: Seq<Decimal>) -> Seq<Decimal> {
    Seq::new(y.len(), |i: int| decimal_product(t[i], decimal_ln(decimal_sum(y[i], log_guard()))))
}

/// `-sum(t * ln(y + guard)) / batch`.
pub open spec fn cross_entropy(y: Seq<Decimal>, t: Seq<Decimal>, batch: int) -> Decimal {
    decimal_quotient(decimal_negation(array_sum(weighted_logs(y, t))), decimal_of_int(batch))
}

/// The squares of the differences, position by position.
pub open spec fn squared_differences(y: Seq<Decimal>, t: Seq<Decimal>) -> Seq<Decimal> {
    Seq::new(
        y.len(),
        |i: int|
            decimal_product(decimal_difference(y[i], t[i]), decimal_difference(y[i], t[i])),
    )
}

/// Half the sum of the squared differences.
pub open spec fn sum_squares(y: Seq<Decimal>, t: Seq<Decimal>) -> Decimal {
    decimal_product(decimal_ratio(1, 2), array_sum(squared_differences(y, t)))
}

/// The cross-entropy error of predictions `y` against targets `t` of the
/// same shape, averaged over the first axis.
pub fn cross_entropy_error(y: &BigFloatArray, t: &BigFloatArray) -> (r: Scalar)
    requires
        y.wf(),
        t.wf(),
        y.shape() == t.shape(),
        y.shape().len() >= 1,
    ensures
        r@ == cross_entropy(y@, t@, y.shape()[0] as int),
{
    let delta = Scalar::ratio(1, 10_000_000);
    let batch_size = Scalar::from_count(y.dims()[0]);
    let logs = y.add_scalar(&delta).ln();
    let weighted = t.mul(&logs);
    proof {
        assert(weighted@ =~= weighted_logs(y@, t@));
    }
    weighted.sum().negated().over(batch_size)
}

/// Half the sum of the squared differences between predictions `y` and
/// targets `t` of the same shape.
pub fn sum_squares_error(y: &BigFloatArray, t: &BigFloatArray) -> (r: Scalar)
    requires
        y.wf(),
        t.wf(),
        y.shape() == t.shape(),
    ensures
        r@ == sum_squares(y@, t@),
{
    let differences = y.sub(t);
    let squares = differences.mul(&differences);
    proof {
        assert(squares@ =~= squared_differences(y@, t@));
    }
    Scalar::ratio(1, 2).times(squares.sum())
}

} // verus!
