//! Numerical differentiation.
//!
//! A derivative is estimated by the central difference
//! `(f(x + h) - f(x - h)) / (2h)` with `h` one ten-thousandth. For a function
//! of an array, each element is perturbed in turn while the others keep
//! their values, and is restored before the next one is touched.
use crate::bigfloat_array::BigFloatArray;
use crate::scalar::{
    decimal_difference, decimal_of_int, decimal_product, decimal_quotient, decimal_ratio,
    decimal_sum, Decimal, Scalar,
};
use vstd::prelude::*;

verus! {

/// The step `h` of the central difference: one ten-thousandth.
pub open spec fn finite_step() -> Decimal {
    decimal_ratio(1, 10_000)
}

/// `(ahead - behind) / (2h)`.
pub open spec fn central_difference(ahead: Decimal, behind: Decimal) -> Decimal {
    decimal_quotient(
        decimal_difference(ahead, behind),
        decimal_product(decimal_of_int(2), finite_step()),
    )
}

/// `0.01 x^2 + 0.1 x`.
pub open spec fn parabola(x: Decimal) -> Decimal {
    decimal_sum(
        decimal_product(decimal_ratio(1, 100), decimal_product(x, x)),
        decimal_product(decimal_ratio(1, 10), x),
    )
}

/// `x0^2 + x1^2`.
pub open spec fn paraboloid(x: Seq<Decimal>) -> Decimal {
    decimal_sum(decimal_product(x[0], x[0]), decimal_product(x[1], x[1]))
}

/// Whether `slope` is a central difference of `f` at `x`: the quotient over
/// some values that `f` may return one step ahead of `x` and one step behind.
pub open spec fn is_slope<F: Fn(Scalar) -> Scalar>(f: F, x: Decimal, slope: Decimal) -> bool {
    exists|ahead: Scalar, behind: Scalar, f_ahead: Scalar, f_behind: Scalar|
        ahead@ == decimal_sum(x, finite_step()) && behind@ == decimal_difference(x, finite_step())
            && #[trigger] f.ensures((ahead,), f_ahead) && #[trigger] f.ensures(
            (behind,),
            f_behind,
        ) && slope == central_difference(f_ahead@, f_behind@)
}

/// Whether `slope` is a central difference of `f` along element `i` of an
/// array of the given shape and elements: `f` is asked at the array with
/// element `i` one step ahead, and with element `i` one step behind, every
/// other element as it is.
pub open spec fn is_partial<F: Fn(&BigFloatArray) -> Scalar>(
    f: F,
    shape: Seq<usize>,
    x: Seq<Decimal>,
    i: int,
    slope: Decimal,
) -> bool {
    exists|ahead: BigFloatArray, behind: BigFloatArray, f_ahead: Scalar, f_behind: Scalar|
        ahead.shape() == shape && ahead@ == x.update(i, decimal_sum(x[i], finite_step()))
            && behind.shape() == shape && behind@ == x.update(
            i,
            decimal_difference(x[i], finite_step()),
        ) && #[trigger] f.ensures((&ahead,), f_ahead) && #[trigger] f.ensures((&behind,), f_behind)
            && slope == central_difference(f_ahead@, f_behind@)
}

/// Whether `slopes` holds, for every element of `x`, a central difference
/// of `f` along that element.
pub open spec fn is_gradient<F: Fn(&BigFloatArray) -> Scalar>(
    f: F,
    shape: Seq<usize>,
    x: Seq<Decimal>,
    slopes: Seq<Decimal>,
) -> bool {
    slopes.len() == x.len() && forall|i: int|
        0 <= i < x.len() ==> is_partial(f, shape, x, i, #[trigger] slopes[i])
}

/// Whether `to` is one step of gradient descent from `from`: every element
/// moved against a numerical gradient of `f`, scaled by `rate`.
pub open spec fn is_descent_step<F: Fn(&BigFloatArray) -> Scalar>(
    f: F,
    rate: Decimal,
    shape: Seq<usize>,
    from: Seq<Decimal>,
    to: Seq<Decimal>,
) -> bool {
    exists|slopes: Seq<Decimal>| #[trigger]
        is_gradient(f, shape, from, slopes) && to.len() == from.len() && forall|i: int|
            0 <= i < from.len() ==> #[trigger] to[i] == decimal_difference(
                from[i],
                decimal_product(rate, slopes[i]),
            )
}

/// `0.01 x^2 + 0.1 x`.
pub fn function_1(x: Scalar) -> (r: Scalar)
    ensures
        r@ == parabola(x@),
{
    Scalar::ratio(1, 100).times(x.times(x)).plus(Scalar::ratio(1, 10).times(x))
}

/// `x0^2 + x1^2` of an array of at least two elements.
pub fn function_2(x: &BigFloatArray) -> (r: Scalar)
    requires
        x@.len() >= 2,
    ensures
        r@ == paraboloid(x@),
{
    let x0 = x.get(0);
    let x1 = x.get(1);
    x0.times(x0).plus(x1.times(x1))
}

/// The central difference of `f` at `x`.
pub fn numerical_diff<F: Fn(Scalar) -> Scalar>(f: F, x: Scalar) -> (r: Scalar)
    requires
        forall|s: Scalar|
            (s@ == decimal_sum(x@, finite_step()) || s@ == decimal_difference(x@, finite_step()))
                ==> #[trigger] f.requires((s,)),
    ensures
        is_slope(f, x@, r@),
{
    let h = Scalar::ratio(1, 10_000);
    let ahead = x.plus(h);
    let behind = x.minus(h);
    let f_ahead = f(ahead);
    let f_behind = f(behind);
    f_ahead.minus(f_behind).over(Scalar::from_int(2).times(h))
}

/// The numerical gradient of `f` at `x`, computed on `x` itself: each
/// element in turn is set one step ahead, then one step behind, and `f` is
/// asked both times; then the element gets its own value back. When the
/// sweep returns, `x` holds what it held before.
pub fn numerical_gradient_in_place<F: Fn(&BigFloatArray) -> Scalar>(
    f: F,
    x: &mut BigFloatArray,
) -> (grad: BigFloatArray)
    requires
        old(x).wf(),
        forall|p: BigFloatArray|
            p.wf() && p.shape() == old(x).shape() ==> #[trigger] f.requires((&p,)),
    ensures
        final(x).shape() == old(x).shape(),
        final(x)@ == old(x)@,
        grad.wf(),
        grad.shape() == old(x).shape(),
        is_gradient(f, old(x).shape(), old(x)@, grad@),
{
    let h = Scalar::ratio(1, 10_000);
    let two_h = Scalar::from_int(2).times(h);
    let total = x.len();
    let mut slopes: Vec<Scalar> = Vec::new();
    let mut i: usize = 0;
    while i < total
        invariant
            i <= total,
            x.wf(),
            x.shape() == old(x).shape(),
            x@ == old(x)@,
            x@.len() == total,
            slopes.len() == i,
            h@ == finite_step(),
            two_h@ == decimal_product(decimal_of_int(2), finite_step()),
            forall|p: BigFloatArray|
                p.wf() && p.shape() == old(x).shape() ==> #[trigger] f.requires((&p,)),
            forall|k: int|
                0 <= k < i ==> is_partial(f, old(x).shape(), old(x)@, k, (#[trigger] slopes@[k])@),
        decreases total - i,
    {
        let v = x.get(i);
        x.set(i, v.plus(h));
        let ghost ahead = *x;
        let f_ahead = f(&*x);
        x.set(i, v.minus(h));
        let ghost behind = *x;
        let f_behind = f(&*x);
        x.set(i, v);
        let slope = f_ahead.minus(f_behind).over(two_h);
        proof {
            assert(x@ =~= old(x)@);
            assert(ahead@ =~= old(x)@.update(
                i as int,
                decimal_sum(old(x)@[i as int], finite_step()),
            ));
            assert(behind@ =~= old(x)@.update(
                i as int,
                decimal_difference(old(x)@[i as int], finite_step()),
            ));
            assert(f.ensures((&ahead,), f_ahead));
            assert(f.ensures((&behind,), f_behind));
            assert(is_partial(f, old(x).shape(), old(x)@, i as int, slope@));
        }
        slopes.push(slope);
        i += 1;
    }
    let grad = BigFloatArray::from_vec(x.shape_vec(), slopes).unwrap();
    proof {
        assert forall|k: int| 0 <= k < old(x)@.len() implies is_partial(
            f,
            old(x).shape(),
            old(x)@,
            k,
            #[trigger] grad@[k],
        ) by {
            assert(grad@[k] == slopes@[k]@);
        }
    }
    grad
}

/// The numerical gradient of `f` at `x`: for every element of `x`, the
/// central difference of `f` along that element. The result has the shape
/// of `x`.
pub fn numerical_gradient<F: Fn(&BigFloatArray) -> Scalar>(f: F, x: &BigFloatArray) -> (grad:
    BigFloatArray)
    requires
        x.wf(),
        forall|p: BigFloatArray| p.wf() && p.shape() == x.shape() ==> #[trigger] f.requires((&p,)),
    ensures
        grad.wf(),
        grad.shape() == x.shape(),
        is_gradient(f, x.shape(), x@, grad@),
{
    let mut scratch = x.duplicate();
    numerical_gradient_in_place(f, &mut scratch)
}

/// Gradient descent on `f` from `init_x`: `step_num` times (one hundred by
/// default), `x` becomes `x - lr * gradient` with `lr` one hundredth by
/// default. Returns the last `x` and, for every step, the `x` it started
/// from.
pub fn gradient_descent<F: Fn(&BigFloatArray) -> Scalar + Copy>(
    f: F,
    init_x: &BigFloatArray,
    lr: Option<Scalar>,
    step_num: Option<usize>,
) -> (r: (BigFloatArray, Vec<BigFloatArray>))
    requires
        init_x.wf(),
        forall|p: BigFloatArray|
            p.wf() && p.shape() == init_x.shape() ==> #[trigger] f.requires((&p,)),
    ensures
        r.0.wf(),
        r.0.shape() == init_x.shape(),
        r.1@.len() == descent_steps(step_num),
        forall|k: int|
            0 <= k < r.1@.len() ==> (#[trigger] r.1@[k]).wf() && r.1@[k].shape() == init_x.shape(),
        r.1@.len() == 0 ==> r.0@ == init_x@,
        r.1@.len() > 0 ==> r.1@[0]@ == init_x@ && is_descent_step(
            f,
            descent_rate(lr),
            init_x.shape(),
            r.1@[r.1@.len() - 1]@,
            r.0@,
        ),
        forall|k: int|
            0 <= k < r.1@.len() - 1 ==> is_descent_step(
                f,
                descent_rate(lr),
                init_x.shape(),
                (#[trigger] r.1@[k])@,
                r.1@[k + 1]@,
            ),
{
    let rate = match lr {
        Some(value) => value,
        None => Scalar::ratio(1, 100),
    };
    let steps = match step_num {
        Some(value) => value,
        None => 100,
    };
    let mut x = init_x.duplicate();
    let mut x_history: Vec<BigFloatArray> = Vec::new();
    let mut k: usize = 0;
    while k < steps
        invariant
            k <= steps,
            x.wf(),
            x.shape() == init_x.shape(),
            rate@ == descent_rate(lr),
            x_history@.len() == k,
            forall|p: BigFloatArray|
                p.wf() && p.shape() == init_x.shape() ==> #[trigger] f.requires((&p,)),
            forall|j: int|
                0 <= j < k ==> (#[trigger] x_history@[j]).wf() && x_history@[j].shape()
                    == init_x.shape(),
            k == 0 ==> x@ == init_x@,
            k > 0 ==> x_history@[0]@ == init_x@ && is_descent_step(
                f,
                rate@,
                init_x.shape(),
                x_history@[k - 1]@,
                x@,
            ),
            forall|j: int|
                0 <= j < k - 1 ==> is_descent_step(
                    f,
                    rate@,
                    init_x.shape(),
                    (#[trigger] x_history@[j])@,
                    x_history@[j + 1]@,
                ),
        decreases steps - k,
    {
        x_history.push(x.duplicate());
        let grad = numerical_gradient(f, &x);
        let ghost from = x@;
        x = x.sub(&BigFloatArray::scalar_mul(&rate, &grad));
        proof {
            assert(is_gradient(f, init_x.shape(), from, grad@));
            assert(is_descent_step(f, rate@, init_x.shape(), from, x@));
        }
        k += 1;
    }
    (x, x_history)
}

/// The learning rate of a descent: the one given, or one hundredth.
pub open spec fn descent_rate(lr: Option<Scalar>) -> Decimal {
    match lr {
        Some(value) => value@,
        None => decimal_ratio(1, 100),
    }
}

/// The number of steps of a descent: the one given, or one hundred.
pub open spec fn descent_steps(step_num: Option<usize>) -> int {
    match step_num {
        Some(value) => value as int,
        None => 100,
    }
}

} // verus!
