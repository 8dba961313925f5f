//! The points of a function's graph and of its tangent.
//!
//! A picture of a function shows two series over the same abscissas, one
//! hundred per unit from -1 up to 20: the function itself, and the line
//! that touches it at 5 with the slope that the central difference gives.
//! This module computes the points; putting them on a canvas is left to the
//! caller.
use crate::gradient::{is_slope, numerical_diff};
use crate::scalar::{
    decimal_difference, decimal_of_int, decimal_product, decimal_ratio, decimal_sum, Decimal, Scalar,
};
use vstd::prelude::*;

verus! {

/// The first abscissa, in hundredths.
pub const FIRST_HUNDREDTH: i64 = -100;

/// The number of abscissas.
pub const ABSCISSAS: usize = 2100;

/// What is drawn: a function and the caption of its picture.
pub struct DrawContent<F: Fn(Scalar) -> Scalar + Copy> {
    pub function: F,
    pub caption: String,
}

/// Abscissa number `k`: `(k - 100) / 100`.
pub open spec fn abscissa(k: int) -> Decimal {
    decimal_ratio(k - 100, 100)
}

/// Whether `y` is the ordinate at `x` of a tangent of `f` at 5: a slope of
/// `f` at 5 times `x - 5`, plus a value of `f` at 5.
pub open spec fn is_tangent_point<F: Fn(Scalar) -> Scalar>(f: F, x: Decimal, y: Decimal) -> bool {
    exists|slope: Scalar, at: Scalar, value: Scalar|
        #[trigger] is_slope(f, at@, slope@) && at@ == decimal_of_int(5) && #[trigger] f.ensures(
            (at,),
            value,
        ) && y == decimal_sum(
            decimal_product(slope@, decimal_difference(x, decimal_of_int(5))),
            value@,
        )
}

impl<F: Fn(Scalar) -> Scalar + Copy> DrawContent<F> {
    /// The points of the function's graph: for each abscissa, a value of
    /// the function there.
    pub fn curve(&self) -> (r: Vec<(Scalar, Scalar)>)
        requires
            forall|s: Scalar| #[trigger] self.function.requires((s,)),
        ensures
            r@.len() == 2100,
            forall|k: int|
                0 <= k < 2100 ==> (#[trigger] r@[k]).0@ == abscissa(k) && self.function.ensures(
                    (r@[k].0,),
                    r@[k].1,
                ),
    {
        let f = self.function;
        let mut points: Vec<(Scalar, Scalar)> = Vec::new();
        let mut k: usize = 0;
        while k < ABSCISSAS
            invariant
                k <= 2100,
                points@.len() == k,
                f == self.function,
                forall|s: Scalar| #[trigger] f.requires((s,)),
                forall|j: int|
                    0 <= j < k ==> (#[trigger] points@[j]).0@ == abscissa(j) && f.ensures(
                        (points@[j].0,),
                        points@[j].1,
                    ),
            decreases 2100 - k,
        {
            let x = Scalar::ratio(k as i64 + FIRST_HUNDREDTH, 100);
            let y = f(x);
            points.push((x, y));
            k += 1;
        }
        points
    }

    /// The points of the tangent at 5: for each abscissa `x`,
    /// `slope * (x - 5) + f(5)` with the slope that the central difference
    /// gives.
    pub fn tangent(&self) -> (r: Vec<(Scalar, Scalar)>)
        requires
            forall|s: Scalar| #[trigger] self.function.requires((s,)),
        ensures
            r@.len() == 2100,
            forall|k: int|
                0 <= k < 2100 ==> (#[trigger] r@[k]).0@ == abscissa(k) && is_tangent_point(
                    self.function,
                    abscissa(k),
                    r@[k].1@,
                ),
    {
        let f = self.function;
        let five = Scalar::from_int(5);
        let mut points: Vec<(Scalar, Scalar)> = Vec::new();
        let mut k: usize = 0;
        while k < ABSCISSAS
            invariant
                k <= 2100,
                points@.len() == k,
                f == self.function,
                five@ == decimal_of_int(5),
                forall|s: Scalar| #[trigger] f.requires((s,)),
                forall|j: int|
                    0 <= j < k ==> (#[trigger] points@[j]).0@ == abscissa(j) && is_tangent_point(
                        f,
                        abscissa(j),
                        points@[j].1@,
                    ),
            decreases 2100 - k,
        {
            let x = Scalar::ratio(k as i64 + FIRST_HUNDREDTH, 100);
            let slope = numerical_diff(f, five);
            let value = f(five);
            let y = slope.times(x.minus(five)).plus(value);
            proof {
                assert(is_slope(f, five@, slope@));
                assert(f.ensures((five,), value));
                assert(is_tangent_point(f, x@, y@));
            }
            points.push((x, y));
            k += 1;
        }
        points
    }
}

} // verus!
