//! Random draws.
//!
//! Nothing is known of a draw beyond what holds of every outcome: how many
//! numbers came back and, for a sample of positions, that they are distinct
//! and in range. What the library does with a draw is proved for every
//! value of it.
use crate::bigfloat_array::addressable;
use crate::scalar::{Scalar, Value};
use ndarray::Array1;
use ndarray_rand::rand::seq::index::sample;
use ndarray_rand::rand::thread_rng;
use ndarray_rand::rand_distr::StandardNormal;
use ndarray_rand::RandomExt;
use num_bigfloat::BigFloat;
use vstd::prelude::*;

verus! {

/// Whether `mask` names `amount` distinct positions below `length`.
pub open spec fn is_sample(mask: Seq<usize>, length: int, amount: int) -> bool {
    &&& mask.len() == amount
    &&& forall|i: int| 0 <= i < mask.len() ==> #[trigger] mask[i] < length
    &&& forall|i: int, j: int| 0 <= i < j < mask.len() ==> mask[i] != mask[j]
}

/// Fills a one-dimensional array of `count` elements with `ndarray-rand`'s
/// `random`, from the standard normal distribution, and hands its elements
/// out as decimals. For every outcome there are `count` of them. They are
/// few enough to be allocated.
#[verifier::external_body]
fn standard_normal(count: usize) -> (r: Vec<Scalar>)
    requires
        addressable(count as int),
    ensures
        r.len() == count,
{
    let drawn = Array1::random(count, StandardNormal).mapv(BigFloat::from_f64);
    drawn.into_iter().map(|z| Scalar { value: match z.to_raw_parts() {
        Some(p) => Value::Finite(p),
        None if z.is_nan() => Value::NotANumber,
        None if z.is_inf_pos() => Value::PositiveInfinity,
        None => Value::NegativeInfinity,
    } }).collect()
}

/// Calls `rand`'s `seq::index::sample` with the thread's generator: for
/// every outcome, `amount` distinct positions below `length`. It refuses an
/// `amount` above `length`, and the positions are few enough to be
/// allocated.
#[verifier::external_body]
fn sample_positions(length: usize, amount: usize) -> (r: Vec<usize>)
    requires
        amount <= length,
        addressable(amount as int),
    ensures
        is_sample(r@, length as int, amount as int),
{
    sample(&mut thread_rng(), length, amount).into_vec()
}

/// `count` independent draws from the standard normal distribution.
pub fn normal_draws(count: usize) -> (r: Vec<Scalar>)
    requires
        addressable(count as int),
    ensures
        r.len() == count,
{
    standard_normal(count)
}

/// `amount` distinct positions below `length`, in random order. `None`
/// where more positions are asked for than there are.
pub fn batch_mask(length: usize, amount: usize) -> (r: Option<Vec<usize>>)
    requires
        addressable(amount as int),
    ensures
        r.is_some() == (amount <= length),
        r.is_some() ==> is_sample(r.unwrap()@, length as int, amount as int),
{
    if amount <= length {
        Some(sample_positions(length, amount))
    } else {
        None
    }
}

} // verus!
