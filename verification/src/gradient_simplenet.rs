//! A single layer of two inputs and three outputs.
use crate::activation::{softmax, softmax_rows};
use crate::bigfloat_array::{lemma_volume_of_matrix, lemma_volume_of_vector, BigFloatArray};
use crate::linalg::dot_items;
use crate::loss::{cross_entropy, cross_entropy_error};
use crate::random::normal_draws;
use crate::scalar::{Decimal, Scalar};
use vstd::prelude::*;

verus! {

/// What the layer answers to two inputs: `x w`, three numbers.
pub open spec fn simple_prediction(w: Seq<Decimal>, x: Seq<Decimal>) -> Seq<Decimal> {
    dot_items(1, 2, 3, x, w)
}

/// The cross-entropy of the softmax of the layer's answer against `t`,
/// averaged over the length of the answer.
pub open spec fn simple_loss(w: Seq<Decimal>, x: Seq<Decimal>, t: Seq<Decimal>) -> Decimal {
    cross_entropy(softmax_rows(simple_prediction(w, x), 3), t, 3)
}

/// A layer of two by three weights.
#[derive(Debug)]
pub struct SimpleNet {
    pub w: BigFloatArray,
}

impl SimpleNet {
    /// The weights are a matrix of two by three.
    pub open spec fn wf(&self) -> bool {
        self.w.is_matrix(2, 3)
    }

    /// A layer over the given weights. `None` unless they are a matrix of
    /// two by three.
    pub fn from_weights(w: BigFloatArray) -> (r: Option<SimpleNet>)
        requires
            w.wf(),
        ensures
            r.is_some() == (w.shape() == seq![2usize, 3usize]),
            r.is_some() ==> r.unwrap().wf() && r.unwrap().w == w,
    {
        if w.ndim() == 2 && w.nrows() == 2 && w.ncols() == 3 {
            proof {
                assert(w.shape() =~= seq![2usize, 3usize]);
            }
            Some(SimpleNet { w })
        } else {
            None
        }
    }

    /// A layer with weights drawn from the standard normal distribution.
    pub fn new() -> (r: SimpleNet)
        ensures
            r.wf(),
    {
        let draws = normal_draws(6);
        SimpleNet { w: BigFloatArray::matrix(2, 3, draws).unwrap() }
    }

    /// The layer's answer to a vector of two inputs: `x w`.
    pub fn predict(&self, x: &BigFloatArray) -> (r: BigFloatArray)
        requires
            self.wf(),
            x.is_vector(2),
        ensures
            r.is_vector(3),
            r@ == simple_prediction(self.w@, x@),
    {
        proof {
            lemma_volume_of_vector(2);
            lemma_volume_of_vector(3);
            lemma_volume_of_matrix(1, 2);
            lemma_volume_of_matrix(1, 3);
        }
        let mut as_row: Vec<usize> = Vec::new();
        as_row.push(1);
        as_row.push(2);
        assert(as_row@ =~= seq![1usize, 2usize]);
        let row = x.reshaped(as_row).unwrap();
        let product = row.dot(&self.w);
        let mut as_vector: Vec<usize> = Vec::new();
        as_vector.push(3);
        assert(as_vector@ =~= seq![3usize]);
        product.reshaped(as_vector).unwrap()
    }

    /// The loss of the layer's answer to `x` against the target `t`.
    pub fn loss(&self, x: &BigFloatArray, t: &BigFloatArray) -> (r: Scalar)
        requires
            self.wf(),
            x.is_vector(2),
            t.is_vector(3),
        ensures
            r@ == simple_loss(self.w@, x@, t@),
    {
        let z = self.predict(x);
        let y = softmax(&z);
        cross_entropy_error(&y, t)
    }

    /// The loss that the layer would have with the weights `w`. The layer's
    /// own weights are put aside for the computation and are back in place
    /// when it returns.
    pub fn loss_with_weights(&mut self, w: &BigFloatArray, x: &BigFloatArray, t: &BigFloatArray) -> (r:
        Scalar)
        requires
            old(self).wf(),
            w.is_matrix(2, 3),
            x.is_vector(2),
            t.is_vector(3),
        ensures
            final(self).wf(),
            final(self).w@ == old(self).w@,
            r@ == simple_loss(w@, x@, t@),
    {
        let temp_w = self.w.duplicate();
        self.w = w.duplicate();
        let loss = self.loss(x, t);
        self.w = temp_w;
        loss
    }
}

} // verus!
