//! A three-layer classifier for batches of images.
//!
//! The network is not trained: its parameters are drawn at random, and a run
//! counts how many images of a set it happens to classify as labelled. What
//! is proved is the inference itself and the counting, batch by batch.
use crate::activation::{sigmoid, softmax, softmax_rows};
use crate::bigfloat_array::{addressable, lemma_volume_of_matrix, BigFloatArray};
use crate::linalg::{add_to_rows, count_label_hits, dot_items, label_hits, row_argmaxes, row_at};
use crate::random::normal_draws;
use crate::scalar::Decimal;
use crate::two_layer::sigmoids;
use vstd::prelude::*;

verus! {

/// What the three layers hold, with the sizes they connect.
pub struct Layers {
    pub input: nat,
    pub first: nat,
    pub second: nat,
    pub output: nat,
    pub w1: Seq<Decimal>,
    pub b1: Seq<Decimal>,
    pub w2: Seq<Decimal>,
    pub b2: Seq<Decimal>,
    pub w3: Seq<Decimal>,
    pub b3: Seq<Decimal>,
}

/// The prediction for a batch of `rows` images:
/// `softmax(sigmoid(sigmoid(x w1 + b1) w2 + b2) w3 + b3)`, row by row.
pub open spec fn forward3(p: Layers, x: Seq<Decimal>, rows: nat) -> Seq<Decimal> {
    let a1 = add_to_rows(dot_items(rows, p.input, p.first, x, p.w1), p.b1);
    let z1 = sigmoids(a1);
    let a2 = add_to_rows(dot_items(rows, p.first, p.second, z1, p.w2), p.b2);
    let z2 = sigmoids(a2);
    let a3 = add_to_rows(dot_items(rows, p.second, p.output, z2, p.w3), p.b3);
    softmax_rows(a3, p.output)
}

/// The classes predicted for a batch of `rows` images: for each row of the
/// prediction, the position of its first greatest element.
pub open spec fn classes_of(p: Layers, x: Seq<Decimal>, rows: nat) -> Seq<usize> {
    row_argmaxes(forward3(p, x, rows), p.output as int, rows)
}

/// The number of images, among the first `batches` batches of `batch`
/// images each, whose predicted class is their label. Each batch is
/// predicted on its own.
pub open spec fn batched_hits(
    p: Layers,
    x: Seq<Decimal>,
    labels: Seq<Decimal>,
    batch: nat,
    batches: nat,
) -> nat
    decreases batches,
{
    if batches == 0 {
        0
    } else {
        let first = (batches - 1) * batch;
        batched_hits(p, x, labels, batch, (batches - 1) as nat) + label_hits(
            classes_of(p, row_at(x, first * p.input, (batch * p.input) as int), batch),
            row_at(labels, first, batch as int),
            batch,
        )
    }
}

/// Whether the layers are those of a classifier of 784 inputs, 50 and 100
/// hidden units and 10 outputs, every weight matrix and bias holding as
/// many elements as those sizes ask for.
pub open spec fn has_task_sizes(p: Layers) -> bool {
    &&& p.input == 784
    &&& p.first == 50
    &&& p.second == 100
    &&& p.output == 10
    &&& p.w1.len() == 784 * 50
    &&& p.b1.len() == 50
    &&& p.w2.len() == 50 * 100
    &&& p.b2.len() == 100
    &&& p.w3.len() == 100 * 10
    &&& p.b3.len() == 10
}

/// A classifier of three layers with sigmoid units and a softmax output.
#[derive(Debug)]
pub struct MnistNetworkBatch {
    w1: BigFloatArray,
    b1: BigFloatArray,
    w2: BigFloatArray,
    b2: BigFloatArray,
    w3: BigFloatArray,
    b3: BigFloatArray,
}

impl View for MnistNetworkBatch {
    type V = Layers;

    closed spec fn view(&self) -> Layers {
        Layers {
            input: self.w1.shape()[0] as nat,
            first: self.w1.shape()[1] as nat,
            second: self.w2.shape()[1] as nat,
            output: self.w3.shape()[1] as nat,
            w1: self.w1@,
            b1: self.b1@,
            w2: self.w2@,
            b2: self.b2@,
            w3: self.w3@,
            b3: self.b3@,
        }
    }
}

impl MnistNetworkBatch {
    /// Each layer's weights and bias have the shapes that the sizes ask
    /// for.
    pub closed spec fn wf(&self) -> bool {
        &&& self.w1.shape().len() == 2
        &&& self.w2.shape().len() == 2
        &&& self.w3.shape().len() == 2
        &&& self.w1.is_matrix(self.w1.shape()[0], self.w1.shape()[1])
        &&& self.b1.is_vector(self.w1.shape()[1])
        &&& self.w2.is_matrix(self.w1.shape()[1], self.w2.shape()[1])
        &&& self.b2.is_vector(self.w2.shape()[1])
        &&& self.w3.is_matrix(self.w2.shape()[1], self.w3.shape()[1])
        &&& self.b3.is_vector(self.w3.shape()[1])
    }

    /// Whether `x` is a batch that the network takes: a matrix with one
    /// column per input, of so many rows that the activations can be
    /// addressed.
    pub open spec fn admits(&self, x: &BigFloatArray) -> bool {
        &&& x.wf()
        &&& x.shape().len() == 2
        &&& x.shape()[1] == self@.input
        &&& self.fits(x.shape()[0])
    }

    /// Whether the activations of a batch of `rows` rows can be addressed.
    pub open spec fn fits(&self, rows: usize) -> bool {
        &&& addressable(rows * self@.first)
        &&& addressable(rows * self@.second)
        &&& addressable(rows * self@.output)
    }

    /// The sizes fit the machine word.
    pub proof fn lemma_sizes(&self)
        requires
            self.wf(),
        ensures
            self@.input <= usize::MAX,
            self@.first <= usize::MAX,
            self@.second <= usize::MAX,
            self@.output <= usize::MAX,
    {
    }

    /// A network over the given weights and biases. `None` unless the
    /// weights are matrices, the biases vectors, and each layer's extents
    /// fit the next: `w1` is input by first, `w2` first by second, `w3`
    /// second by output, each bias as long as its layer is wide.
    pub fn from_parts(
        w1: BigFloatArray,
        b1: BigFloatArray,
        w2: BigFloatArray,
        b2: BigFloatArray,
        w3: BigFloatArray,
        b3: BigFloatArray,
    ) -> (r: Option<MnistNetworkBatch>)
        requires
            w1.wf(),
            b1.wf(),
            w2.wf(),
            b2.wf(),
            w3.wf(),
            b3.wf(),
        ensures
            r.is_some() == (w1.shape().len() == 2 && w2.shape().len() == 2 && w3.shape().len() == 2
                && b1.shape().len() == 1 && b2.shape().len() == 1 && b3.shape().len() == 1
                && b1.shape()[0] == w1.shape()[1] && w2.shape()[0] == w1.shape()[1]
                && b2.shape()[0] == w2.shape()[1] && w3.shape()[0] == w2.shape()[1]
                && b3.shape()[0] == w3.shape()[1]),
            r.is_some() ==> r.unwrap().wf() && r.unwrap()@ == (Layers {
                input: w1.shape()[0] as nat,
                first: w1.shape()[1] as nat,
                second: w2.shape()[1] as nat,
                output: w3.shape()[1] as nat,
                w1: w1@,
                b1: b1@,
                w2: w2@,
                b2: b2@,
                w3: w3@,
                b3: b3@,
            }),
    {
        if w1.ndim() != 2 || w2.ndim() != 2 || w3.ndim() != 2 || b1.ndim() != 1 || b2.ndim() != 1
            || b3.ndim() != 1 {
            return None;
        }
        if b1.dims()[0] != w1.ncols() || w2.nrows() != w1.ncols() || b2.dims()[0] != w2.ncols()
            || w3.nrows() != w2.ncols() || b3.dims()[0] != w3.ncols() {
            return None;
        }
        proof {
            assert(w1.shape() =~= seq![w1.shape()[0], w1.shape()[1]]);
            assert(w2.shape() =~= seq![w1.shape()[1], w2.shape()[1]]);
            assert(w3.shape() =~= seq![w2.shape()[1], w3.shape()[1]]);
            assert(b1.shape() =~= seq![w1.shape()[1]]);
            assert(b2.shape() =~= seq![w2.shape()[1]]);
            assert(b3.shape() =~= seq![w3.shape()[1]]);
        }
        Some(MnistNetworkBatch { w1, b1, w2, b2, w3, b3 })
    }

    /// A network of 784 inputs, 50 and 100 hidden units and 10 outputs,
    /// with every weight and bias drawn from the standard normal
    /// distribution.
    pub fn new() -> (r: MnistNetworkBatch)
        ensures
            r.wf(),
            r@.input == 784,
            r@.first == 50,
            r@.second == 100,
            r@.output == 10,
            has_task_sizes(r@),
    {
        let w1 = BigFloatArray::matrix(784, 50, normal_draws(39200)).unwrap();
        let w2 = BigFloatArray::matrix(50, 100, normal_draws(5000)).unwrap();
        let w3 = BigFloatArray::matrix(100, 10, normal_draws(1000)).unwrap();
        let b1 = BigFloatArray::vector(normal_draws(50));
        let b2 = BigFloatArray::vector(normal_draws(100));
        let b3 = BigFloatArray::vector(normal_draws(10));
        MnistNetworkBatch::from_parts(w1, b1, w2, b2, w3, b3).unwrap()
    }

    /// The number of inputs.
    pub fn input_size(&self) -> (r: usize)
        requires
            self.wf(),
        ensures
            r == self@.input,
    {
        self.w1.nrows()
    }

    /// The widths of the three layers.
    pub fn widths(&self) -> (r: (usize, usize, usize))
        requires
            self.wf(),
        ensures
            r.0 == self@.first,
            r.1 == self@.second,
            r.2 == self@.output,
    {
        (self.w1.ncols(), self.w2.ncols(), self.w3.ncols())
    }

    /// The number of outputs.
    pub fn output_size(&self) -> (r: usize)
        requires
            self.wf(),
        ensures
            r == self@.output,
    {
        self.w3.ncols()
    }

    /// The prediction for a batch: one row of class probabilities per
    /// image.
    pub fn predict(&self, x: &BigFloatArray) -> (y: BigFloatArray)
        requires
            self.wf(),
            self.admits(x),
        ensures
            y.is_matrix(x.shape()[0], self@.output as usize),
            y@ == forward3(self@, x@, x.shape()[0] as nat),
    {
        let a1 = x.dot(&self.w1).add_row(&self.b1);
        let z1 = sigmoid(&a1);
        proof {
            assert(z1@ =~= sigmoids(a1@));
        }
        let a2 = z1.dot(&self.w2).add_row(&self.b2);
        let z2 = sigmoid(&a2);
        proof {
            assert(z2@ =~= sigmoids(a2@));
        }
        let a3 = z2.dot(&self.w3).add_row(&self.b3);
        softmax(&a3)
    }

    /// The classes predicted for a batch: for each image, the position of
    /// the greatest probability, the lowest such position on a tie.
    pub fn classify(&self, x: &BigFloatArray) -> (r: Vec<usize>)
        requires
            self.wf(),
            self.admits(x),
        ensures
            r@ == classes_of(self@, x@, x.shape()[0] as nat),
    {
        self.predict(x).argmax_rows()
    }

    /// The number of images whose predicted class is their label, over the
    /// whole batches of `batch_size` images that the set holds: images
    /// beyond the last whole batch are not looked at. `t` holds one label
    /// per image, the class as a number.
    pub fn count_correct(&self, x: &BigFloatArray, t: &BigFloatArray, batch_size: usize) -> (r: usize)
        requires
            self.wf(),
            batch_size > 0,
            self.fits(batch_size),
            x.wf(),
            x.shape().len() == 2,
            x.shape()[1] == self@.input,
            t.is_matrix(x.shape()[0], 1),
        ensures
            r == batched_hits(
                self@,
                x@,
                t@,
                batch_size as nat,
                (x.shape()[0] / batch_size) as nat,
            ),
            r <= x.shape()[0],
    {
        let rows = x.nrows();
        let batches = rows / batch_size;
        let mut accuracy_cnt: usize = 0;
        let mut i: usize = 0;
        proof {
            assert(batches * batch_size <= rows) by (nonlinear_arith)
                requires
                    batches == rows / batch_size,
                    batch_size > 0,
            ;
            assert(t.shape() =~= seq![rows, 1usize]);
        }
        while i < batches
            invariant
                i <= batches,
                batch_size > 0,
                batches * batch_size <= rows,
                self.wf(),
                self.fits(batch_size),
                x.wf(),
                x.shape().len() == 2,
                x.shape()[0] == rows,
                x.shape()[1] == self@.input,
                t.is_matrix(rows, 1),
                accuracy_cnt == batched_hits(self@, x@, t@, batch_size as nat, i as nat),
                accuracy_cnt <= i * batch_size,
            decreases batches - i,
        {
            proof {
                assert(i * batch_size + batch_size <= batches * batch_size && 0 <= i * batch_size
                    && (i + 1) * batch_size == i * batch_size + batch_size) by (nonlinear_arith)
                    requires
                        i < batches,
                        batch_size > 0,
                ;
            }
            let i_batch = i * batch_size;
            let x_batch = x.rows_slice(i_batch, batch_size);
            let t_batch = t.rows_slice(i_batch, batch_size);
            proof {
                lemma_volume_of_matrix(batch_size, 1);
                assert(i_batch * 1 == i_batch && batch_size * 1 == batch_size);
            }
            let classes = self.classify(&x_batch);
            let hits = count_label_hits(&classes, &t_batch);
            accuracy_cnt = accuracy_cnt + hits;
            i += 1;
        }
        accuracy_cnt
    }
}

/// Draws a network and counts how many images of the set it classifies as
/// labelled, batch by batch. Which network is drawn is a matter of chance;
/// the count is the one that the drawn network gives, over the whole
/// batches of the set, and it never exceeds the number of images.
pub fn run(x_train_2d: &BigFloatArray, t_train: &BigFloatArray, batch_size: usize) -> (r: usize)
    requires
        0 < batch_size,
        addressable(batch_size * 100),
        x_train_2d.wf(),
        x_train_2d.shape().len() == 2,
        x_train_2d.shape()[1] == 784,
        t_train.is_matrix(x_train_2d.shape()[0], 1),
    ensures
        r <= x_train_2d.shape()[0],
        exists|drawn: Layers| #[trigger]
            has_task_sizes(drawn) && r == batched_hits(
                drawn,
                x_train_2d@,
                t_train@,
                batch_size as nat,
                (x_train_2d.shape()[0] / batch_size) as nat,
            ),
{
    let network = MnistNetworkBatch::new();
    let correct = network.count_correct(x_train_2d, t_train, batch_size);
    proof {
        assert(has_task_sizes(network@));
    }
    correct
}

} // verus!
