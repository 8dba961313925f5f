//! A three-layer classifier for one image at a time.
use crate::bigfloat_array::{lemma_volume_of_matrix, lemma_volume_of_vector, BigFloatArray};
use crate::linalg::{argmax, argmax_of, row_at};
use crate::neuralnet_mnist_batch::{forward3, has_task_sizes, Layers, MnistNetworkBatch};
use crate::scalar::{decimal_of_int, decimal_same, Decimal, Scalar};
use vstd::prelude::*;

verus! {

/// The class predicted for one image: the position of the greatest
/// probability, the lowest such position on a tie.
pub open spec fn class_of(p: Layers, image: Seq<Decimal>) -> int {
    argmax(forward3(p, image, 1))
}

/// The number of images, among the first `count` of a set, whose predicted
/// class is their label.
pub open spec fn single_hits(p: Layers, x: Seq<Decimal>, labels: Seq<Decimal>, count: nat) -> nat
    decreases count,
{
    if count == 0 {
        0
    } else {
        single_hits(p, x, labels, (count - 1) as nat) + if decimal_same(
            decimal_of_int(class_of(p, row_at(x, (count - 1) * p.input, p.input as int))),
            labels[count - 1],
        ) {
            1nat
        } else {
            0nat
        }
    }
}

/// A classifier of three layers that looks at one image at a time.
#[derive(Debug)]
pub struct MnistNetwork {
    layers: MnistNetworkBatch,
}

impl View for MnistNetwork {
    type V = Layers;

    closed spec fn view(&self) -> Layers {
        self.layers@
    }
}

impl MnistNetwork {
    /// Each layer's weights and bias have the shapes that the sizes ask
    /// for, and a single image's activations can be addressed.
    pub closed spec fn wf(&self) -> bool {
        self.layers.wf() && self.layers.fits(1)
    }

    /// A network of 784 inputs, 50 and 100 hidden units and 10 outputs,
    /// with every weight and bias drawn from the standard normal
    /// distribution.
    pub fn new() -> (r: MnistNetwork)
        ensures
            r.wf(),
            r@.input == 784,
            r@.first == 50,
            r@.second == 100,
            r@.output == 10,
            has_task_sizes(r@),
    {
        MnistNetwork { layers: MnistNetworkBatch::new() }
    }

    /// A network over the layers of a batch classifier. `None` where a
    /// layer is too wide for its activations to be addressed.
    pub fn from_layers(layers: MnistNetworkBatch) -> (r: Option<MnistNetwork>)
        requires
            layers.wf(),
        ensures
            r.is_some() == layers.fits(1),
            r.is_some() ==> r.unwrap().wf() && r.unwrap()@ == layers@,
    {
        proof {
            layers.lemma_sizes();
        }
        let limit = isize::MAX as usize / 32;
        let probe = layers.widths();
        if probe.0 <= limit && probe.1 <= limit && probe.2 <= limit {
            Some(MnistNetwork { layers })
        } else {
            None
        }
    }

    /// The class probabilities of one image, given as a vector of as many
    /// elements as the network has inputs.
    pub fn predict(&self, x: &BigFloatArray) -> (y: BigFloatArray)
        requires
            self.wf(),
            x.wf(),
            x.shape() == seq![self@.input as usize],
        ensures
            y.is_vector(self@.output as usize),
            y@ == forward3(self@, x@, 1),
    {
        proof {
            self.layers.lemma_sizes();
        }
        let input = self.layers.input_size();
        let output = self.layers.output_size();
        proof {
            lemma_volume_of_vector(input);
            lemma_volume_of_matrix(1, input);
            lemma_volume_of_vector(output);
            lemma_volume_of_matrix(1, output);
        }
        let mut as_row: Vec<usize> = Vec::new();
        as_row.push(1);
        as_row.push(input);
        assert(as_row@ =~= seq![1usize, input]);
        let row = x.reshaped(as_row).unwrap();
        let y = self.layers.predict(&row);
        let mut as_vector: Vec<usize> = Vec::new();
        as_vector.push(output);
        assert(as_vector@ =~= seq![output]);
        y.reshaped(as_vector).unwrap()
    }

    /// The class predicted for one image.
    pub fn classify(&self, x: &BigFloatArray) -> (r: usize)
        requires
            self.wf(),
            x.wf(),
            x.shape() == seq![self@.input as usize],
        ensures
            r == class_of(self@, x@),
    {
        let y = self.predict(x);
        argmax_of(&y.to_vec())
    }

    /// The class predicted for image `i` of the set, and whether it is the
    /// image's label. `t` holds one label per image, the class as a
    /// number.
    pub fn judge(&self, x: &BigFloatArray, t: &BigFloatArray, i: usize) -> (r: (usize, bool))
        requires
            self.wf(),
            x.wf(),
            x.shape().len() == 2,
            x.shape()[1] == self@.input,
            t.is_matrix(x.shape()[0], 1),
            i < x.shape()[0],
        ensures
            r.0 == class_of(self@, row_at(x@, i * self@.input, self@.input as int)),
            r.1 == decimal_same(decimal_of_int(r.0 as int), t@[i as int]),
    {
        proof {
            lemma_volume_of_matrix(x.shape()[0], 1);
        }
        let image = x.row(i);
        let class = self.classify(&image);
        (class, Scalar::from_count(class).same_as(t.get(i)))
    }

    /// The number of images of the set whose predicted class is their
    /// label. `t` holds one label per image, the class as a number.
    pub fn count_correct(&self, x: &BigFloatArray, t: &BigFloatArray) -> (r: usize)
        requires
            self.wf(),
            x.wf(),
            x.shape().len() == 2,
            x.shape()[1] == self@.input,
            t.is_matrix(x.shape()[0], 1),
        ensures
            r == single_hits(self@, x@, t@, x.shape()[0] as nat),
            r <= x.shape()[0],
    {
        let rows = x.nrows();
        let mut accuracy_cnt: usize = 0;
        let mut i: usize = 0;
        proof {
            assert(t.shape() =~= seq![rows, 1usize]);
            lemma_volume_of_matrix(rows, 1);
        }
        while i < rows
            invariant
                i <= rows,
                self.wf(),
                x.wf(),
                x.shape().len() == 2,
                x.shape()[0] == rows,
                x.shape()[1] == self@.input,
                t.is_matrix(rows, 1),
                accuracy_cnt == single_hits(self@, x@, t@, i as nat),
                accuracy_cnt <= i,
            decreases rows - i,
        {
            let (_, hit) = self.judge(x, t, i);
            if hit {
                accuracy_cnt += 1;
            }
            i += 1;
        }
        accuracy_cnt
    }
}

/// Draws a network and counts how many images of the set it classifies as
/// labelled, one image at a time. Which network is drawn is a matter of
/// chance; the count is the one that the drawn network gives, and it never
/// exceeds the number of images.
pub fn run(x_train_2d: &BigFloatArray, t_train: &BigFloatArray) -> (r: usize)
    requires
        x_train_2d.wf(),
        x_train_2d.shape().len() == 2,
        x_train_2d.shape()[1] == 784,
        t_train.is_matrix(x_train_2d.shape()[0], 1),
    ensures
        r <= x_train_2d.shape()[0],
        exists|drawn: Layers| #[trigger]
            has_task_sizes(drawn) && r == single_hits(
                drawn,
                x_train_2d@,
                t_train@,
                x_train_2d.shape()[0] as nat,
            ),
{
    let network = MnistNetwork::new();
    let correct = network.count_correct(x_train_2d, t_train);
    proof {
        assert(has_task_sizes(network@));
    }
    correct
}

} // verus!
