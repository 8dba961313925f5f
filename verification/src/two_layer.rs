//! A two-layer network and its numerical gradient.
//!
//! The network holds two weight matrices and two bias vectors. A prediction
//! is `softmax(sigmoid(x w1 + b1) w2 + b2)`, its loss the cross-entropy
//! against the targets. The gradient of the loss is estimated by central
//! differences, one parameter element at a time: the element is moved one
//! step ahead, then one step behind, the loss is computed afresh both times,
//! and the element gets its value back before the next one is touched.
use crate::activation::{decimal_sigmoid, sigmoid, softmax, softmax_rows};
use crate::bigfloat_array::{
    addressable, lemma_volume_of_matrix, lemma_volume_of_vector, BigFloatArray,
};
use crate::gradient::{central_difference, finite_step};
use crate::linalg::{
    add_to_rows, agreements, count_agreements, count_label_hits, dot_items, label_hits,
    lemma_agreements_bounded, lemma_agreements_everywhere, lemma_agreements_nowhere,
    row_argmaxes,
};
use crate::loss::{cross_entropy, cross_entropy_error};
use crate::random::normal_draws;
use crate::scalar::{
    decimal_difference, decimal_of_int, decimal_product, decimal_quotient, decimal_sum, decimals,
    Decimal, Scalar,
};
use vstd::prelude::*;

verus! {

/// The names of the four parameters.
#[derive(Clone, Copy, Debug)]
pub enum ParamName {
    W1,
    B1,
    W2,
    B2,
}

/// A parameter: a bias vector or a weight matrix.
#[derive(Debug)]
pub enum Weight {
    M1(BigFloatArray),
    M2(BigFloatArray),
}

/// Why a network could not be built.
#[derive(Clone, Copy, Debug)]
pub enum BuildError {
    /// One of the sizes is zero.
    EmptyLayer,
    /// A weight matrix would hold more elements than can be addressed.
    TooLarge,
}

/// What four parameters hold, with the sizes of the layers they connect.
pub struct Parameters {
    pub input: nat,
    pub hidden: nat,
    pub output: nat,
    pub w1: Seq<Decimal>,
    pub b1: Seq<Decimal>,
    pub w2: Seq<Decimal>,
    pub b2: Seq<Decimal>,
}

/// The elements of the named parameter.
pub open spec fn param_of(p: Parameters, name: ParamName) -> Seq<Decimal> {
    match name {
        ParamName::W1 => p.w1,
        ParamName::B1 => p.b1,
        ParamName::W2 => p.w2,
        ParamName::B2 => p.b2,
    }
}

/// The parameters with the named one replaced.
pub open spec fn with_param(p: Parameters, name: ParamName, items: Seq<Decimal>) -> Parameters {
    match name {
        ParamName::W1 => Parameters { w1: items, ..p },
        ParamName::B1 => Parameters { b1: items, ..p },
        ParamName::W2 => Parameters { w2: items, ..p },
        ParamName::B2 => Parameters { b2: items, ..p },
    }
}

/// The parameters with element `i` of the named one replaced.
pub open spec fn with_element(p: Parameters, name: ParamName, i: int, value: Decimal) -> Parameters {
    with_param(p, name, param_of(p, name).update(i, value))
}

/// The shape that the layer sizes ask of the named parameter: the first
/// weights are input by hidden, the second hidden by output, and each bias
/// is as long as its layer is wide.
pub open spec fn layer_shape(p: Parameters, name: ParamName) -> Seq<usize> {
    match name {
        ParamName::W1 => seq![p.input as usize, p.hidden as usize],
        ParamName::B1 => seq![p.hidden as usize],
        ParamName::W2 => seq![p.hidden as usize, p.output as usize],
        ParamName::B2 => seq![p.output as usize],
    }
}

/// Whether two sets of parameters connect layers of the same sizes.
pub open spec fn same_sizes(p: Parameters, q: Parameters) -> bool {
    p.input == q.input && p.hidden == q.hidden && p.output == q.output
}

/// The parameters of a fresh network: weights made of the given draws,
/// each scaled by `scale`, and biases of zero.
pub open spec fn initial(
    input: nat,
    hidden: nat,
    output: nat,
    scale: Decimal,
    first: Seq<Decimal>,
    second: Seq<Decimal>,
) -> Parameters {
    Parameters {
        input,
        hidden,
        output,
        w1: scaled(scale, first),
        b1: zeros_of(hidden),
        w2: scaled(scale, second),
        b2: zeros_of(output),
    }
}

/// The sigmoid of every element.
pub open spec fn sigmoids(items: Seq<Decimal>) -> Seq<Decimal> {
    Seq::new(items.len(), |i: int| decimal_sigmoid(items[i]))
}

/// The prediction for a batch of `rows` examples:
/// `softmax(sigmoid(x w1 + b1) w2 + b2)`, row by row.
pub open spec fn forward(p: Parameters, x: Seq<Decimal>, rows: nat) -> Seq<Decimal> {
    let a1 = add_to_rows(dot_items(rows, p.input, p.hidden, x, p.w1), p.b1);
    let z1 = sigmoids(a1);
    let a2 = add_to_rows(dot_items(rows, p.hidden, p.output, z1, p.w2), p.b2);
    softmax_rows(a2, p.output)
}

/// The cross-entropy of the prediction for a batch against its targets.
pub open spec fn batch_loss(p: Parameters, x: Seq<Decimal>, t: Seq<Decimal>, rows: nat) -> Decimal {
    cross_entropy(forward(p, x, rows), t, rows as int)
}

/// The central difference of the batch loss along element `i` of the named
/// parameter, every other element held at its value.
pub open spec fn loss_slope(
    p: Parameters,
    name: ParamName,
    i: int,
    x: Seq<Decimal>,
    t: Seq<Decimal>,
    rows: nat,
) -> Decimal {
    central_difference(
        batch_loss(
            with_element(p, name, i, decimal_sum(param_of(p, name)[i], finite_step())),
            x,
            t,
            rows,
        ),
        batch_loss(
            with_element(p, name, i, decimal_difference(param_of(p, name)[i], finite_step())),
            x,
            t,
            rows,
        ),
    )
}

/// The central differences of the batch loss along the elements of the
/// named parameter.
pub open spec fn slopes_of(
    p: Parameters,
    name: ParamName,
    x: Seq<Decimal>,
    t: Seq<Decimal>,
    rows: nat,
) -> Seq<Decimal> {
    Seq::new(param_of(p, name).len(), |i: int| loss_slope(p, name, i, x, t, rows))
}

/// The numerical gradient of the batch loss: for every element of every
/// parameter, the central difference of the loss along that element.
pub open spec fn loss_gradient(p: Parameters, x: Seq<Decimal>, t: Seq<Decimal>, rows: nat) -> Parameters {
    Parameters {
        input: p.input,
        hidden: p.hidden,
        output: p.output,
        w1: slopes_of(p, ParamName::W1, x, t, rows),
        b1: slopes_of(p, ParamName::B1, x, t, rows),
        w2: slopes_of(p, ParamName::W2, x, t, rows),
        b2: slopes_of(p, ParamName::B2, x, t, rows),
    }
}

/// The parameters after one training step on a batch: moved against the
/// numerical gradient of the batch loss, scaled by `rate`.
pub open spec fn trained(
    p: Parameters,
    x: Seq<Decimal>,
    t: Seq<Decimal>,
    rows: nat,
    rate: Decimal,
) -> Parameters {
    updated(p, loss_gradient(p, x, t, rows), rate)
}

/// Every element moved against its slope: `p - rate * g`.
pub open spec fn descend(items: Seq<Decimal>, slopes: Seq<Decimal>, rate: Decimal) -> Seq<Decimal> {
    Seq::new(
        items.len(),
        |i: int| decimal_difference(items[i], decimal_product(rate, slopes[i])),
    )
}

/// The parameters after one update with the gradient `g`.
pub open spec fn updated(p: Parameters, g: Parameters, rate: Decimal) -> Parameters {
    Parameters {
        input: p.input,
        hidden: p.hidden,
        output: p.output,
        w1: descend(p.w1, g.w1, rate),
        b1: descend(p.b1, g.b1, rate),
        w2: descend(p.w2, g.w2, rate),
        b2: descend(p.b2, g.b2, rate),
    }
}

/// The share of rows whose predicted class is the target's class.
pub open spec fn hit_rate(predicted: Seq<Decimal>, targets: Seq<Decimal>, rows: nat, width: nat) -> Decimal {
    decimal_quotient(decimal_of_int(hits(predicted, targets, rows, width) as int), decimal_of_int(rows as int))
}

/// The number of rows whose first greatest element stands at the same
/// position in the prediction and in the target.
pub open spec fn hits(predicted: Seq<Decimal>, targets: Seq<Decimal>, rows: nat, width: nat) -> nat {
    agreements(
        row_argmaxes(predicted, width as int, rows),
        row_argmaxes(targets, width as int, rows),
        rows,
    )
}

/// No more rows are hit than there are.
pub proof fn lemma_hits_bounded(predicted: Seq<Decimal>, targets: Seq<Decimal>, rows: nat, width: nat)
    ensures
        hits(predicted, targets, rows, width) <= rows,
{
    lemma_agreements_bounded(
        row_argmaxes(predicted, width as int, rows),
        row_argmaxes(targets, width as int, rows),
        rows,
    );
}

/// Where every row's predicted class is the target's class, every row is
/// hit: the accuracy is `rows / rows`.
pub proof fn lemma_hits_on_full_agreement(
    predicted: Seq<Decimal>,
    targets: Seq<Decimal>,
    rows: nat,
    width: nat,
)
    requires
        forall|i: int|
            0 <= i < rows ==> row_argmaxes(predicted, width as int, rows)[i] == row_argmaxes(
                targets,
                width as int,
                rows,
            )[i],
    ensures
        hits(predicted, targets, rows, width) == rows,
        hit_rate(predicted, targets, rows, width) == decimal_quotient(
            decimal_of_int(rows as int),
            decimal_of_int(rows as int),
        ),
{
    lemma_agreements_everywhere(
        row_argmaxes(predicted, width as int, rows),
        row_argmaxes(targets, width as int, rows),
        rows,
    );
}

/// Where no row's predicted class is the target's class, no row is hit:
/// the accuracy is `0 / rows`.
pub proof fn lemma_hits_on_full_disagreement(
    predicted: Seq<Decimal>,
    targets: Seq<Decimal>,
    rows: nat,
    width: nat,
)
    requires
        forall|i: int|
            0 <= i < rows ==> row_argmaxes(predicted, width as int, rows)[i] != row_argmaxes(
                targets,
                width as int,
                rows,
            )[i],
    ensures
        hits(predicted, targets, rows, width) == 0,
        hit_rate(predicted, targets, rows, width) == decimal_quotient(
            decimal_of_int(0),
            decimal_of_int(rows as int),
        ),
{
    lemma_agreements_nowhere(
        row_argmaxes(predicted, width as int, rows),
        row_argmaxes(targets, width as int, rows),
        rows,
    );
}

/// An update keeps the sizes and the number of elements of every
/// parameter.
pub proof fn lemma_update_keeps_sizes(p: Parameters, g: Parameters, rate: Decimal)
    ensures
        updated(p, g, rate).input == p.input,
        updated(p, g, rate).hidden == p.hidden,
        updated(p, g, rate).output == p.output,
        forall|name: ParamName| #[trigger]
            param_of(updated(p, g, rate), name).len() == param_of(p, name).len(),
{
    assert forall|name: ParamName| #[trigger]
        param_of(updated(p, g, rate), name).len() == param_of(p, name).len() by {
        match name {
            ParamName::W1 => {},
            ParamName::B1 => {},
            ParamName::W2 => {},
            ParamName::B2 => {},
        }
    }
}

/// The numerical gradient has, for every parameter, as many elements as
/// the parameter.
pub proof fn lemma_gradient_keeps_sizes(p: Parameters, x: Seq<Decimal>, t: Seq<Decimal>, rows: nat)
    ensures
        forall|name: ParamName| #[trigger]
            param_of(loss_gradient(p, x, t, rows), name).len() == param_of(p, name).len(),
{
    assert forall|name: ParamName| #[trigger]
        param_of(loss_gradient(p, x, t, rows), name).len() == param_of(p, name).len() by {
        match name {
            ParamName::W1 => {},
            ParamName::B1 => {},
            ParamName::W2 => {},
            ParamName::B2 => {},
        }
    }
}

/// Setting an element ahead and then back leaves the parameters as they
/// were: a perturbation that is restored cannot be seen.
pub proof fn lemma_restore(p: Parameters, name: ParamName, i: int, value: Decimal)
    requires
        0 <= i < param_of(p, name).len(),
    ensures
        with_element(with_element(p, name, i, value), name, i, param_of(p, name)[i]) == p,
{
    let q = with_element(p, name, i, value);
    assert(param_of(q, name).update(i, param_of(p, name)[i]) =~= param_of(p, name));
}

impl Weight {
    /// Whether the parameter is a vector.
    pub open spec fn is_m1(&self) -> bool {
        match self {
            Weight::M1(_) => true,
            Weight::M2(_) => false,
        }
    }

    /// The array that the parameter holds.
    pub open spec fn array(&self) -> BigFloatArray {
        match self {
            Weight::M1(a) => *a,
            Weight::M2(a) => *a,
        }
    }

    /// The vector of a bias parameter.
    pub fn unwrap_m1(&self) -> (r: BigFloatArray)
        requires
            self.is_m1(),
        ensures
            r.shape() == self.array().shape(),
            r@ == self.array()@,
    {
        match self {
            Weight::M1(x) => x.duplicate(),
            Weight::M2(x) => x.duplicate(),
        }
    }

    /// The matrix of a weight parameter.
    pub fn unwrap_m2(&self) -> (r: BigFloatArray)
        requires
            !self.is_m1(),
        ensures
            r.shape() == self.array().shape(),
            r@ == self.array()@,
    {
        match self {
            Weight::M1(x) => x.duplicate(),
            Weight::M2(x) => x.duplicate(),
        }
    }
}

/// The two weight matrices and two bias vectors of a network, or a value
/// for each of them (a gradient).
#[derive(Debug)]
pub struct ParamStore {
    w1: BigFloatArray,
    b1: BigFloatArray,
    w2: BigFloatArray,
    b2: BigFloatArray,
}

impl View for ParamStore {
    type V = Parameters;

    closed spec fn view(&self) -> Parameters {
        Parameters {
            input: self.w1.shape()[0] as nat,
            hidden: self.w1.shape()[1] as nat,
            output: self.w2.shape()[1] as nat,
            w1: self.w1@,
            b1: self.b1@,
            w2: self.w2@,
            b2: self.b2@,
        }
    }
}

impl ParamStore {
    /// The four arrays have the shapes that the layer sizes ask for, and no
    /// layer is empty.
    pub closed spec fn wf(&self) -> bool {
        &&& self.w1.shape().len() == 2
        &&& self.w2.shape().len() == 2
        &&& self.w1.shape()[0] > 0
        &&& self.w1.shape()[1] > 0
        &&& self.w2.shape()[1] > 0
        &&& self.w1.is_matrix(self.w1.shape()[0], self.w1.shape()[1])
        &&& self.b1.is_vector(self.w1.shape()[1])
        &&& self.w2.is_matrix(self.w1.shape()[1], self.w2.shape()[1])
        &&& self.b2.is_vector(self.w2.shape()[1])
    }

    /// Whether `x` is a batch that the network takes: a matrix with one
    /// column per input, of so many rows that the activations can be
    /// addressed.
    pub open spec fn admits(&self, x: &BigFloatArray) -> bool {
        &&& x.wf()
        &&& x.shape().len() == 2
        &&& x.shape()[1] == self@.input
        &&& addressable(x.shape()[0] * self@.hidden)
        &&& addressable(x.shape()[0] * self@.output)
    }

    /// Whether `t` holds one row of targets per row of the batch `x`.
    pub open spec fn pairs(&self, x: &BigFloatArray, t: &BigFloatArray) -> bool {
        &&& t.wf()
        &&& t.shape().len() == 2
        &&& t.shape()[0] == x.shape()[0]
        &&& t.shape()[1] == self@.output
    }

    /// The sizes are positive and each parameter holds what they ask for.
    pub proof fn lemma_sizes(&self)
        requires
            self.wf(),
        ensures
            self@.input > 0,
            self@.hidden > 0,
            self@.output > 0,
            self@.input <= usize::MAX,
            self@.hidden <= usize::MAX,
            self@.output <= usize::MAX,
            self@.w1.len() == self@.input * self@.hidden,
            self@.b1.len() == self@.hidden,
            self@.w2.len() == self@.hidden * self@.output,
            self@.b2.len() == self@.output,
    {
        lemma_volume_of_matrix(self.w1.shape()[0], self.w1.shape()[1]);
        lemma_volume_of_matrix(self.w1.shape()[1], self.w2.shape()[1]);
        lemma_volume_of_vector(self.w1.shape()[1]);
        lemma_volume_of_vector(self.w2.shape()[1]);
    }

    /// A store over four arrays. `None` unless `w1` and `w2` are matrices,
    /// `b1` and `b2` vectors, no extent is zero, and the extents fit each
    /// other: `w1` is input by hidden, `b1` hidden, `w2` hidden by output,
    /// `b2` output.
    pub fn from_parts(w1: BigFloatArray, b1: BigFloatArray, w2: BigFloatArray, b2: BigFloatArray) -> (r:
        Option<ParamStore>)
        requires
            w1.wf(),
            b1.wf(),
            w2.wf(),
            b2.wf(),
        ensures
            r.is_some() == (w1.shape().len() == 2 && w2.shape().len() == 2 && b1.shape().len() == 1
                && b2.shape().len() == 1 && w1.shape()[0] > 0 && w1.shape()[1] > 0 && w2.shape()[1]
                > 0 && b1.shape()[0] == w1.shape()[1] && w2.shape()[0] == w1.shape()[1]
                && b2.shape()[0] == w2.shape()[1]),
            r.is_some() ==> r.unwrap().wf() && r.unwrap()@ == (Parameters {
                input: w1.shape()[0] as nat,
                hidden: w1.shape()[1] as nat,
                output: w2.shape()[1] as nat,
                w1: w1@,
                b1: b1@,
                w2: w2@,
                b2: b2@,
            }),
    {
        if w1.ndim() != 2 || w2.ndim() != 2 || b1.ndim() != 1 || b2.ndim() != 1 {
            return None;
        }
        let input = w1.nrows();
        let hidden = w1.ncols();
        let output = w2.ncols();
        if input == 0 || hidden == 0 || output == 0 {
            return None;
        }
        if b1.dims()[0] != hidden || w2.nrows() != hidden || b2.dims()[0] != output {
            return None;
        }
        proof {
            assert(w1.shape() =~= seq![input, hidden]);
            assert(w2.shape() =~= seq![hidden, output]);
            assert(b1.shape() =~= seq![hidden]);
            assert(b2.shape() =~= seq![output]);
        }
        Some(ParamStore { w1, b1, w2, b2 })
    }

    /// The number of inputs.
    pub fn input_size(&self) -> (r: usize)
        requires
            self.wf(),
        ensures
            r == self@.input,
    {
        self.w1.nrows()
    }

    /// The number of hidden units.
    pub fn hidden_size(&self) -> (r: usize)
        requires
            self.wf(),
        ensures
            r == self@.hidden,
    {
        self.w1.ncols()
    }

    /// The number of outputs.
    pub fn output_size(&self) -> (r: usize)
        requires
            self.wf(),
        ensures
            r == self@.output,
    {
        self.w2.ncols()
    }

    /// The array of the named parameter.
    pub fn param(&self, name: ParamName) -> (r: &BigFloatArray)
        requires
            self.wf(),
        ensures
            r.wf(),
            r@ == param_of(self@, name),
            r.shape() == layer_shape(self@, name),
    {
        match name {
            ParamName::W1 => &self.w1,
            ParamName::B1 => &self.b1,
            ParamName::W2 => &self.w2,
            ParamName::B2 => &self.b2,
        }
    }

    /// The named parameter as a tagged value of its own.
    pub fn get(&self, name: ParamName) -> (r: Weight)
        requires
            self.wf(),
        ensures
            r.array().wf(),
            r.array()@ == param_of(self@, name),
            r.array().shape() == layer_shape(self@, name),
            r.is_m1() == (name matches ParamName::B1 || name matches ParamName::B2),
    {
        match name {
            ParamName::W1 => Weight::M2(self.w1.duplicate()),
            ParamName::B1 => Weight::M1(self.b1.duplicate()),
            ParamName::W2 => Weight::M2(self.w2.duplicate()),
            ParamName::B2 => Weight::M1(self.b2.duplicate()),
        }
    }

    /// Replaces the named parameter by a value of the same shape. The other
    /// parameters and the sizes stay.
    pub fn set(&mut self, name: ParamName, value: Weight)
        requires
            old(self).wf(),
            value.array().wf(),
            value.array().shape() == layer_shape(old(self)@, name),
        ensures
            final(self).wf(),
            final(self)@ == with_param(old(self)@, name, value.array()@),
    {
        let array = match value {
            Weight::M1(a) => a,
            Weight::M2(a) => a,
        };
        match name {
            ParamName::W1 => {
                self.w1 = array;
            },
            ParamName::B1 => {
                self.b1 = array;
            },
            ParamName::W2 => {
                self.w2 = array;
            },
            ParamName::B2 => {
                self.b2 = array;
            },
        }
    }

    /// Replaces element `i` of the named parameter.
    pub fn set_element(&mut self, name: ParamName, i: usize, value: Scalar)
        requires
            old(self).wf(),
            i < param_of(old(self)@, name).len(),
        ensures
            final(self).wf(),
            final(self)@ == with_element(old(self)@, name, i as int, value@),
    {
        match name {
            ParamName::W1 => {
                self.w1.set(i, value);
            },
            ParamName::B1 => {
                self.b1.set(i, value);
            },
            ParamName::W2 => {
                self.w2.set(i, value);
            },
            ParamName::B2 => {
                self.b2.set(i, value);
            },
        }
    }

    /// A copy of the store.
    pub fn duplicate(&self) -> (r: ParamStore)
        requires
            self.wf(),
        ensures
            r.wf(),
            r@ == self@,
    {
        ParamStore {
            w1: self.w1.duplicate(),
            b1: self.b1.duplicate(),
            w2: self.w2.duplicate(),
            b2: self.b2.duplicate(),
        }
    }

    /// The prediction for a batch: `softmax(sigmoid(x w1 + b1) w2 + b2)`,
    /// one row of class probabilities per example.
    pub fn predict(&self, x: &BigFloatArray) -> (y: BigFloatArray)
        requires
            self.wf(),
            self.admits(x),
        ensures
            y.is_matrix(x.shape()[0], self@.output as usize),
            y@ == forward(self@, x@, x.shape()[0] as nat),
    {
        proof {
            self.lemma_sizes();
        }
        let a1 = x.dot(&self.w1).add_row(&self.b1);
        let z1 = sigmoid(&a1);
        proof {
            assert(z1@ =~= sigmoids(a1@));
        }
        let a2 = z1.dot(&self.w2).add_row(&self.b2);
        softmax(&a2)
    }

    /// The cross-entropy of the prediction for the batch `x` against the
    /// targets `t`.
    pub fn loss(&self, x: &BigFloatArray, t: &BigFloatArray) -> (r: Scalar)
        requires
            self.wf(),
            self.admits(x),
            self.pairs(x, t),
        ensures
            r@ == batch_loss(self@, x@, t@, x.shape()[0] as nat),
    {
        let y = self.predict(x);
        proof {
            assert(y.shape() =~= t.shape());
        }
        cross_entropy_error(&y, t)
    }

    /// The numerical gradient of the loss along the named parameter,
    /// computed on the store itself. Each element in turn is set one step
    /// ahead, then one step behind, and the loss is computed both times;
    /// then the element gets its own value back. When the sweep returns, the
    /// store holds what it held before.
    pub fn sweep(&mut self, name: ParamName, x: &BigFloatArray, t: &BigFloatArray) -> (grad:
        BigFloatArray)
        requires
            old(self).wf(),
            old(self).admits(x),
            old(self).pairs(x, t),
        ensures
            final(self).wf(),
            final(self)@ == old(self)@,
            grad.wf(),
            grad.shape() == layer_shape(old(self)@, name),
            grad@ == slopes_of(old(self)@, name, x@, t@, x.shape()[0] as nat),
    {
        let h = Scalar::ratio(1, 10_000);
        let two_h = Scalar::from_int(2).times(h);
        let total = self.param(name).len();
        let ghost rows = x.shape()[0] as nat;
        let mut slopes: Vec<Scalar> = Vec::new();
        let mut i: usize = 0;
        while i < total
            invariant
                i <= total,
                self.wf(),
                self@ == old(self)@,
                self.admits(x),
                self.pairs(x, t),
                rows == x.shape()[0],
                total == param_of(self@, name).len(),
                slopes.len() == i,
                h@ == finite_step(),
                two_h@ == decimal_product(decimal_of_int(2), finite_step()),
                forall|k: int|
                    0 <= k < i ==> (#[trigger] slopes@[k])@ == loss_slope(
                        old(self)@,
                        name,
                        k,
                        x@,
                        t@,
                        rows,
                    ),
            decreases total - i,
        {
            let v = self.param(name).get(i);
            self.set_element(name, i, v.plus(h));
            let ahead = self.loss(x, t);
            self.set_element(name, i, v.minus(h));
            proof {
                assert(param_of(self@, name) =~= param_of(old(self)@, name).update(
                    i as int,
                    decimal_difference(v@, h@),
                ));
                assert(self@ == with_element(
                    old(self)@,
                    name,
                    i as int,
                    decimal_difference(v@, h@),
                ));
            }
            let behind = self.loss(x, t);
            self.set_element(name, i, v);
            proof {
                assert(param_of(self@, name) =~= param_of(old(self)@, name));
                assert(self@ == old(self)@);
            }
            slopes.push(ahead.minus(behind).over(two_h));
            i += 1;
        }
        let grad = BigFloatArray::from_vec(self.param(name).shape_vec(), slopes).unwrap();
        proof {
            assert forall|k: int| 0 <= k < grad@.len() implies #[trigger] grad@[k] == loss_slope(
                old(self)@,
                name,
                k,
                x@,
                t@,
                rows,
            ) by {
                assert(grad@[k] == slopes@[k]@);
            }
            assert(grad@ =~= slopes_of(old(self)@, name, x@, t@, rows));
        }
        grad
    }

    /// The numerical gradient of the loss on a batch: for every element of
    /// every parameter, the central difference of the loss along it. The
    /// gradient has the shapes of the parameters.
    pub fn numerical_gradient(&self, x: &BigFloatArray, t: &BigFloatArray) -> (grads: ParamStore)
        requires
            self.wf(),
            self.admits(x),
            self.pairs(x, t),
        ensures
            grads.wf(),
            grads@ == loss_gradient(self@, x@, t@, x.shape()[0] as nat),
    {
        let mut scratch = self.duplicate();
        let w1 = scratch.sweep(ParamName::W1, x, t);
        let b1 = scratch.sweep(ParamName::B1, x, t);
        let w2 = scratch.sweep(ParamName::W2, x, t);
        let b2 = scratch.sweep(ParamName::B2, x, t);
        ParamStore { w1, b1, w2, b2 }
    }

    /// One update: every parameter becomes `parameter - rate * gradient`,
    /// element by element.
    pub fn apply(&mut self, grads: &ParamStore, rate: Scalar)
        requires
            old(self).wf(),
            grads.wf(),
            same_sizes(grads@, old(self)@),
        ensures
            final(self).wf(),
            final(self)@ == updated(old(self)@, grads@, rate@),
    {
        proof {
            assert(grads.w1.shape() =~= self.w1.shape());
            assert(grads.b1.shape() =~= self.b1.shape());
            assert(grads.w2.shape() =~= self.w2.shape());
            assert(grads.b2.shape() =~= self.b2.shape());
        }
        let w1 = self.w1.sub(&BigFloatArray::scalar_mul(&rate, &grads.w1));
        let b1 = self.b1.sub(&BigFloatArray::scalar_mul(&rate, &grads.b1));
        let w2 = self.w2.sub(&BigFloatArray::scalar_mul(&rate, &grads.w2));
        let b2 = self.b2.sub(&BigFloatArray::scalar_mul(&rate, &grads.b2));
        proof {
            assert(w1@ =~= descend(self.w1@, grads.w1@, rate@));
            assert(b1@ =~= descend(self.b1@, grads.b1@, rate@));
            assert(w2@ =~= descend(self.w2@, grads.w2@, rate@));
            assert(b2@ =~= descend(self.b2@, grads.b2@, rate@));
        }
        self.w1 = w1;
        self.b1 = b1;
        self.w2 = w2;
        self.b2 = b2;
    }

    /// The number of rows of the batch whose predicted class is the
    /// target's: the classes are the positions of the first greatest
    /// element of the prediction's row and of the target's row.
    pub fn count_hits(&self, x: &BigFloatArray, t: &BigFloatArray) -> (r: usize)
        requires
            self.wf(),
            self.admits(x),
            self.pairs(x, t),
        ensures
            r == hits(
                forward(self@, x@, x.shape()[0] as nat),
                t@,
                x.shape()[0] as nat,
                self@.output,
            ),
            r <= x.shape()[0],
    {
        let y = self.predict(x);
        let predicted = y.argmax_rows();
        let expected = t.argmax_rows();
        count_agreements(&predicted, &expected)
    }

    /// The share of rows of the batch whose predicted class is the
    /// target's.
    pub fn accuracy(&self, x: &BigFloatArray, t: &BigFloatArray) -> (r: Scalar)
        requires
            self.wf(),
            self.admits(x),
            self.pairs(x, t),
        ensures
            r@ == hit_rate(
                forward(self@, x@, x.shape()[0] as nat),
                t@,
                x.shape()[0] as nat,
                self@.output,
            ),
    {
        let correct = self.count_hits(x, t);
        Scalar::from_count(correct).over(Scalar::from_count(x.nrows()))
    }

    /// The share of rows of the batch whose predicted class is their
    /// label. `labels` holds one label per row, the class as a number.
    pub fn accuracy_with_labels(&self, x: &BigFloatArray, labels: &BigFloatArray) -> (r: Scalar)
        requires
            self.wf(),
            self.admits(x),
            labels.is_matrix(x.shape()[0], 1),
        ensures
            r@ == decimal_quotient(
                decimal_of_int(
                    label_hits(
                        row_argmaxes(
                            forward(self@, x@, x.shape()[0] as nat),
                            self@.output as int,
                            x.shape()[0] as nat,
                        ),
                        labels@,
                        x.shape()[0] as nat,
                    ) as int,
                ),
                decimal_of_int(x.shape()[0] as int),
            ),
    {
        proof {
            lemma_volume_of_matrix(x.shape()[0], 1);
        }
        let classes = self.predict(x).argmax_rows();
        let correct = count_label_hits(&classes, labels);
        Scalar::from_count(correct).over(Scalar::from_count(x.nrows()))
    }
}

/// Every draw scaled by `scale`: `scale * draw`.
pub open spec fn scaled(scale: Decimal, draws: Seq<Decimal>) -> Seq<Decimal> {
    Seq::new(draws.len(), |i: int| decimal_product(scale, draws[i]))
}

/// So many zeros.
pub open spec fn zeros_of(count: nat) -> Seq<Decimal> {
    Seq::new(count, |i: int| decimal_of_int(0))
}

/// A two-layer network: its parameters, and the loss that was computed
/// last, kept until it is reset or the parameters change.
pub struct TwoLayerNet {
    params: ParamStore,
    loss: Option<Scalar>,
    kept_for: Ghost<(Seq<Decimal>, Seq<Decimal>, nat)>,
}

impl View for TwoLayerNet {
    type V = Parameters;

    closed spec fn view(&self) -> Parameters {
        self.params@
    }
}

impl TwoLayerNet {
    /// The parameters of the network.
    pub closed spec fn store(&self) -> ParamStore {
        self.params
    }

    /// The loss that is kept, if one is.
    pub closed spec fn cached_loss(&self) -> Option<Decimal> {
        match self.loss {
            Some(value) => Some(value@),
            None => None,
        }
    }

    /// The batch that the kept loss was computed on: inputs, targets and
    /// the number of rows. Of no meaning where no loss is kept.
    pub closed spec fn kept_batch(&self) -> (Seq<Decimal>, Seq<Decimal>, nat) {
        self.kept_for@
    }

    /// A loss that is kept is the loss of the parameters as they are now,
    /// on the batch it was computed on.
    pub closed spec fn kept_loss_is_current(&self) -> bool {
        match self.loss {
            Some(value) => value@ == batch_loss(
                self.params@,
                self.kept_for@.0,
                self.kept_for@.1,
                self.kept_for@.2,
            ),
            None => true,
        }
    }

    /// The parameters have the shapes that the layer sizes ask for, and a
    /// kept loss is not stale.
    pub open spec fn wf(&self) -> bool {
        self.store().wf() && self.store()@ == self@ && self.kept_loss_is_current()
    }

    /// A kept loss never lags behind the parameters: it is the loss that
    /// they give on the batch it was computed on.
    pub proof fn lemma_kept_loss(&self)
        requires
            self.wf(),
            self.cached_loss().is_some(),
        ensures
            self.cached_loss() == Some(
                batch_loss(self@, self.kept_batch().0, self.kept_batch().1, self.kept_batch().2),
            ),
    {
    }

    /// Whether `x` is a batch that the network takes.
    pub open spec fn admits(&self, x: &BigFloatArray) -> bool {
        self.store().admits(x)
    }

    /// Whether `t` holds one row of targets per row of the batch `x`.
    pub open spec fn pairs(&self, x: &BigFloatArray, t: &BigFloatArray) -> bool {
        self.store().pairs(x, t)
    }

    /// A network over weights made of the given draws, scaled by
    /// `weight_init_std`, and biases of zero. The draws are as many as the
    /// weight matrices hold. Fails where a layer is empty.
    pub fn from_draws(
        input_size: usize,
        hidden_size: usize,
        output_size: usize,
        weight_init_std: Scalar,
        first: Vec<Scalar>,
        second: Vec<Scalar>,
    ) -> (r: Result<TwoLayerNet, BuildError>)
        requires
            first@.len() == input_size * hidden_size,
            second@.len() == hidden_size * output_size,
        ensures
            r.is_err() == (input_size == 0 || hidden_size == 0 || output_size == 0),
            r.is_err() ==> r matches Err(BuildError::EmptyLayer),
            r.is_ok() ==> r.unwrap().wf() && r.unwrap().cached_loss().is_none() && r.unwrap()@
                == initial(
                input_size as nat,
                hidden_size as nat,
                output_size as nat,
                weight_init_std@,
                decimals(first@),
                decimals(second@),
            ),
    {
        if input_size == 0 || hidden_size == 0 || output_size == 0 {
            return Err(BuildError::EmptyLayer);
        }
        let w1 = BigFloatArray::scalar_mul(
            &weight_init_std,
            &BigFloatArray::matrix(input_size, hidden_size, first).unwrap(),
        );
        let w2 = BigFloatArray::scalar_mul(
            &weight_init_std,
            &BigFloatArray::matrix(hidden_size, output_size, second).unwrap(),
        );
        let b1 = BigFloatArray::vector(zero_vec(hidden_size));
        let b2 = BigFloatArray::vector(zero_vec(output_size));
        proof {
            assert(w1@ =~= scaled(weight_init_std@, decimals(first@)));
            assert(w2@ =~= scaled(weight_init_std@, decimals(second@)));
            assert(b1@ =~= zeros_of(hidden_size as nat));
            assert(b2@ =~= zeros_of(output_size as nat));
        }
        let params = ParamStore::from_parts(w1, b1, w2, b2).unwrap();
        Ok(TwoLayerNet { params, loss: None, kept_for: Ghost((Seq::empty(), Seq::empty(), 0)) })
    }

    /// A network of the given sizes: weights drawn from the standard normal
    /// distribution and scaled by `weight_init_std`, biases of zero. Fails
    /// where a layer is empty, or where a weight matrix would be too large
    /// to address.
    pub fn new(input_size: usize, hidden_size: usize, output_size: usize, weight_init_std: Scalar) -> (r:
        Result<TwoLayerNet, BuildError>)
        ensures
            r.is_err() == (input_size == 0 || hidden_size == 0 || output_size == 0 || !addressable(
                input_size * hidden_size,
            ) || !addressable(hidden_size * output_size)),
            r matches Err(BuildError::EmptyLayer) <==> input_size == 0 || hidden_size == 0
                || output_size == 0,
            r matches Err(BuildError::TooLarge) <==> input_size > 0 && hidden_size > 0 && output_size
                > 0 && (!addressable(input_size * hidden_size) || !addressable(
                hidden_size * output_size,
            )),
            r.is_ok() ==> r.unwrap().wf() && r.unwrap().cached_loss().is_none() && r.unwrap()@.input
                == input_size && r.unwrap()@.hidden == hidden_size && r.unwrap()@.output
                == output_size && r.unwrap()@.b1 == zeros_of(hidden_size as nat) && r.unwrap()@.b2
                == zeros_of(output_size as nat),
            r.is_ok() ==> exists|first: Seq<Decimal>, second: Seq<Decimal>|
                first.len() == input_size * hidden_size && second.len() == hidden_size
                    * output_size && r.unwrap()@ == #[trigger] initial(
                    input_size as nat,
                    hidden_size as nat,
                    output_size as nat,
                    weight_init_std@,
                    first,
                    second,
                ),
    {
        if input_size == 0 || hidden_size == 0 || output_size == 0 {
            return Err(BuildError::EmptyLayer);
        }
        let limit = isize::MAX as usize / 32;
        let first_count = match input_size.checked_mul(hidden_size) {
            Some(count) => count,
            None => {
                return Err(BuildError::TooLarge);
            },
        };
        let second_count = match hidden_size.checked_mul(output_size) {
            Some(count) => count,
            None => {
                return Err(BuildError::TooLarge);
            },
        };
        if first_count > limit || second_count > limit {
            return Err(BuildError::TooLarge);
        }
        let first = normal_draws(first_count);
        let second = normal_draws(second_count);
        let ghost draws = (decimals(first@), decimals(second@));
        let made = TwoLayerNet::from_draws(
            input_size,
            hidden_size,
            output_size,
            weight_init_std,
            first,
            second,
        );
        proof {
            assert(made.unwrap()@ == initial(
                input_size as nat,
                hidden_size as nat,
                output_size as nat,
                weight_init_std@,
                draws.0,
                draws.1,
            ));
        }
        made
    }

    /// The parameters.
    pub fn params(&self) -> (r: &ParamStore)
        ensures
            *r == self.store(),
    {
        &self.params
    }

    /// The prediction for a batch: one row of class probabilities per
    /// example. The parameters are only read.
    pub fn predict(&self, x: &BigFloatArray) -> (y: BigFloatArray)
        requires
            self.wf(),
            self.admits(x),
        ensures
            y.is_matrix(x.shape()[0], self@.output as usize),
            y@ == forward(self@, x@, x.shape()[0] as nat),
    {
        self.params.predict(x)
    }

    /// The loss on a batch. Where a loss is kept, it is handed back as it
    /// is; elsewhere the loss is computed from the parameters and kept.
    pub fn loss(&mut self, x: &BigFloatArray, t: &BigFloatArray) -> (r: Scalar)
        requires
            old(self).wf(),
            old(self).admits(x),
            old(self).pairs(x, t),
        ensures
            final(self).wf(),
            final(self)@ == old(self)@,
            final(self).store() == old(self).store(),
            final(self).cached_loss() == Some(r@),
            r@ == match old(self).cached_loss() {
                Some(kept) => kept,
                None => batch_loss(old(self)@, x@, t@, x.shape()[0] as nat),
            },
            final(self).kept_batch() == match old(self).cached_loss() {
                Some(kept) => old(self).kept_batch(),
                None => (x@, t@, x.shape()[0] as nat),
            },
    {
        match self.loss {
            Some(kept) => kept,
            None => {
                let fresh = self.params.loss(x, t);
                self.loss = Some(fresh);
                self.kept_for = Ghost((x@, t@, x.shape()[0] as nat));
                fresh
            },
        }
    }

    /// Forgets the loss that is kept.
    pub fn reset_loss(&mut self)
        ensures
            final(self)@ == old(self)@,
            final(self).store() == old(self).store(),
            final(self).cached_loss().is_none(),
            old(self).wf() ==> final(self).wf(),
    {
        self.loss = None;
    }

    /// The share of rows of the batch whose predicted class is the
    /// target's; ties for the greatest element go to the lowest position.
    pub fn accuracy(&self, x: &BigFloatArray, t: &BigFloatArray) -> (r: Scalar)
        requires
            self.wf(),
            self.admits(x),
            self.pairs(x, t),
        ensures
            r@ == hit_rate(
                forward(self@, x@, x.shape()[0] as nat),
                t@,
                x.shape()[0] as nat,
                self@.output,
            ),
    {
        self.params.accuracy(x, t)
    }

    /// The share of rows of the batch whose predicted class is their
    /// label. `labels` holds one label per row, the class as a number.
    pub fn accuracy_with_labels(&self, x: &BigFloatArray, labels: &BigFloatArray) -> (r: Scalar)
        requires
            self.wf(),
            self.admits(x),
            labels.is_matrix(x.shape()[0], 1),
        ensures
            r@ == decimal_quotient(
                decimal_of_int(
                    label_hits(
                        row_argmaxes(
                            forward(self@, x@, x.shape()[0] as nat),
                            self@.output as int,
                            x.shape()[0] as nat,
                        ),
                        labels@,
                        x.shape()[0] as nat,
                    ) as int,
                ),
                decimal_of_int(x.shape()[0] as int),
            ),
    {
        self.params.accuracy_with_labels(x, labels)
    }

    /// The numerical gradient of the loss on a batch, one array per
    /// parameter and of its shape. The loss is computed from the parameters
    /// at every evaluation: a kept loss plays no part. The network is only
    /// read.
    pub fn numerical_gradient(&self, x: &BigFloatArray, t: &BigFloatArray) -> (grads: ParamStore)
        requires
            self.wf(),
            self.admits(x),
            self.pairs(x, t),
        ensures
            grads.wf(),
            grads@ == loss_gradient(self@, x@, t@, x.shape()[0] as nat),
    {
        self.params.numerical_gradient(x, t)
    }

    /// One update: every parameter becomes `parameter - rate * gradient`.
    /// The kept loss is forgotten, since it was computed from the
    /// parameters as they were.
    pub fn update(&mut self, grads: &ParamStore, rate: Scalar)
        requires
            old(self).wf(),
            grads.wf(),
            same_sizes(grads@, old(self)@),
        ensures
            final(self).wf(),
            final(self)@ == updated(old(self)@, grads@, rate@),
            final(self).cached_loss().is_none(),
    {
        self.params.apply(grads, rate);
        self.loss = None;
    }
}

/// A vector of so many zeros.
pub fn zero_vec(count: usize) -> (r: Vec<Scalar>)
    ensures
        r.len() == count,
        decimals(r@) == zeros_of(count as nat),
{
    let zero = Scalar::from_int(0);
    let mut out: Vec<Scalar> = Vec::new();
    let mut i: usize = 0;
    while i < count
        invariant
            i <= count,
            out.len() == i,
            zero@ == decimal_of_int(0),
            forall|k: int| 0 <= k < i ==> (#[trigger] out@[k])@ == decimal_of_int(0),
        decreases count - i,
    {
        out.push(zero);
        i += 1;
    }
    proof {
        assert(decimals(out@) =~= zeros_of(count as nat));
    }
    out
}

} // verus!
