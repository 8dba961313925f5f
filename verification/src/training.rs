//! Training by mini-batches.
//!
//! One step draws a batch of distinct rows, estimates the gradient of the
//! loss on it, moves the parameters against the gradient and reports the
//! loss and the accuracy on the same batch. Which rows are drawn is a matter
//! of chance; everything that follows from the draw is determined by it, and
//! every report says which rows its step was made on.
use crate::bigfloat_array::{addressable, lemma_volume_of_matrix, BigFloatArray};
use crate::linalg::gather_rows;
use crate::random::{batch_mask, is_sample};
use crate::scalar::{Decimal, Scalar};
use crate::two_layer::{batch_loss, forward, hit_rate, trained, Parameters, TwoLayerNet};
use vstd::prelude::*;

verus! {

/// What one training step did: the rows it drew, and the loss and the
/// accuracy on those rows after the update.
#[derive(Debug)]
pub struct StepReport {
    pub mask: Vec<usize>,
    pub loss: Scalar,
    pub accuracy: Scalar,
}

/// The rows that each step drew, step by step.
pub open spec fn masks_of(reports: Seq<StepReport>) -> Seq<Seq<usize>> {
    Seq::new(reports.len(), |k: int| reports[k].mask@)
}

/// The parameters after as many training steps as there are masks, each on
/// the rows of the training set that its mask names.
pub open spec fn replay(
    p: Parameters,
    x_train: Seq<Decimal>,
    t_train: Seq<Decimal>,
    masks: Seq<Seq<usize>>,
    rate: Decimal,
) -> Parameters
    decreases masks.len(),
{
    if masks.len() == 0 {
        p
    } else {
        let before = replay(p, x_train, t_train, masks.drop_last(), rate);
        trained(
            before,
            gather_rows(x_train, p.input as int, masks.last()),
            gather_rows(t_train, p.output as int, masks.last()),
            masks.last().len(),
            rate,
        )
    }
}

/// Whether `x_train` and `t_train` are a training set for the network: one
/// row of inputs and one row of targets per example.
pub open spec fn is_training_set(net: &TwoLayerNet, x_train: &BigFloatArray, t_train: &BigFloatArray) -> bool {
    &&& x_train.wf()
    &&& t_train.wf()
    &&& x_train.shape().len() == 2
    &&& t_train.shape().len() == 2
    &&& x_train.shape()[1] == net@.input
    &&& t_train.shape()[1] == net@.output
    &&& t_train.shape()[0] == x_train.shape()[0]
}

/// Whether the activations of a batch of `batch_size` rows can be addressed.
pub open spec fn fits(net: &TwoLayerNet, batch_size: usize) -> bool {
    addressable(batch_size * net@.hidden) && addressable(batch_size * net@.output)
}

/// The sizes of a network stay through an update.
proof fn lemma_sizes_stay(before: &TwoLayerNet, after: &TwoLayerNet)
    requires
        after@.input == before@.input,
        after@.hidden == before@.hidden,
        after@.output == before@.output,
        before.wf(),
        after.wf(),
    ensures
        forall|x: &BigFloatArray| before.admits(x) ==> #[trigger] after.admits(x),
        forall|x: &BigFloatArray, t: &BigFloatArray|
            before.pairs(x, t) ==> #[trigger] after.pairs(x, t),
{
}

/// One training step on a given batch: the kept loss is forgotten, the
/// gradient of the loss on the batch is estimated, every parameter is moved
/// against it by `rate`, and the loss and the accuracy on the same batch are
/// computed from the new parameters.
pub fn train_on_batch(net: &mut TwoLayerNet, x: &BigFloatArray, t: &BigFloatArray, rate: Scalar) -> (r: (
    Scalar,
    Scalar,
))
    requires
        old(net).wf(),
        old(net).admits(x),
        old(net).pairs(x, t),
    ensures
        final(net).wf(),
        final(net)@ == trained(old(net)@, x@, t@, x.shape()[0] as nat, rate@),
        final(net).cached_loss() == Some(r.0@),
        r.0@ == batch_loss(final(net)@, x@, t@, x.shape()[0] as nat),
        r.1@ == hit_rate(
            forward(final(net)@, x@, x.shape()[0] as nat),
            t@,
            x.shape()[0] as nat,
            final(net)@.output,
        ),
{
    net.reset_loss();
    let grads = net.numerical_gradient(x, t);
    net.update(&grads, rate);
    proof {
        lemma_sizes_stay(old(net), net);
    }
    let loss = net.loss(x, t);
    let accuracy = net.accuracy(x, t);
    (loss, accuracy)
}

/// One training step on `batch_size` rows of the training set, drawn
/// without replacement. `None`, and nothing changed, where the training set
/// has fewer rows than that.
pub fn train_step(
    net: &mut TwoLayerNet,
    x_train: &BigFloatArray,
    t_train: &BigFloatArray,
    batch_size: usize,
    rate: Scalar,
) -> (r: Option<StepReport>)
    requires
        old(net).wf(),
        is_training_set(old(net), x_train, t_train),
        fits(old(net), batch_size),
    ensures
        final(net).wf(),
        r.is_some() == (batch_size <= x_train.shape()[0]),
        r.is_none() ==> final(net)@ == old(net)@ && final(net).cached_loss() == old(
            net,
        ).cached_loss(),
        r.is_some() ==> is_sample(
            r.unwrap().mask@,
            x_train.shape()[0] as int,
            batch_size as int,
        ) && final(net)@ == trained(
            old(net)@,
            gather_rows(x_train@, old(net)@.input as int, r.unwrap().mask@),
            gather_rows(t_train@, old(net)@.output as int, r.unwrap().mask@),
            batch_size as nat,
            rate@,
        ) && r.unwrap().loss@ == batch_loss(
            final(net)@,
            gather_rows(x_train@, old(net)@.input as int, r.unwrap().mask@),
            gather_rows(t_train@, old(net)@.output as int, r.unwrap().mask@),
            batch_size as nat,
        ) && r.unwrap().accuracy@ == hit_rate(
            forward(
                final(net)@,
                gather_rows(x_train@, old(net)@.input as int, r.unwrap().mask@),
                batch_size as nat,
            ),
            gather_rows(t_train@, old(net)@.output as int, r.unwrap().mask@),
            batch_size as nat,
            old(net)@.output,
        ),
{
    let train_size = x_train.nrows();
    proof {
        x_train.lemma_len_fits();
        t_train.lemma_len_fits();
        net.store().lemma_sizes();
        assert(batch_size * 32 <= batch_size * net@.hidden * 32) by (nonlinear_arith)
            requires
                net@.hidden >= 1,
        ;
    }
    match batch_mask(train_size, batch_size) {
        None => None,
        Some(mask) => {
            proof {
                let input = x_train.shape()[1];
                let output = t_train.shape()[1];
                assert(x_train.shape() =~= seq![train_size, input]);
                assert(t_train.shape() =~= seq![train_size, output]);
                lemma_volume_of_matrix(train_size, input);
                lemma_volume_of_matrix(train_size, output);
                assert(batch_size * input <= train_size * input) by (nonlinear_arith)
                    requires
                        batch_size <= train_size,
                ;
                assert(batch_size * output <= train_size * output) by (nonlinear_arith)
                    requires
                        batch_size <= train_size,
                ;
            }
            let x_batch = x_train.select_rows(&mask);
            let t_batch = t_train.select_rows(&mask);
            let (loss, accuracy) = train_on_batch(net, &x_batch, &t_batch, rate);
            Some(StepReport { mask, loss, accuracy })
        },
    }
}

/// A training run: `iters_num` steps, each on `batch_size` rows drawn anew.
/// Returns one report per step, in order; the parameters end where the
/// steps, replayed on the rows they drew, lead. `None`, and nothing changed,
/// where the training set has fewer rows than a batch.
pub fn mini_batch(
    net: &mut TwoLayerNet,
    x_train: &BigFloatArray,
    t_train: &BigFloatArray,
    iters_num: usize,
    batch_size: usize,
    learning_rate: Scalar,
) -> (r: Option<Vec<StepReport>>)
    requires
        old(net).wf(),
        is_training_set(old(net), x_train, t_train),
        fits(old(net), batch_size),
    ensures
        final(net).wf(),
        r.is_some() == (batch_size <= x_train.shape()[0]),
        r.is_none() ==> final(net)@ == old(net)@,
        r.is_some() ==> r.unwrap()@.len() == iters_num && final(net)@ == replay(
            old(net)@,
            x_train@,
            t_train@,
            masks_of(r.unwrap()@),
            learning_rate@,
        ),
        r.is_some() ==> forall|k: int|
            0 <= k < iters_num ==> is_sample(
                (#[trigger] r.unwrap()@[k]).mask@,
                x_train.shape()[0] as int,
                batch_size as int,
            ) && r.unwrap()@[k].loss@ == batch_loss(
                replay(
                    old(net)@,
                    x_train@,
                    t_train@,
                    masks_of(r.unwrap()@).take(k + 1),
                    learning_rate@,
                ),
                gather_rows(x_train@, old(net)@.input as int, r.unwrap()@[k].mask@),
                gather_rows(t_train@, old(net)@.output as int, r.unwrap()@[k].mask@),
                batch_size as nat,
            ) && r.unwrap()@[k].accuracy@ == hit_rate(
                forward(
                    replay(
                        old(net)@,
                        x_train@,
                        t_train@,
                        masks_of(r.unwrap()@).take(k + 1),
                        learning_rate@,
                    ),
                    gather_rows(x_train@, old(net)@.input as int, r.unwrap()@[k].mask@),
                    batch_size as nat,
                ),
                gather_rows(t_train@, old(net)@.output as int, r.unwrap()@[k].mask@),
                batch_size as nat,
                old(net)@.output,
            ),
{
    if batch_size > x_train.nrows() {
        return None;
    }
    let mut train_loss_list: Vec<StepReport> = Vec::new();
    let mut i: usize = 0;
    proof {
        assert(masks_of(train_loss_list@) =~= Seq::<Seq<usize>>::empty());
    }
    while i < iters_num
        invariant
            i <= iters_num,
            net.wf(),
            is_training_set(net, x_train, t_train),
            fits(net, batch_size),
            batch_size <= x_train.shape()[0],
            net@.input == old(net)@.input,
            net@.hidden == old(net)@.hidden,
            net@.output == old(net)@.output,
            train_loss_list@.len() == i,
            net@ == replay(
                old(net)@,
                x_train@,
                t_train@,
                masks_of(train_loss_list@),
                learning_rate@,
            ),
            forall|k: int|
                0 <= k < i ==> is_sample(
                    (#[trigger] train_loss_list@[k]).mask@,
                    x_train.shape()[0] as int,
                    batch_size as int,
                ) && train_loss_list@[k].loss@ == batch_loss(
                    replay(
                        old(net)@,
                        x_train@,
                        t_train@,
                        masks_of(train_loss_list@).take(k + 1),
                        learning_rate@,
                    ),
                    gather_rows(x_train@, old(net)@.input as int, train_loss_list@[k].mask@),
                    gather_rows(t_train@, old(net)@.output as int, train_loss_list@[k].mask@),
                    batch_size as nat,
                ) && train_loss_list@[k].accuracy@ == hit_rate(
                    forward(
                        replay(
                            old(net)@,
                            x_train@,
                            t_train@,
                            masks_of(train_loss_list@).take(k + 1),
                            learning_rate@,
                        ),
                        gather_rows(x_train@, old(net)@.input as int, train_loss_list@[k].mask@),
                        batch_size as nat,
                    ),
                    gather_rows(t_train@, old(net)@.output as int, train_loss_list@[k].mask@),
                    batch_size as nat,
                    old(net)@.output,
                ),
        decreases iters_num - i,
    {
        let ghost before = train_loss_list@;
        let report = train_step(net, x_train, t_train, batch_size, learning_rate).unwrap();
        let ghost mask = report.mask@;
        train_loss_list.push(report);
        proof {
            let masks = masks_of(train_loss_list@);
            assert(masks.drop_last() =~= masks_of(before));
            assert(masks.last() == mask);
            assert(masks.take(i + 1) =~= masks);
            assert forall|k: int| 0 <= k < i implies #[trigger] train_loss_list@[k] == before[k]
                && masks.take(k + 1) == masks_of(before).take(k + 1) by {
                assert(masks.take(k + 1) =~= masks_of(before).take(k + 1));
            }
        }
        i += 1;
    }
    Some(train_loss_list)
}

} // verus!
