use gradnet::bigfloat_array::BigFloatArray;
use gradnet::random::{batch_mask, normal_draws};
use gradnet::scalar::Scalar;
use gradnet::training::{mini_batch, train_on_batch, train_step};
use gradnet::two_layer::{ParamName, TwoLayerNet};

fn s(text: &str) -> Scalar {
    Scalar::parse(text).unwrap()
}

fn read(x: Scalar) -> f64 {
    x.format().parse::<f64>().unwrap()
}

fn scalars(values: &[&str]) -> Vec<Scalar> {
    values.iter().map(|v| s(v)).collect()
}

fn matrix(rows: usize, cols: usize, values: &[&str]) -> BigFloatArray {
    BigFloatArray::matrix(rows, cols, scalars(values)).unwrap()
}

fn texts(a: &BigFloatArray) -> Vec<String> {
    a.to_vec().into_iter().map(|x| x.format()).collect()
}

const NAMES: [ParamName; 4] = [ParamName::W1, ParamName::B1, ParamName::W2, ParamName::B2];

fn snapshot(net: &TwoLayerNet) -> Vec<Vec<String>> {
    NAMES.iter().map(|n| texts(net.params().param(*n))).collect()
}

fn small_net() -> TwoLayerNet {
    let first = scalars(&["0.5", "-1.2", "0.3", "0.8", "0.1", "-0.4"]);
    let second = scalars(&["1.5", "-0.7", "0.2", "0.9", "-1.1", "0.6"]);
    TwoLayerNet::from_draws(2, 3, 2, s("0.5"), first, second).unwrap()
}

fn training_set() -> (BigFloatArray, BigFloatArray) {
    let x = matrix(
        6,
        2,
        &["0.2", "0.7", "1.0", "-0.5", "0.0", "0.3", "0.9", "0.9", "-0.4", "0.1", "0.6", "-0.8"],
    );
    let t = matrix(6, 2, &["1", "0", "0", "1", "1", "0", "0", "1", "1", "0", "0", "1"]);
    (x, t)
}

fn is_sample(mask: &[usize], length: usize, amount: usize) -> bool {
    let mut seen = vec![false; length];
    for m in mask {
        if *m >= length || seen[*m] {
            return false;
        }
        seen[*m] = true;
    }
    mask.len() == amount
}

#[test]
fn a_mask_names_distinct_rows_in_range() {
    for _ in 0..50 {
        let mask = batch_mask(10, 4).unwrap();
        assert!(is_sample(&mask, 10, 4));
    }
    let all = batch_mask(5, 5).unwrap();
    assert!(is_sample(&all, 5, 5));
    assert_eq!(batch_mask(5, 0).unwrap().len(), 0);
    assert!(batch_mask(3, 4).is_none());
}

#[test]
fn masks_differ_from_draw_to_draw() {
    let first = batch_mask(1000, 10).unwrap();
    assert!((0..20).any(|_| batch_mask(1000, 10).unwrap() != first));
}

#[test]
fn normal_draws_are_as_many_as_asked_and_not_all_alike() {
    let draws = normal_draws(200);
    assert_eq!(draws.len(), 200);
    let values: Vec<f64> = draws.into_iter().map(read).collect();
    assert!(values.iter().all(|v| v.is_finite()));
    assert!(values.iter().any(|v| *v > 0.0) && values.iter().any(|v| *v < 0.0));
    let mean: f64 = values.iter().sum::<f64>() / 200.0;
    assert!(mean.abs() < 0.5);
    assert_eq!(normal_draws(0).len(), 0);
}

#[test]
fn one_step_on_a_batch_reports_loss_and_accuracy_after_the_update() {
    let (x, t) = training_set();
    let mut net = small_net();
    let mut by_hand = small_net();
    let (loss, accuracy) = train_on_batch(&mut net, &x, &t, s("0.1"));
    let grads = by_hand.numerical_gradient(&x, &t);
    by_hand.update(&grads, s("0.1"));
    assert_eq!(snapshot(&net), snapshot(&by_hand));
    assert_eq!(loss.format(), by_hand.params().loss(&x, &t).format());
    assert_eq!(accuracy.format(), by_hand.accuracy(&x, &t).format());
    assert_eq!(net.loss(&x, &t).format(), loss.format());
}

#[test]
fn one_step_ignores_a_loss_kept_from_before() {
    let (x, t) = training_set();
    let mut net = small_net();
    let stale = net.loss(&x, &t).format();
    let (loss, _) = train_on_batch(&mut net, &x, &t, s("0.1"));
    assert_ne!(loss.format(), stale);
    assert!(read(loss) < stale.parse::<f64>().unwrap());
}

#[test]
fn a_step_trains_on_the_rows_it_drew() {
    let (x, t) = training_set();
    let mut net = small_net();
    let report = train_step(&mut net, &x, &t, 3, s("0.1")).unwrap();
    assert!(is_sample(&report.mask, 6, 3));
    let mut replayed = small_net();
    let x_batch = x.select_rows(&report.mask);
    let t_batch = t.select_rows(&report.mask);
    let (loss, accuracy) = train_on_batch(&mut replayed, &x_batch, &t_batch, s("0.1"));
    assert_eq!(snapshot(&net), snapshot(&replayed));
    assert_eq!(report.loss.format(), loss.format());
    assert_eq!(report.accuracy.format(), accuracy.format());
}

#[test]
fn a_step_on_too_small_a_set_changes_nothing() {
    let (x, t) = training_set();
    let mut net = small_net();
    let before = snapshot(&net);
    assert!(train_step(&mut net, &x, &t, 7, s("0.1")).is_none());
    assert_eq!(snapshot(&net), before);
    assert!(mini_batch(&mut net, &x, &t, 3, 7, s("0.1")).is_none());
    assert_eq!(snapshot(&net), before);
}

#[test]
fn a_run_is_the_replay_of_its_masks() {
    let (x, t) = training_set();
    let mut net = small_net();
    let reports = mini_batch(&mut net, &x, &t, 5, 4, s("0.1")).unwrap();
    assert_eq!(reports.len(), 5);
    let mut replayed = small_net();
    for report in &reports {
        assert!(is_sample(&report.mask, 6, 4));
        let x_batch = x.select_rows(&report.mask);
        let t_batch = t.select_rows(&report.mask);
        let (loss, accuracy) = train_on_batch(&mut replayed, &x_batch, &t_batch, s("0.1"));
        assert_eq!(report.loss.format(), loss.format());
        assert_eq!(report.accuracy.format(), accuracy.format());
    }
    assert_eq!(snapshot(&net), snapshot(&replayed));
    for name in NAMES {
        assert_eq!(net.params().param(name).dims(), small_net().params().param(name).dims());
    }
}

#[test]
fn a_run_without_steps_changes_nothing() {
    let (x, t) = training_set();
    let mut net = small_net();
    let before = snapshot(&net);
    let reports = mini_batch(&mut net, &x, &t, 0, 4, s("0.1")).unwrap();
    assert!(reports.is_empty());
    assert_eq!(snapshot(&net), before);
}

#[test]
fn a_run_on_the_whole_set_lowers_the_loss() {
    let (x, t) = training_set();
    let mut net = small_net();
    let start = read(net.params().loss(&x, &t));
    let reports = mini_batch(&mut net, &x, &t, 30, 6, s("0.5")).unwrap();
    let end = read(reports.last().unwrap().loss);
    assert!(end < start);
    assert!(read(reports.last().unwrap().accuracy) >= 0.0);
    assert!(read(reports.last().unwrap().accuracy) <= 1.0);
}
