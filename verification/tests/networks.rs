use gradnet::bigfloat_array::BigFloatArray;
use gradnet::scalar::Scalar;
use gradnet::two_layer::{ParamName, ParamStore, TwoLayerNet, Weight};

fn s(text: &str) -> Scalar {
    Scalar::parse(text).unwrap()
}

fn read(x: Scalar) -> f64 {
    x.format().parse::<f64>().unwrap()
}

fn scalars(values: &[&str]) -> Vec<Scalar> {
    values.iter().map(|v| s(v)).collect()
}

fn matrix(rows: usize, cols: usize, values: &[&str]) -> BigFloatArray {
    BigFloatArray::matrix(rows, cols, scalars(values)).unwrap()
}

fn texts(a: &BigFloatArray) -> Vec<String> {
    a.to_vec().into_iter().map(|x| x.format()).collect()
}

fn values(a: &BigFloatArray) -> Vec<f64> {
    a.to_vec().into_iter().map(read).collect()
}

const NAMES: [ParamName; 4] = [ParamName::W1, ParamName::B1, ParamName::W2, ParamName::B2];

fn small_net() -> TwoLayerNet {
    let first = scalars(&["0.5", "-1.2", "0.3", "0.8", "0.1", "-0.4"]);
    let second = scalars(&["1.5", "-0.7", "0.2", "0.9", "-1.1", "0.6"]);
    TwoLayerNet::from_draws(2, 3, 2, s("0.5"), first, second).unwrap()
}

fn batch() -> (BigFloatArray, BigFloatArray) {
    let x = matrix(3, 2, &["0.2", "0.7", "1.0", "-0.5", "0.0", "0.3"]);
    let t = matrix(3, 2, &["1", "0", "0", "1", "1", "0"]);
    (x, t)
}

fn snapshot(store: &ParamStore) -> Vec<Vec<String>> {
    NAMES.iter().map(|n| texts(store.param(*n))).collect()
}

fn reference_loss(net: &TwoLayerNet, x: &BigFloatArray, t: &BigFloatArray) -> f64 {
    read(net.params().loss(x, t))
}

#[test]
fn weights_are_the_draws_scaled_and_biases_are_zero() {
    let net = small_net();
    let p = net.params();
    assert_eq!(values(p.param(ParamName::W1)), vec![0.25, -0.6, 0.15, 0.4, 0.05, -0.2]);
    assert_eq!(values(p.param(ParamName::W2)), vec![0.75, -0.35, 0.1, 0.45, -0.55, 0.3]);
    assert_eq!(values(p.param(ParamName::B1)), vec![0.0; 3]);
    assert_eq!(values(p.param(ParamName::B2)), vec![0.0; 2]);
    assert_eq!((p.input_size(), p.hidden_size(), p.output_size()), (2, 3, 2));
}

#[test]
fn prediction_follows_the_two_layers() {
    let net = small_net();
    let (x, _) = batch();
    let y = net.predict(&x);
    assert_eq!(y.dims(), &vec![3, 2]);
    let w1: [f64; 6] = [0.25, -0.6, 0.15, 0.4, 0.05, -0.2];
    let w2: [f64; 6] = [0.75, -0.35, 0.1, 0.45, -0.55, 0.3];
    let xs: [f64; 6] = [0.2, 0.7, 1.0, -0.5, 0.0, 0.3];
    let got = values(&y);
    for r in 0..3 {
        let z: Vec<f64> = (0..3)
            .map(|h| 1.0 / (1.0 + (-(xs[2 * r] * w1[h] + xs[2 * r + 1] * w1[3 + h])).exp()))
            .collect();
        let a: Vec<f64> = (0..2).map(|o| (0..3).map(|h| z[h] * w2[2 * h + o]).sum()).collect();
        let top = a[0].max(a[1]);
        let e: [f64; 2] = [(a[0] - top).exp(), (a[1] - top).exp()];
        for o in 0..2 {
            assert!((got[2 * r + o] - e[o] / (e[0] + e[1])).abs() < 1e-12);
        }
    }
}

#[test]
fn get_and_set_exchange_one_parameter() {
    let mut store = small_net().params().duplicate();
    let b1 = store.get(ParamName::B1);
    assert!(matches!(b1, Weight::M1(_)));
    assert_eq!(values(&b1.unwrap_m1()), vec![0.0; 3]);
    let w2 = store.get(ParamName::W2);
    assert!(matches!(w2, Weight::M2(_)));
    assert_eq!(w2.unwrap_m2().dims(), &vec![3, 2]);
    let replacement = BigFloatArray::vector(scalars(&["1", "2", "3"]));
    store.set(ParamName::B1, Weight::M1(replacement));
    assert_eq!(values(store.param(ParamName::B1)), vec![1.0, 2.0, 3.0]);
    assert_eq!(values(store.param(ParamName::B2)), vec![0.0; 2]);
    store.set_element(ParamName::W1, 4, s("9"));
    assert_eq!(values(store.param(ParamName::W1)), vec![0.25, -0.6, 0.15, 0.4, 9.0, -0.2]);
}

#[test]
fn parts_that_do_not_fit_are_refused() {
    let w1 = BigFloatArray::zeros(vec![2, 3]).unwrap();
    let b1 = BigFloatArray::zeros(vec![3]).unwrap();
    let w2 = BigFloatArray::zeros(vec![3, 2]).unwrap();
    let b2 = BigFloatArray::zeros(vec![2]).unwrap();
    assert!(ParamStore::from_parts(w1.duplicate(), b1.duplicate(), w2.duplicate(), b2.duplicate()).is_some());
    let short = BigFloatArray::zeros(vec![2]).unwrap();
    assert!(ParamStore::from_parts(w1.duplicate(), short, w2.duplicate(), b2.duplicate()).is_none());
    let wide = BigFloatArray::zeros(vec![4, 2]).unwrap();
    assert!(ParamStore::from_parts(w1.duplicate(), b1.duplicate(), wide, b2.duplicate()).is_none());
    let flat = BigFloatArray::zeros(vec![6]).unwrap();
    assert!(ParamStore::from_parts(flat, b1.duplicate(), w2.duplicate(), b2.duplicate()).is_none());
    let empty = BigFloatArray::zeros(vec![0, 3]).unwrap();
    assert!(ParamStore::from_parts(empty, b1, w2, b2).is_none());
}

#[test]
fn gradient_has_the_shapes_of_the_parameters() {
    let net = small_net();
    let (x, t) = batch();
    let grads = net.numerical_gradient(&x, &t);
    for name in NAMES {
        assert_eq!(grads.param(name).dims(), net.params().param(name).dims());
    }
}

#[test]
fn gradient_leaves_the_parameters_as_they_were() {
    let net = small_net();
    let (x, t) = batch();
    let before = snapshot(net.params());
    let _ = net.numerical_gradient(&x, &t);
    assert_eq!(snapshot(net.params()), before);
    let mut store = net.params().duplicate();
    for name in NAMES {
        let _ = store.sweep(name, &x, &t);
        assert_eq!(snapshot(&store), before);
    }
}

#[test]
fn each_slope_is_the_central_difference_of_the_loss() {
    let net = small_net();
    let (x, t) = batch();
    let grads = net.numerical_gradient(&x, &t);
    let h = s("0.0001");
    for name in NAMES {
        let count = net.params().param(name).len();
        for i in 0..count {
            let mut store = net.params().duplicate();
            let v = store.param(name).get(i);
            store.set_element(name, i, v.plus(h));
            let ahead = store.loss(&x, &t);
            store.set_element(name, i, v.minus(h));
            let behind = store.loss(&x, &t);
            let slope = ahead.minus(behind).over(s("2").times(h));
            assert_eq!(grads.param(name).get(i).format(), slope.format());
        }
    }
}

#[test]
fn gradient_ignores_a_kept_loss() {
    let mut net = small_net();
    let (x, t) = batch();
    let plain = net.numerical_gradient(&x, &t);
    let _ = net.loss(&x, &t);
    let kept = net.numerical_gradient(&x, &t);
    assert_eq!(snapshot(&plain), snapshot(&kept));
    assert!(values(plain.param(ParamName::W2)).iter().any(|g| g.abs() > 1e-6));
}

#[test]
fn an_update_moves_every_parameter_against_its_slope() {
    let mut net = small_net();
    let (x, t) = batch();
    let grads = net.numerical_gradient(&x, &t);
    let before: Vec<Vec<f64>> = NAMES.iter().map(|n| values(net.params().param(*n))).collect();
    net.update(&grads, s("0.1"));
    for (k, name) in NAMES.iter().enumerate() {
        let after = values(net.params().param(*name));
        let slopes = values(grads.param(*name));
        assert_eq!(net.params().param(*name).dims(), grads.param(*name).dims());
        for i in 0..after.len() {
            assert!((after[i] - (before[k][i] - 0.1 * slopes[i])).abs() < 1e-12);
        }
    }
}

#[test]
fn an_update_lowers_the_loss_on_its_batch() {
    let mut net = small_net();
    let (x, t) = batch();
    let before = reference_loss(&net, &x, &t);
    let grads = net.numerical_gradient(&x, &t);
    net.update(&grads, s("0.1"));
    let after = reference_loss(&net, &x, &t);
    assert!(after < before);
}

#[test]
fn updates_lower_the_loss_on_average_over_many_draws() {
    let (x, t) = batch();
    let mut lowered = 0;
    let mut gain = 0.0;
    for _ in 0..20 {
        let mut net = TwoLayerNet::new(2, 3, 2, s("0.01")).unwrap();
        let before = reference_loss(&net, &x, &t);
        let grads = net.numerical_gradient(&x, &t);
        net.update(&grads, s("0.1"));
        let after = reference_loss(&net, &x, &t);
        gain += before - after;
        if after < before {
            lowered += 1;
        }
    }
    assert!(gain > 0.0);
    assert!(lowered >= 15);
}

#[test]
fn a_kept_loss_is_served_until_it_is_reset() {
    let mut net = small_net();
    let (x, t) = batch();
    let first = net.loss(&x, &t).format();
    assert_eq!(first, net.params().loss(&x, &t).format());
    let other = matrix(3, 2, &["5", "5", "5", "5", "5", "5"]);
    assert_eq!(net.loss(&other, &t).format(), first);
    net.reset_loss();
    let fresh = net.loss(&other, &t).format();
    assert_ne!(fresh, first);
    assert_eq!(fresh, net.params().loss(&other, &t).format());
}

#[test]
fn an_update_forgets_the_kept_loss() {
    let mut net = small_net();
    let (x, t) = batch();
    let before = net.loss(&x, &t).format();
    let grads = net.numerical_gradient(&x, &t);
    net.update(&grads, s("0.1"));
    let after = net.loss(&x, &t).format();
    assert_ne!(before, after);
    assert_eq!(after, net.params().loss(&x, &t).format());
}

#[test]
fn accuracy_counts_the_rows_whose_class_is_hit() {
    let net = small_net();
    let (x, _) = batch();
    let classes = net.predict(&x).argmax_rows();
    let mut targets = Vec::new();
    let mut labels = Vec::new();
    for (r, class) in classes.iter().enumerate() {
        let wanted = if r == 1 { 1 - class } else { *class };
        targets.push(if wanted == 0 { "1" } else { "0" });
        targets.push(if wanted == 1 { "1" } else { "0" });
        labels.push(if wanted == 0 { "0" } else { "1" });
    }
    let t = matrix(3, 2, &targets);
    assert_eq!(net.params().count_hits(&x, &t), 2);
    assert!((read(net.accuracy(&x, &t)) - 2.0 / 3.0).abs() < 1e-12);
    let l = matrix(3, 1, &labels);
    assert!((read(net.accuracy_with_labels(&x, &l)) - 2.0 / 3.0).abs() < 1e-12);
}

#[test]
fn accuracy_breaks_ties_toward_the_lowest_class() {
    let first = scalars(&["0", "0", "0", "0", "0", "0"]);
    let second = scalars(&["0", "0", "0", "0", "0", "0"]);
    let net = TwoLayerNet::from_draws(2, 3, 2, s("1"), first, second).unwrap();
    let (x, _) = batch();
    assert_eq!(net.predict(&x).argmax_rows(), vec![0, 0, 0]);
    let t = matrix(3, 2, &["1", "0", "0.5", "0.5", "0", "1"]);
    assert_eq!(net.params().count_hits(&x, &t), 2);
}
