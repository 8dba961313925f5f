use gradnet::bigfloat_array::BigFloatArray;
use gradnet::scalar::Scalar;
use gradnet::two_layer::{BuildError, ParamName, TwoLayerNet};

fn read(x: Scalar) -> f64 {
    x.format().parse::<f64>().unwrap()
}

fn matrix(rows: usize, cols: usize, values: &[&str]) -> BigFloatArray {
    let data: Vec<Scalar> = values.iter().map(|v| Scalar::parse(v).unwrap()).collect();
    BigFloatArray::matrix(rows, cols, data).unwrap()
}

fn one_hot(rows: usize, cols: usize, classes: &[usize]) -> BigFloatArray {
    let mut data = Vec::new();
    for r in 0..rows {
        for c in 0..cols {
            data.push(Scalar::from_int(if classes[r] == c { 1 } else { 0 }));
        }
    }
    BigFloatArray::matrix(rows, cols, data).unwrap()
}

fn sizes_ok(net: &TwoLayerNet, x: &BigFloatArray) -> bool {
    let p = net.params();
    x.ndim() == 2 && x.dims()[1] == p.input_size()
}

#[test]
fn prediction_on_a_batch_of_zero_inputs_has_rows_that_sum_to_one() {
    let net = TwoLayerNet::new(784, 50, 10, Scalar::ratio(1, 100)).unwrap();
    let x = BigFloatArray::zeros(vec![100, 784]).unwrap();
    assert!(sizes_ok(&net, &x));
    let y = net.predict(&x);
    assert_eq!(y.dims(), &vec![100, 10]);
    for r in 0..100 {
        let row = y.row(r);
        let total = read(row.sum());
        assert!((total - 1.0).abs() < 1e-9);
        for c in 0..10 {
            assert!(read(row.get(c)) >= 0.0);
        }
    }
}

#[test]
fn accuracy_is_one_on_full_agreement_and_zero_on_none() {
    let net = TwoLayerNet::new(4, 3, 3, Scalar::ratio(1, 100)).unwrap();
    let x = matrix(
        5,
        4,
        &[
            "0.1", "0.2", "0.3", "0.4", "0.9", "0.1", "0.5", "0.2", "0.3", "0.3", "0.3", "0.3",
            "1", "0", "0", "1", "0", "0", "0", "0",
        ],
    );
    let predicted = net.predict(&x).argmax_rows();
    let agreeing = one_hot(5, 3, &predicted);
    assert_eq!(read(net.accuracy(&x, &agreeing)), 1.0);
    assert_eq!(net.params().count_hits(&x, &agreeing), 5);
    let other: Vec<usize> = predicted.iter().map(|c| (c + 1) % 3).collect();
    let disagreeing = one_hot(5, 3, &other);
    assert_eq!(read(net.accuracy(&x, &disagreeing)), 0.0);
    assert_eq!(net.params().count_hits(&x, &disagreeing), 0);
}

#[test]
fn a_network_without_units_is_refused() {
    assert!(matches!(
        TwoLayerNet::new(0, 3, 2, Scalar::from_int(1)),
        Err(BuildError::EmptyLayer)
    ));
    assert!(matches!(
        TwoLayerNet::new(3, 0, 2, Scalar::from_int(1)),
        Err(BuildError::EmptyLayer)
    ));
    assert!(matches!(
        TwoLayerNet::new(3, 2, 0, Scalar::from_int(1)),
        Err(BuildError::EmptyLayer)
    ));
    assert!(matches!(
        TwoLayerNet::new(usize::MAX, 2, 2, Scalar::from_int(1)),
        Err(BuildError::TooLarge)
    ));
}

#[test]
fn biases_start_at_zero_and_weights_have_the_layer_shapes() {
    let net = TwoLayerNet::new(3, 4, 2, Scalar::ratio(1, 100)).unwrap();
    let p = net.params();
    assert_eq!(p.param(ParamName::W1).dims(), &vec![3, 4]);
    assert_eq!(p.param(ParamName::B1).dims(), &vec![4]);
    assert_eq!(p.param(ParamName::W2).dims(), &vec![4, 2]);
    assert_eq!(p.param(ParamName::B2).dims(), &vec![2]);
    for i in 0..4 {
        assert_eq!(read(p.param(ParamName::B1).get(i)), 0.0);
    }
    for i in 0..2 {
        assert_eq!(read(p.param(ParamName::B2).get(i)), 0.0);
    }
}
