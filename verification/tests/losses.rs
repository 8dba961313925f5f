use gradnet::bigfloat_array::BigFloatArray;
use gradnet::loss::{cross_entropy_error, sum_squares_error};
use gradnet::scalar::Scalar;

fn read(x: Scalar) -> f64 {
    x.format().parse::<f64>().unwrap()
}

fn matrix(rows: usize, cols: usize, values: &[&str]) -> BigFloatArray {
    BigFloatArray::matrix(rows, cols, values.iter().map(|v| Scalar::parse(v).unwrap()).collect())
        .unwrap()
}

fn vector(values: &[&str]) -> BigFloatArray {
    BigFloatArray::vector(values.iter().map(|v| Scalar::parse(v).unwrap()).collect())
}

const GOOD: [&str; 10] = ["0.1", "0.05", "0.6", "0.0", "0.05", "0.1", "0.0", "0.1", "0.0", "0.0"];
const BAD: [&str; 10] = ["0.1", "0.05", "0.1", "0.0", "0.05", "0.1", "0.0", "0.6", "0.0", "0.0"];
const TARGET: [&str; 10] = ["0", "0", "1", "0", "0", "0", "0", "0", "0", "0"];

#[test]
fn sum_squares_error_of_a_good_and_a_bad_guess() {
    let t = vector(&TARGET);
    assert!((read(sum_squares_error(&vector(&GOOD), &t)) - 0.0975).abs() < 1e-12);
    assert!((read(sum_squares_error(&vector(&BAD), &t)) - 0.5975).abs() < 1e-12);
}

#[test]
fn cross_entropy_error_of_a_good_and_a_bad_guess() {
    let t = matrix(1, 10, &TARGET);
    let good = read(cross_entropy_error(&matrix(1, 10, &GOOD), &t));
    let bad = read(cross_entropy_error(&matrix(1, 10, &BAD), &t));
    assert!((good - 0.510825457099338).abs() < 1e-12);
    assert!((bad - 2.302584092994546).abs() < 1e-12);
    assert!(good >= 0.0 && bad >= 0.0);
}

#[test]
fn cross_entropy_error_is_averaged_over_the_first_axis() {
    let mut y = Vec::new();
    y.extend_from_slice(&GOOD);
    y.extend_from_slice(&BAD);
    let mut t = Vec::new();
    t.extend_from_slice(&TARGET);
    t.extend_from_slice(&TARGET);
    let both = read(cross_entropy_error(&matrix(2, 10, &y), &matrix(2, 10, &t)));
    assert!((both - (0.510825457099338 + 2.302584092994546) / 2.0).abs() < 1e-12);
    let flat = read(cross_entropy_error(&vector(&GOOD), &vector(&TARGET)));
    assert!((flat - 0.510825457099338 / 10.0).abs() < 1e-12);
}

#[test]
fn cross_entropy_error_of_a_sure_and_right_guess_is_just_below_zero() {
    let t = matrix(1, 3, &["0", "1", "0"]);
    let loss = read(cross_entropy_error(&t, &t));
    assert!((loss + 1e-7).abs() < 1e-12);
}

#[test]
fn cross_entropy_error_of_a_sure_and_wrong_guess_is_finite() {
    let y = matrix(1, 3, &["1", "0", "0"]);
    let t = matrix(1, 3, &["0", "1", "0"]);
    let loss = read(cross_entropy_error(&y, &t));
    assert!((loss - 16.11809565095832).abs() < 1e-9);
}
