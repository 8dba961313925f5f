use gradnet::bigfloat_array::BigFloatArray;
use gradnet::gradient::{
    function_1, function_2, gradient_descent, numerical_diff, numerical_gradient,
    numerical_gradient_in_place,
};
use gradnet::scalar::Scalar;

fn s(text: &str) -> Scalar {
    Scalar::parse(text).unwrap()
}

fn read(x: Scalar) -> f64 {
    x.format().parse::<f64>().unwrap()
}

fn vector(values: &[&str]) -> BigFloatArray {
    BigFloatArray::vector(values.iter().map(|v| s(v)).collect())
}

fn values(a: &BigFloatArray) -> Vec<f64> {
    a.to_vec().into_iter().map(read).collect()
}

fn texts(a: &BigFloatArray) -> Vec<String> {
    a.to_vec().into_iter().map(|x| x.format()).collect()
}

fn sum_of_squares(x: &BigFloatArray) -> Scalar {
    x.mul(x).sum()
}

#[test]
fn function_1_and_function_2_at_known_points() {
    assert!((read(function_1(s("5"))) - 0.75).abs() < 1e-12);
    assert!((read(function_1(s("10"))) - 2.0).abs() < 1e-12);
    assert_eq!(read(function_2(&vector(&["3", "4"]))), 25.0);
    assert_eq!(read(function_2(&vector(&["3", "4", "100"]))), 25.0);
}

#[test]
fn derivative_of_the_square_at_three_is_six() {
    let slope = read(numerical_diff(|x: Scalar| x.times(x), s("3")));
    assert!(((slope - 6.0) / 6.0).abs() < 1e-4);
}

#[test]
fn derivative_of_function_1() {
    assert!((read(numerical_diff(function_1, s("5"))) - 0.2).abs() < 1e-9);
    assert!((read(numerical_diff(function_1, s("10"))) - 0.3).abs() < 1e-9);
}

#[test]
fn derivative_of_the_cube_carries_the_error_of_the_central_difference() {
    let slope = read(numerical_diff(|x: Scalar| x.times(x).times(x), s("2")));
    assert!((slope - 12.00000001).abs() < 1e-12);
}

#[test]
fn gradient_of_function_2() {
    let g = values(&numerical_gradient(function_2, &vector(&["3", "4"])));
    assert!((g[0] - 6.0).abs() < 1e-9 && (g[1] - 8.0).abs() < 1e-9);
    let g = values(&numerical_gradient(function_2, &vector(&["0", "2"])));
    assert!((g[0] - 0.0).abs() < 1e-9 && (g[1] - 4.0).abs() < 1e-9);
    let g = values(&numerical_gradient(function_2, &vector(&["3", "0"])));
    assert!((g[0] - 6.0).abs() < 1e-9 && (g[1] - 0.0).abs() < 1e-9);
}

#[test]
fn gradient_has_the_shape_of_its_argument() {
    let x = BigFloatArray::matrix(2, 3, ["1", "2", "3", "4", "5", "6"].iter().map(|v| s(v)).collect())
        .unwrap();
    let g = numerical_gradient(sum_of_squares, &x);
    assert_eq!(g.dims(), &vec![2, 3]);
    let expected = [2.0, 4.0, 6.0, 8.0, 10.0, 12.0];
    for (got, want) in values(&g).iter().zip(expected.iter()) {
        assert!((got - want).abs() < 1e-9);
    }
    let stack = BigFloatArray::zeros(vec![2, 1, 2]).unwrap();
    assert_eq!(numerical_gradient(sum_of_squares, &stack).dims(), &vec![2, 1, 2]);
    let nothing = BigFloatArray::zeros(vec![0]).unwrap();
    assert_eq!(numerical_gradient(sum_of_squares, &nothing).len(), 0);
}

#[test]
fn gradient_leaves_its_argument_as_it_was() {
    let mut x = vector(&["0.1", "-7.25", "3e-20", "12345678.9"]);
    let before = texts(&x);
    let g = numerical_gradient_in_place(sum_of_squares, &mut x);
    assert_eq!(texts(&x), before);
    assert_eq!(x.dims(), &vec![4]);
    assert_eq!(g.dims(), &vec![4]);
    let y = vector(&["0.1", "-7.25", "3e-20", "12345678.9"]);
    let again = numerical_gradient(sum_of_squares, &y);
    assert_eq!(texts(&y), before);
    assert_eq!(texts(&again), texts(&g));
}

#[test]
fn each_slope_is_taken_with_the_other_elements_held() {
    let product = |x: &BigFloatArray| x.get(0).times(x.get(1));
    let g = values(&numerical_gradient(product, &vector(&["3", "5"])));
    assert!((g[0] - 5.0).abs() < 1e-9);
    assert!((g[1] - 3.0).abs() < 1e-9);
}

#[test]
fn descent_on_function_2_reaches_the_minimum() {
    let (x, history) = gradient_descent(function_2, &vector(&["-3", "4"]), Some(s("0.1")), Some(100));
    let end = values(&x);
    assert!((end[0] + 6.11110793e-10).abs() < 1e-15);
    assert!((end[1] - 8.14814391e-10).abs() < 1e-15);
    assert_eq!(history.len(), 100);
    assert_eq!(values(&history[0]), vec![-3.0, 4.0]);
    let second = values(&history[1]);
    assert!((second[0] + 2.4).abs() < 1e-9 && (second[1] - 3.2).abs() < 1e-9);
}

#[test]
fn descent_defaults_to_a_hundred_steps_of_one_hundredth() {
    let (x, history) = gradient_descent(function_2, &vector(&["-3", "4"]), None, None);
    assert_eq!(history.len(), 100);
    let end = values(&x);
    let factor = 0.98f64.powi(100);
    assert!((end[0] + 3.0 * factor).abs() < 1e-9);
    assert!((end[1] - 4.0 * factor).abs() < 1e-9);
}

#[test]
fn descent_without_steps_hands_the_start_back() {
    let (x, history) = gradient_descent(function_2, &vector(&["-3", "4"]), Some(s("0.1")), Some(0));
    assert!(history.is_empty());
    assert_eq!(values(&x), vec![-3.0, 4.0]);
}
