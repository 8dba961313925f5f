use gradnet::bigfloat_array::{checked_volume, BigFloatArray};
use gradnet::linalg::{argmax_of, count_agreements, count_label_hits, sum_of};
use gradnet::scalar::Scalar;

fn s(text: &str) -> Scalar {
    Scalar::parse(text).unwrap()
}

fn read(x: Scalar) -> f64 {
    x.format().parse::<f64>().unwrap()
}

fn scalars(values: &[&str]) -> Vec<Scalar> {
    values.iter().map(|v| s(v)).collect()
}

fn vector(values: &[&str]) -> BigFloatArray {
    BigFloatArray::vector(scalars(values))
}

fn matrix(rows: usize, cols: usize, values: &[&str]) -> BigFloatArray {
    BigFloatArray::matrix(rows, cols, scalars(values)).unwrap()
}

fn values(a: &BigFloatArray) -> Vec<f64> {
    a.to_vec().into_iter().map(read).collect()
}

#[test]
fn volume_is_the_product_of_the_extents() {
    assert_eq!(checked_volume(&vec![]), Some(1));
    assert_eq!(checked_volume(&vec![7]), Some(7));
    assert_eq!(checked_volume(&vec![3, 28, 28]), Some(2352));
    assert_eq!(checked_volume(&vec![5, 0, 9]), Some(0));
    assert_eq!(checked_volume(&vec![usize::MAX, 2]), None);
    assert_eq!(checked_volume(&vec![usize::MAX, 2, 0]), Some(0));
}

#[test]
fn an_array_is_refused_where_shape_and_elements_disagree() {
    assert!(BigFloatArray::from_vec(vec![2, 3], scalars(&["1", "2", "3", "4", "5"])).is_none());
    assert!(BigFloatArray::matrix(2, 2, scalars(&["1", "2", "3"])).is_none());
    assert!(BigFloatArray::from_vec(vec![usize::MAX, 2], Vec::new()).is_none());
    let a = BigFloatArray::from_vec(vec![2, 3], scalars(&["1", "2", "3", "4", "5", "6"])).unwrap();
    assert_eq!(a.dims(), &vec![2, 3]);
    assert_eq!(a.shape_vec(), vec![2, 3]);
    assert_eq!(a.ndim(), 2);
    assert_eq!(a.len(), 6);
    assert_eq!(values(&a), vec![1.0, 2.0, 3.0, 4.0, 5.0, 6.0]);
}

#[test]
fn zeros_and_filled_hold_one_value_everywhere() {
    let z = BigFloatArray::zeros(vec![2, 2]).unwrap();
    assert_eq!(values(&z), vec![0.0; 4]);
    let f = BigFloatArray::filled(vec![3], s("2.5")).unwrap();
    assert_eq!(values(&f), vec![2.5; 3]);
    assert!(BigFloatArray::zeros(vec![usize::MAX, 2]).is_none());
    let empty = BigFloatArray::zeros(vec![0, 4]).unwrap();
    assert_eq!(empty.len(), 0);
    assert_eq!(empty.dims(), &vec![0, 4]);
}

#[test]
fn set_replaces_one_element_and_keeps_the_rest() {
    let mut a = vector(&["1", "2", "3"]);
    a.set(1, s("9"));
    assert_eq!(values(&a), vec![1.0, 9.0, 3.0]);
    assert_eq!(read(a.get(1)), 9.0);
    assert_eq!(a.dims(), &vec![3]);
}

#[test]
fn a_copy_is_equal_and_independent() {
    let a = matrix(2, 2, &["1", "2", "3", "4"]);
    let mut b = a.duplicate();
    assert!(a.same_shape(&b));
    b.set(0, s("7"));
    assert_eq!(values(&a), vec![1.0, 2.0, 3.0, 4.0]);
    assert_eq!(values(&b), vec![7.0, 2.0, 3.0, 4.0]);
    assert!(!a.same_shape(&vector(&["1", "2", "3", "4"])));
    assert!(!a.same_shape(&matrix(1, 4, &["1", "2", "3", "4"])));
}

#[test]
fn arithmetic_between_arrays_is_element_by_element() {
    let a = matrix(2, 2, &["1", "2", "3", "4"]);
    let b = matrix(2, 2, &["10", "20", "30", "40"]);
    assert_eq!(values(&a.add(&b)), vec![11.0, 22.0, 33.0, 44.0]);
    assert_eq!(values(&a.sub(&b)), vec![-9.0, -18.0, -27.0, -36.0]);
    assert_eq!(values(&a.mul(&b)), vec![10.0, 40.0, 90.0, 160.0]);
    assert_eq!(values(&b.div(&a)), vec![10.0, 10.0, 10.0, 10.0]);
    assert_eq!(values(&a.neg()), vec![-1.0, -2.0, -3.0, -4.0]);
    assert_eq!(a.add(&b).dims(), &vec![2, 2]);
}

#[test]
fn arithmetic_with_a_scalar_reaches_every_element() {
    let a = vector(&["1", "2", "4"]);
    let two = s("2");
    assert_eq!(values(&a.add_scalar(&two)), vec![3.0, 4.0, 6.0]);
    assert_eq!(values(&a.sub_scalar(&two)), vec![-1.0, 0.0, 2.0]);
    assert_eq!(values(&a.mul_scalar(&two)), vec![2.0, 4.0, 8.0]);
    assert_eq!(values(&a.div_scalar(&two)), vec![0.5, 1.0, 2.0]);
    assert_eq!(values(&BigFloatArray::scalar_div(&two, &a)), vec![2.0, 1.0, 0.5]);
    assert_eq!(values(&BigFloatArray::scalar_mul(&two, &a)), vec![2.0, 4.0, 8.0]);
}

#[test]
fn exp_and_ln_reach_every_element() {
    let a = vector(&["0", "1"]);
    let e = values(&a.exp());
    assert_eq!(e[0], 1.0);
    assert!((e[1] - std::f64::consts::E).abs() < 1e-12);
    let l = values(&vector(&["1", "10"]).ln());
    assert_eq!(l[0], 0.0);
    assert!((l[1] - std::f64::consts::LN_10).abs() < 1e-12);
}

#[test]
fn matrix_product_of_two_by_two() {
    let a = matrix(2, 2, &["1", "2", "3", "4"]);
    let b = matrix(2, 2, &["5", "6", "7", "8"]);
    let c = a.dot(&b);
    assert_eq!(c.dims(), &vec![2, 2]);
    assert_eq!(values(&c), vec![19.0, 22.0, 43.0, 50.0]);
}

#[test]
fn matrix_product_of_unequal_extents() {
    let a = matrix(1, 3, &["1", "2", "3"]);
    let b = matrix(3, 2, &["1", "2", "3", "4", "5", "6"]);
    let c = a.dot(&b);
    assert_eq!(c.dims(), &vec![1, 2]);
    assert_eq!(values(&c), vec![22.0, 28.0]);
    let d = b.dot(&matrix(2, 1, &["1", "1"]));
    assert_eq!(d.dims(), &vec![3, 1]);
    assert_eq!(values(&d), vec![3.0, 7.0, 11.0]);
}

#[test]
fn matrix_product_over_empty_axes() {
    let no_rows = BigFloatArray::zeros(vec![0, 3]).unwrap();
    let b = matrix(3, 2, &["1", "2", "3", "4", "5", "6"]);
    let c = no_rows.dot(&b);
    assert_eq!(c.dims(), &vec![0, 2]);
    assert_eq!(c.len(), 0);
    let no_inner = BigFloatArray::zeros(vec![2, 0]).unwrap();
    let d = no_inner.dot(&BigFloatArray::zeros(vec![0, 3]).unwrap());
    assert_eq!(d.dims(), &vec![2, 3]);
    assert_eq!(values(&d), vec![0.0; 6]);
}

#[test]
fn sum_adds_all_elements() {
    assert_eq!(read(matrix(2, 2, &["1", "2", "3", "4"]).sum()), 10.0);
    assert_eq!(read(sum_of(&scalars(&["0.1", "0.2", "0.3"]))), 0.6);
    assert_eq!(read(sum_of(&Vec::new())), 0.0);
}

#[test]
fn rows_can_be_read_sliced_and_gathered() {
    let a = matrix(3, 2, &["1", "2", "3", "4", "5", "6"]);
    assert_eq!(a.nrows(), 3);
    assert_eq!(a.ncols(), 2);
    assert_eq!(values(&a.row(1)), vec![3.0, 4.0]);
    assert_eq!(a.row(1).dims(), &vec![2]);
    let tail = a.rows_slice(1, 2);
    assert_eq!(tail.dims(), &vec![2, 2]);
    assert_eq!(values(&tail), vec![3.0, 4.0, 5.0, 6.0]);
    let picked = a.select_rows(&vec![2, 0, 2]);
    assert_eq!(picked.dims(), &vec![3, 2]);
    assert_eq!(values(&picked), vec![5.0, 6.0, 1.0, 2.0, 5.0, 6.0]);
    assert_eq!(a.select_rows(&Vec::new()).dims(), &vec![0, 2]);
    assert_eq!(a.row_vec(2, 3).into_iter().map(read).collect::<Vec<f64>>(), vec![3.0, 4.0, 5.0]);
}

#[test]
fn a_vector_is_added_to_every_row() {
    let a = matrix(2, 3, &["1", "2", "3", "4", "5", "6"]);
    let b = vector(&["10", "20", "30"]);
    let c = a.add_row(&b);
    assert_eq!(c.dims(), &vec![2, 3]);
    assert_eq!(values(&c), vec![11.0, 22.0, 33.0, 14.0, 25.0, 36.0]);
}

#[test]
fn reshaping_keeps_the_elements() {
    let a = matrix(2, 3, &["1", "2", "3", "4", "5", "6"]);
    let b = a.reshaped(vec![3, 2]).unwrap();
    assert_eq!(b.dims(), &vec![3, 2]);
    assert_eq!(values(&b), values(&a));
    assert!(a.reshaped(vec![4, 2]).is_none());
}

#[test]
fn argmax_takes_the_lowest_position_on_a_tie() {
    assert_eq!(argmax_of(&scalars(&["1", "3", "2"])), 1);
    assert_eq!(argmax_of(&scalars(&["3", "1", "3"])), 0);
    assert_eq!(argmax_of(&scalars(&["2", "2", "2"])), 0);
    assert_eq!(argmax_of(&scalars(&["-5"])), 0);
    assert_eq!(argmax_of(&Vec::new()), 0);
    let a = matrix(3, 3, &["1", "2", "3", "9", "9", "1", "0", "5", "5"]);
    assert_eq!(a.argmax_rows(), vec![2, 0, 1]);
}

#[test]
fn agreements_are_counted_position_by_position() {
    assert_eq!(count_agreements(&vec![1, 2, 3], &vec![1, 0, 3]), 2);
    assert_eq!(count_agreements(&vec![1, 2, 3], &vec![1, 2, 3]), 3);
    assert_eq!(count_agreements(&vec![1, 2, 3], &vec![3, 1, 2]), 0);
    assert_eq!(count_agreements(&Vec::new(), &Vec::new()), 0);
    let labels = matrix(3, 1, &["1", "0", "3"]);
    assert_eq!(count_label_hits(&vec![1, 2, 3], &labels), 2);
}
