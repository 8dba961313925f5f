use gradnet::gates::{And, Nand, Or, Xor};
use gradnet::scalar::Scalar;

fn bit(value: i64) -> Scalar {
    Scalar::from_int(value)
}

fn read(x: Scalar) -> f64 {
    x.format().parse::<f64>().unwrap()
}

#[test]
fn and_gate_truth_table() {
    assert_eq!(read(And(bit(0), bit(0))), 0.0);
    assert_eq!(read(And(bit(1), bit(0))), 0.0);
    assert_eq!(read(And(bit(0), bit(1))), 0.0);
    assert_eq!(read(And(bit(1), bit(1))), 1.0);
}

#[test]
fn nand_gate_truth_table() {
    assert_eq!(read(Nand(bit(0), bit(0))), 1.0);
    assert_eq!(read(Nand(bit(1), bit(0))), 1.0);
    assert_eq!(read(Nand(bit(0), bit(1))), 1.0);
    assert_eq!(read(Nand(bit(1), bit(1))), 0.0);
}

#[test]
fn or_gate_truth_table() {
    assert_eq!(read(Or(bit(0), bit(0))), 0.0);
    assert_eq!(read(Or(bit(1), bit(0))), 1.0);
    assert_eq!(read(Or(bit(0), bit(1))), 1.0);
    assert_eq!(read(Or(bit(1), bit(1))), 1.0);
}

#[test]
fn xor_gate_truth_table() {
    assert_eq!(read(Xor(bit(0), bit(0))), 0.0);
    assert_eq!(read(Xor(bit(1), bit(0))), 1.0);
    assert_eq!(read(Xor(bit(0), bit(1))), 1.0);
    assert_eq!(read(Xor(bit(1), bit(1))), 0.0);
}

#[test]
fn a_gate_fires_on_an_activation_that_is_no_number() {
    let nan = Scalar::from_int(0).over(Scalar::from_int(0));
    assert_eq!(read(And(nan, bit(1))), 1.0);
    assert_eq!(read(And(bit(1), nan)), 1.0);
}
