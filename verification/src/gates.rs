//! Logic gates as single perceptrons.
//!
//! A gate weighs its two inputs, adds a bias and fires where the result is
//! above zero.
use crate::bigfloat_array::BigFloatArray;
use crate::linalg::array_sum;
use crate::scalar::{
    decimal_le, decimal_negation, decimal_of_int, decimal_product, decimal_ratio, decimal_sum,
    Decimal, Scalar,
};
use vstd::prelude::*;

verus! {

/// What a perceptron with the given weight on both inputs and the given
/// bias answers: zero where `sum(x * w) + b` is at or below zero, one
/// elsewhere.
pub open spec fn perceptron(weight: Decimal, bias: Decimal, x1: Decimal, x2: Decimal) -> Decimal {
    let activation = decimal_sum(
        array_sum(seq![decimal_product(x1, weight), decimal_product(x2, weight)]),
        bias,
    );
    if decimal_le(activation, decimal_of_int(0)) {
        decimal_of_int(0)
    } else {
        decimal_of_int(1)
    }
}

/// What the AND gate answers.
pub open spec fn and_gate(x1: Decimal, x2: Decimal) -> Decimal {
    perceptron(decimal_ratio(1, 2), decimal_negation(decimal_ratio(7, 10)), x1, x2)
}

/// What the NAND gate answers.
pub open spec fn nand_gate(x1: Decimal, x2: Decimal) -> Decimal {
    perceptron(decimal_negation(decimal_ratio(1, 2)), decimal_ratio(7, 10), x1, x2)
}

/// What the OR gate answers.
pub open spec fn or_gate(x1: Decimal, x2: Decimal) -> Decimal {
    perceptron(decimal_ratio(1, 2), decimal_negation(decimal_ratio(2, 10)), x1, x2)
}

/// What the XOR gate answers: AND over NAND and OR.
pub open spec fn xor_gate(x1: Decimal, x2: Decimal) -> Decimal {
    and_gate(nand_gate(x1, x2), or_gate(x1, x2))
}

/// A perceptron over two inputs with one weight for both.
fn fire(weight: Scalar, bias: Scalar, x1: Scalar, x2: Scalar) -> (r: Scalar)
    ensures
        r@ == perceptron(weight@, bias@, x1@, x2@),
{
    let mut inputs: Vec<Scalar> = Vec::new();
    inputs.push(x1);
    inputs.push(x2);
    let mut weights: Vec<Scalar> = Vec::new();
    weights.push(weight);
    weights.push(weight);
    let x = BigFloatArray::vector(inputs);
    let w = BigFloatArray::vector(weights);
    let weighted = x.mul(&w);
    proof {
        assert(weighted@ =~= seq![
            decimal_product(x1@, weight@),
            decimal_product(x2@, weight@),
        ]);
    }
    let y = weighted.sum().plus(bias);
    if y.le(Scalar::from_int(0)) {
        Scalar::from_int(0)
    } else {
        Scalar::from_int(1)
    }
}

/// The AND gate: weights one half, bias minus seven tenths.
#[allow(non_snake_case)]
pub fn And(x1: Scalar, x2: Scalar) -> (r: Scalar)
    ensures
        r@ == and_gate(x1@, x2@),
{
    fire(Scalar::ratio(1, 2), Scalar::ratio(7, 10).negated(), x1, x2)
}

/// The NAND gate: the AND gate's weights and bias under the other sign.
#[allow(non_snake_case)]
pub fn Nand(x1: Scalar, x2: Scalar) -> (r: Scalar)
    ensures
        r@ == nand_gate(x1@, x2@),
{
    fire(Scalar::ratio(1, 2).negated(), Scalar::ratio(7, 10), x1, x2)
}

/// The OR gate: weights one half, bias minus two tenths.
#[allow(non_snake_case)]
pub fn Or(x1: Scalar, x2: Scalar) -> (r: Scalar)
    ensures
        r@ == or_gate(x1@, x2@),
{
    fire(Scalar::ratio(1, 2), Scalar::ratio(2, 10).negated(), x1, x2)
}

/// The XOR gate, which no single perceptron computes: AND over NAND and OR.
#[allow(non_snake_case)]
pub fn Xor(x1: Scalar, x2: Scalar) -> (r: Scalar)
    ensures
        r@ == xor_gate(x1@, x2@),
{
    let s1 = Nand(x1, x2);
    let s2 = Or(x1, x2);
    And(s1, s2)
}

} // verus!
