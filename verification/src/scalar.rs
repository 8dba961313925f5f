//! Decimal scalars.
//!
//! A [`Scalar`] stands for a `num_bigfloat::BigFloat` and holds what one is
//! made of as plain values: for a finite number its raw parts (forty decimal
//! digits of mantissa, a sign and a decimal exponent), and a tag for each of
//! the three values that are no finite number: the two infinities and
//! not-a-number.
//!
//! The arithmetic is not done here. Each operation is a call into
//! `num-bigfloat`, and its result is known to the proofs only by a name such
//! as [`decimal_sum`]: the same operands give the same result, and nothing
//! else is assumed of it.
use num_bigfloat::{BigFloat, INF_NEG, INF_POS, NAN};
use vstd::prelude::*;
use vstd::string::*;

verus! {

/// What a [`Scalar`] stands for.
pub enum Decimal {
    /// Not a number.
    NotANumber,
    /// Above every finite number.
    PositiveInfinity,
    /// Below every finite number.
    NegativeInfinity,
    /// `sign * mantissa * 10^exponent`, the mantissa given as ten base-10000
    /// digits, least significant first, of which `length` decimal places
    /// are in use.
    Finite { mantissa: Seq<int>, length: int, sign: int, exponent: int },
}

/// What a [`Scalar`] holds: the raw parts of a finite number (mantissa,
/// length, sign, exponent), or which of the other three values it is.
#[derive(Clone, Copy, Debug)]
pub(crate) enum Value {
    Finite(([i16; 10], i16, i8, i8)),
    NotANumber,
    PositiveInfinity,
    NegativeInfinity,
}

/// A decimal number of forty significant digits, an infinity, or
/// not-a-number.
#[derive(Clone, Copy, Debug)]
pub struct Scalar {
    pub(crate) value: Value,
}

impl View for Scalar {
    type V = Decimal;

    closed spec fn view(&self) -> Decimal {
        match self.value {
            Value::Finite(parts) => Decimal::Finite {
                mantissa: parts.0@.map_values(|digit: i16| digit as int),
                length: parts.1 as int,
                sign: parts.2 as int,
                exponent: parts.3 as int,
            },
            Value::NotANumber => Decimal::NotANumber,
            Value::PositiveInfinity => Decimal::PositiveInfinity,
            Value::NegativeInfinity => Decimal::NegativeInfinity,
        }
    }
}

/// The decimal that `BigFloat::from_u64` makes of a natural number.
pub uninterp spec fn decimal_of_natural(value: nat) -> Decimal;

/// The rounded sum that `BigFloat::add` gives.
pub uninterp spec fn decimal_sum(left: Decimal, right: Decimal) -> Decimal;

/// The rounded difference that `BigFloat::sub` gives.
pub uninterp spec fn decimal_difference(left: Decimal, right: Decimal) -> Decimal;

/// The rounded product that `BigFloat::mul` gives.
pub uninterp spec fn decimal_product(left: Decimal, right: Decimal) -> Decimal;

/// The rounded quotient that `BigFloat::div` gives.
pub uninterp spec fn decimal_quotient(left: Decimal, right: Decimal) -> Decimal;

/// The exponential that `BigFloat::exp` gives.
pub uninterp spec fn decimal_exp(value: Decimal) -> Decimal;

/// The natural logarithm that `BigFloat::ln` gives.
pub uninterp spec fn decimal_ln(value: Decimal) -> Decimal;

/// How `BigFloat::cmp` orders two values: positive where the left one is
/// greater, negative where it is less, zero where they are equal, and `None`
/// where they cannot be ordered.
pub uninterp spec fn decimal_order(left: Decimal, right: Decimal) -> Option<int>;

/// What `BigFloat::parse` reads from a [`readable`] text; `None` where it
/// rejects the text.
pub uninterp spec fn decimal_parse(text: Seq<char>) -> Option<Decimal>;

/// The text that `BigFloat`'s `Display` writes for a value.
pub uninterp spec fn decimal_text(value: Decimal) -> Seq<char>;

/// The sign-reversed value: the same digits and exponent under the other
/// sign, the other infinity for an infinity. Not-a-number stays as it is.
pub open spec fn decimal_negation(value: Decimal) -> Decimal {
    match value {
        Decimal::Finite { mantissa, length, sign, exponent } => Decimal::Finite {
            mantissa,
            length,
            sign: if sign == 1 { -1 } else { 1 },
            exponent,
        },
        Decimal::PositiveInfinity => Decimal::NegativeInfinity,
        Decimal::NegativeInfinity => Decimal::PositiveInfinity,
        Decimal::NotANumber => Decimal::NotANumber,
    }
}

/// Whether a character opens the exponent of a number in scientific
/// notation.
pub open spec fn is_exponent_marker(c: char) -> bool {
    c == 'e' || c == 'E'
}

/// Whether a text is short enough to be read as a number: at most
/// sixty-four characters, of which at most nine follow an exponent marker.
pub open spec fn readable(text: Seq<char>) -> bool {
    text.len() <= 64 && forall|i: int|
        0 <= i < text.len() - 10 ==> !is_exponent_marker(#[trigger] text[i])
}

/// The decimal of an integer: that of its magnitude, sign-reversed where the
/// integer is negative.
pub open spec fn decimal_of_int(value: int) -> Decimal {
    if value < 0 {
        decimal_negation(decimal_of_natural((-value) as nat))
    } else {
        decimal_of_natural(value as nat)
    }
}

/// The decimals of a sequence of scalars.
pub open spec fn decimals(scalars: Seq<Scalar>) -> Seq<Decimal> {
    scalars.map_values(|s: Scalar| s@)
}

/// An order as the machine holds it, read as an integer.
pub open spec fn order_value(order: Option<i16>) -> Option<int> {
    match order {
        Some(value) => Some(value as int),
        None => None,
    }
}

/// Whether the left value is ordered strictly above the right one.
pub open spec fn decimal_gt(left: Decimal, right: Decimal) -> bool {
    match decimal_order(left, right) {
        Some(order) => order > 0,
        None => false,
    }
}

/// Whether the left value is ordered at or below the right one.
pub open spec fn decimal_le(left: Decimal, right: Decimal) -> bool {
    match decimal_order(left, right) {
        Some(order) => order <= 0,
        None => false,
    }
}

/// Whether the two values are ordered as equal.
pub open spec fn decimal_same(left: Decimal, right: Decimal) -> bool {
    decimal_order(left, right) == Some(0int)
}

/// The quotient of two integers, each first made a decimal.
pub open spec fn decimal_ratio(numerator: int, denominator: int) -> Decimal {
    decimal_quotient(decimal_of_int(numerator), decimal_of_int(denominator))
}

/// Calls `BigFloat::from_u64`. The result is named [`decimal_of_natural`].
#[verifier::external_body]
fn bigfloat_from_u64(value: u64) -> (r: Scalar)
    ensures
        r@ == decimal_of_natural(value as nat),
{
    let z = BigFloat::from_u64(value);
    Scalar { value: match z.to_raw_parts() {
        Some(p) => Value::Finite(p),
        None if z.is_nan() => Value::NotANumber,
        None if z.is_inf_pos() => Value::PositiveInfinity,
        None => Value::NegativeInfinity,
    } }
}

/// Calls `BigFloat::add`. The result is named [`decimal_sum`].
#[verifier::external_body]
fn bigfloat_add(left: &Scalar, right: &Scalar) -> (r: Scalar)
    ensures
        r@ == decimal_sum(left@, right@),
{
    let big = |v: Value| match v {
        Value::Finite(p) => BigFloat::from_raw_parts(p.0, p.1, p.2, p.3),
        Value::NotANumber => NAN,
        Value::PositiveInfinity => INF_POS,
        Value::NegativeInfinity => INF_NEG,
    };
    let z = big(left.value).add(&big(right.value));
    Scalar { value: match z.to_raw_parts() {
        Some(p) => Value::Finite(p),
        None if z.is_nan() => Value::NotANumber,
        None if z.is_inf_pos() => Value::PositiveInfinity,
        None => Value::NegativeInfinity,
    } }
}

/// Calls `BigFloat::sub`. The result is named [`decimal_difference`].
#[verifier::external_body]
fn bigfloat_sub(left: &Scalar, right: &Scalar) -> (r: Scalar)
    ensures
        r@ == decimal_difference(left@, right@),
{
    let big = |v: Value| match v {
        Value::Finite(p) => BigFloat::from_raw_parts(p.0, p.1, p.2, p.3),
        Value::NotANumber => NAN,
        Value::PositiveInfinity => INF_POS,
        Value::NegativeInfinity => INF_NEG,
    };
    let z = big(left.value).sub(&big(right.value));
    Scalar { value: match z.to_raw_parts() {
        Some(p) => Value::Finite(p),
        None if z.is_nan() => Value::NotANumber,
        None if z.is_inf_pos() => Value::PositiveInfinity,
        None => Value::NegativeInfinity,
    } }
}

/// Calls `BigFloat::mul`. The result is named [`decimal_product`].
#[verifier::external_body]
fn bigfloat_mul(left: &Scalar, right: &Scalar) -> (r: Scalar)
    ensures
        r@ == decimal_product(left@, right@),
{
    let big = |v: Value| match v {
        Value::Finite(p) => BigFloat::from_raw_parts(p.0, p.1, p.2, p.3),
        Value::NotANumber => NAN,
        Value::PositiveInfinity => INF_POS,
        Value::NegativeInfinity => INF_NEG,
    };
    let z = big(left.value).mul(&big(right.value));
    Scalar { value: match z.to_raw_parts() {
        Some(p) => Value::Finite(p),
        None if z.is_nan() => Value::NotANumber,
        None if z.is_inf_pos() => Value::PositiveInfinity,
        None => Value::NegativeInfinity,
    } }
}

/// Calls `BigFloat::div`. The result is named [`decimal_quotient`].
#[verifier::external_body]
fn bigfloat_div(left: &Scalar, right: &Scalar) -> (r: Scalar)
    ensures
        r@ == decimal_quotient(left@, right@),
{
    let big = |v: Value| match v {
        Value::Finite(p) => BigFloat::from_raw_parts(p.0, p.1, p.2, p.3),
        Value::NotANumber => NAN,
        Value::PositiveInfinity => INF_POS,
        Value::NegativeInfinity => INF_NEG,
    };
    let z = big(left.value).div(&big(right.value));
    Scalar { value: match z.to_raw_parts() {
        Some(p) => Value::Finite(p),
        None if z.is_nan() => Value::NotANumber,
        None if z.is_inf_pos() => Value::PositiveInfinity,
        None => Value::NegativeInfinity,
    } }
}

/// Calls `BigFloat::inv_sign`, which hands back a finite operand under the
/// other sign, an infinity as the other infinity, and not-a-number as it
/// is.
#[verifier::external_body]
fn bigfloat_inv_sign(value: &Scalar) -> (r: Scalar)
    ensures
        r@ == decimal_negation(value@),
{
    let big = |v: Value| match v {
        Value::Finite(p) => BigFloat::from_raw_parts(p.0, p.1, p.2, p.3),
        Value::NotANumber => NAN,
        Value::PositiveInfinity => INF_POS,
        Value::NegativeInfinity => INF_NEG,
    };
    let z = big(value.value).inv_sign();
    Scalar { value: match z.to_raw_parts() {
        Some(p) => Value::Finite(p),
        None if z.is_nan() => Value::NotANumber,
        None if z.is_inf_pos() => Value::PositiveInfinity,
        None => Value::NegativeInfinity,
    } }
}

/// Calls `BigFloat::exp`. The result is named [`decimal_exp`].
#[verifier::external_body]
fn bigfloat_exp(value: &Scalar) -> (r: Scalar)
    ensures
        r@ == decimal_exp(value@),
{
    let big = |v: Value| match v {
        Value::Finite(p) => BigFloat::from_raw_parts(p.0, p.1, p.2, p.3),
        Value::NotANumber => NAN,
        Value::PositiveInfinity => INF_POS,
        Value::NegativeInfinity => INF_NEG,
    };
    let z = big(value.value).exp();
    Scalar { value: match z.to_raw_parts() {
        Some(p) => Value::Finite(p),
        None if z.is_nan() => Value::NotANumber,
        None if z.is_inf_pos() => Value::PositiveInfinity,
        None => Value::NegativeInfinity,
    } }
}

/// Calls `BigFloat::ln`. The result is named [`decimal_ln`].
#[verifier::external_body]
fn bigfloat_ln(value: &Scalar) -> (r: Scalar)
    ensures
        r@ == decimal_ln(value@),
{
    let big = |v: Value| match v {
        Value::Finite(p) => BigFloat::from_raw_parts(p.0, p.1, p.2, p.3),
        Value::NotANumber => NAN,
        Value::PositiveInfinity => INF_POS,
        Value::NegativeInfinity => INF_NEG,
    };
    let z = big(value.value).ln();
    Scalar { value: match z.to_raw_parts() {
        Some(p) => Value::Finite(p),
        None if z.is_nan() => Value::NotANumber,
        None if z.is_inf_pos() => Value::PositiveInfinity,
        None => Value::NegativeInfinity,
    } }
}

/// Calls `BigFloat::cmp`. The result is named [`decimal_order`].
#[verifier::external_body]
fn bigfloat_order(left: &Scalar, right: &Scalar) -> (r: Option<i16>)
    ensures
        decimal_order(left@, right@) == order_value(r),
{
    let big = |v: Value| match v {
        Value::Finite(p) => BigFloat::from_raw_parts(p.0, p.1, p.2, p.3),
        Value::NotANumber => NAN,
        Value::PositiveInfinity => INF_POS,
        Value::NegativeInfinity => INF_NEG,
    };
    big(left.value).cmp(&big(right.value))
}

/// Calls `BigFloat::parse`. The result is named [`decimal_parse`]. The text
/// is [`readable`]: the parser keeps the exponent in a machine word, which
/// a longer exponent or a longer run of digits could leave.
#[verifier::external_body]
fn bigfloat_parse(text: &str) -> (r: Option<Scalar>)
    requires
        readable(text@),
    ensures
        r.is_some() == decimal_parse(text@).is_some(),
        r.is_some() ==> decimal_parse(text@) == Some(r.unwrap()@),
{
    BigFloat::parse(text).map(|z| Scalar { value: match z.to_raw_parts() {
        Some(p) => Value::Finite(p),
        None if z.is_nan() => Value::NotANumber,
        None if z.is_inf_pos() => Value::PositiveInfinity,
        None => Value::NegativeInfinity,
    } })
}

/// Formats through `BigFloat`'s `Display`. The result is named
/// [`decimal_text`].
#[verifier::external_body]
fn bigfloat_format(value: &Scalar) -> (r: String)
    ensures
        r@ == decimal_text(value@),
{
    let big = |v: Value| match v {
        Value::Finite(p) => BigFloat::from_raw_parts(p.0, p.1, p.2, p.3),
        Value::NotANumber => NAN,
        Value::PositiveInfinity => INF_POS,
        Value::NegativeInfinity => INF_NEG,
    };
    format!("{}", big(value.value))
}

/// Whether a text is short enough to be read as a number.
pub fn is_readable(text: &str) -> (r: bool)
    ensures
        r == readable(text@),
{
    let count = text.unicode_len();
    if count > 64 {
        return false;
    }
    if count <= 10 {
        return true;
    }
    let mut i: usize = 0;
    while i < count - 10
        invariant
            10 < count <= 64,
            count == text@.len(),
            i <= count - 10,
            forall|k: int| 0 <= k < i ==> !is_exponent_marker(#[trigger] text@[k]),
        decreases count - 10 - i,
    {
        let c = text.get_char(i);
        if c == 'e' || c == 'E' {
            return false;
        }
        i += 1;
    }
    true
}

impl Scalar {
    /// Whether the value is a finite number.
    pub open spec fn spec_is_finite(&self) -> bool {
        self@ is Finite
    }

    /// Whether the value is a finite number.
    #[verifier::when_used_as_spec(spec_is_finite)]
    pub fn is_finite(&self) -> (r: bool)
        ensures
            r == (self@ is Finite),
    {
        match self.value {
            Value::Finite(_) => true,
            _ => false,
        }
    }

    /// Whether the value is not-a-number.
    pub open spec fn spec_is_nan(&self) -> bool {
        self@ is NotANumber
    }

    /// Whether the value is not-a-number.
    #[verifier::when_used_as_spec(spec_is_nan)]
    pub fn is_nan(&self) -> (r: bool)
        ensures
            r == (self@ is NotANumber),
    {
        match self.value {
            Value::NotANumber => true,
            _ => false,
        }
    }

    /// The decimal of an integer.
    pub fn from_int(value: i64) -> (r: Scalar)
        ensures
            r@ == decimal_of_int(value as int),
    {
        if value >= 0 {
            bigfloat_from_u64(value as u64)
        } else if value == i64::MIN {
            bigfloat_inv_sign(&bigfloat_from_u64(9223372036854775808u64))
        } else {
            bigfloat_inv_sign(&bigfloat_from_u64((-value) as u64))
        }
    }

    /// The decimal of a count.
    pub fn from_count(value: usize) -> (r: Scalar)
        ensures
            r@ == decimal_of_int(value as int),
    {
        bigfloat_from_u64(value as u64)
    }

    /// The quotient `numerator / denominator`, computed in decimals: the way
    /// to write a constant such as one ten-thousandth.
    pub fn ratio(numerator: i64, denominator: i64) -> (r: Scalar)
        ensures
            r@ == decimal_ratio(numerator as int, denominator as int),
    {
        bigfloat_div(&Scalar::from_int(numerator), &Scalar::from_int(denominator))
    }

    /// Reads a decimal from text such as `"0.6"`, `"-1.5e-3"` or `"inf"`.
    /// `None` where the text is no number, or is longer than sixty-four
    /// characters, or holds more than nine characters behind an exponent
    /// marker.
    pub fn parse(text: &str) -> (r: Option<Scalar>)
        ensures
            r.is_some() == (readable(text@) && decimal_parse(text@).is_some()),
            r.is_some() ==> decimal_parse(text@) == Some(r.unwrap()@),
    {
        if is_readable(text) {
            bigfloat_parse(text)
        } else {
            None
        }
    }

    /// The value as text.
    pub fn format(&self) -> (r: String)
        ensures
            r@ == decimal_text(self@),
    {
        bigfloat_format(self)
    }

    /// `self + other`.
    pub fn plus(self, other: Scalar) -> (r: Scalar)
        ensures
            r@ == decimal_sum(self@, other@),
    {
        bigfloat_add(&self, &other)
    }

    /// `self - other`.
    pub fn minus(self, other: Scalar) -> (r: Scalar)
        ensures
            r@ == decimal_difference(self@, other@),
    {
        bigfloat_sub(&self, &other)
    }

    /// `self * other`.
    pub fn times(self, other: Scalar) -> (r: Scalar)
        ensures
            r@ == decimal_product(self@, other@),
    {
        bigfloat_mul(&self, &other)
    }

    /// `self / other`.
    pub fn over(self, other: Scalar) -> (r: Scalar)
        ensures
            r@ == decimal_quotient(self@, other@),
    {
        bigfloat_div(&self, &other)
    }

    /// `-self`.
    pub fn negated(self) -> (r: Scalar)
        ensures
            r@ == decimal_negation(self@),
    {
        bigfloat_inv_sign(&self)
    }

    /// `e` to the power of `self`.
    pub fn exp(self) -> (r: Scalar)
        ensures
            r@ == decimal_exp(self@),
    {
        bigfloat_exp(&self)
    }

    /// The natural logarithm of `self`.
    pub fn ln(self) -> (r: Scalar)
        ensures
            r@ == decimal_ln(self@),
    {
        bigfloat_ln(&self)
    }

    /// Whether `self` and `other` are ordered as equal. False where the two
    /// cannot be ordered.
    pub fn same_as(self, other: Scalar) -> (r: bool)
        ensures
            r == decimal_same(self@, other@),
    {
        match bigfloat_order(&self, &other) {
            Some(order) => order == 0,
            None => false,
        }
    }

    /// Whether `self` is ordered at or below `other`. False where the two
    /// cannot be ordered.
    pub fn le(self, other: Scalar) -> (r: bool)
        ensures
            r == decimal_le(self@, other@),
    {
        match bigfloat_order(&self, &other) {
            Some(order) => order <= 0,
            None => false,
        }
    }

    /// Whether `self` is ordered strictly above `other`. False where the
    /// two cannot be ordered.
    pub fn gt(self, other: Scalar) -> (r: bool)
        ensures
            r == decimal_gt(self@, other@),
    {
        match bigfloat_order(&self, &other) {
            Some(order) => order > 0,
            None => false,
        }
    }
}

} // verus!
