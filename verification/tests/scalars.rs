use gradnet::scalar::Scalar;

fn number(x: Scalar) -> f64 {
    x.format().parse::<f64>().unwrap()
}

#[test]
fn ratio_of_one_and_two_is_one_half() {
    assert_eq!(number(Scalar::ratio(1, 2)), 0.5);
}

#[test]
fn from_int_keeps_sign_and_magnitude() {
    assert_eq!(number(Scalar::from_int(-42)), -42.0);
    assert_eq!(number(Scalar::from_int(0)), 0.0);
    assert_eq!(number(Scalar::from_int(i64::MIN)), -9223372036854775808.0);
    assert_eq!(number(Scalar::from_count(784)), 784.0);
}

#[test]
fn arithmetic_gives_the_decimal_results() {
    let a = Scalar::from_int(2);
    let b = Scalar::from_int(3);
    assert_eq!(number(a.plus(b)), 5.0);
    assert_eq!(number(a.minus(b)), -1.0);
    assert_eq!(number(a.times(b)), 6.0);
    assert_eq!(number(b.over(a)), 1.5);
    assert_eq!(number(a.negated()), -2.0);
}

#[test]
fn one_tenth_is_exact_in_decimals() {
    let tenth = Scalar::ratio(1, 10);
    let sum = tenth.plus(tenth).plus(tenth);
    assert!(sum.minus(Scalar::ratio(3, 10)).le(Scalar::from_int(0)));
    assert!(!sum.gt(Scalar::ratio(3, 10)));
}

#[test]
fn exp_and_ln_are_inverse_near_one() {
    let one = Scalar::from_int(1);
    let e = one.exp();
    assert!((number(e) - std::f64::consts::E).abs() < 1e-12);
    assert!((number(e.ln()) - 1.0).abs() < 1e-12);
    assert_eq!(number(Scalar::from_int(0).exp()), 1.0);
}

#[test]
fn order_is_strict_and_fails_on_not_a_number() {
    let a = Scalar::from_int(2);
    let b = Scalar::from_int(3);
    assert!(b.gt(a));
    assert!(!a.gt(b));
    assert!(!a.gt(a));
    assert!(a.le(a));
    assert!(a.le(b));
    assert!(!b.le(a));
    let nan = Scalar::from_int(0).over(Scalar::from_int(0));
    assert!(nan.is_nan());
    assert!(!nan.is_finite());
    assert!(!nan.gt(a));
    assert!(!nan.le(a));
    assert!(!a.le(nan));
    assert!(!nan.same_as(nan));
    assert!(a.same_as(Scalar::from_int(4).over(a)));
}

#[test]
fn infinities_keep_their_sign_and_their_place_in_the_order() {
    let one = Scalar::from_int(1);
    let zero = Scalar::from_int(0);
    let up = one.over(zero);
    let down = one.negated().over(zero);
    assert!(!up.is_finite() && !up.is_nan());
    assert!(!down.is_finite() && !down.is_nan());
    assert_eq!(up.format(), "Inf");
    assert_eq!(down.format(), "-Inf");
    assert_eq!(up.negated().format(), "-Inf");
    assert_eq!(down.negated().format(), "Inf");
    assert!(up.gt(Scalar::from_int(i64::MAX)));
    assert!(down.le(Scalar::from_int(i64::MIN)));
    assert!(up.gt(down));
    assert_eq!(number(one.over(up)), 0.0);
    assert_eq!(up.plus(one).format(), "Inf");
    assert!(up.plus(down).is_nan());
    assert!(up.times(zero).is_nan());
    assert_eq!(up.times(down).format(), "-Inf");
}

#[test]
fn parse_reads_numbers_and_rejects_other_text() {
    assert_eq!(number(Scalar::parse("0.6").unwrap()), 0.6);
    assert_eq!(number(Scalar::parse("-1.5e-3").unwrap()), -0.0015);
    assert_eq!(number(Scalar::parse("12E2").unwrap()), 1200.0);
    assert!(Scalar::parse("six").is_none());
    assert!(Scalar::parse("").is_none());
    assert_eq!(Scalar::parse("inf").unwrap().format(), "Inf");
    assert_eq!(Scalar::parse("-Inf").unwrap().format(), "-Inf");
    assert!(Scalar::parse("NaN").unwrap().is_nan());
}

#[test]
fn parse_rejects_texts_that_are_too_long() {
    assert!(Scalar::parse("1e-2147483630").is_none());
    assert!(Scalar::parse("1e2147483630").is_none());
    assert!(Scalar::parse("1e1234567890").is_none());
    assert_eq!(Scalar::parse("1e123456789").unwrap().format(), "Inf");
    assert!(Scalar::parse("1e-123456789").is_none());
    assert_eq!(number(Scalar::parse("1e-12345678").unwrap()), 0.0);
    assert_eq!(number(Scalar::parse("1e-00000005").unwrap()), 0.00001);
    let digits = "1".repeat(64);
    assert!(Scalar::parse(&digits).is_some());
    let more = "1".repeat(65);
    assert!(Scalar::parse(&more).is_none());
    let zeros = format!("0.{}1", "0".repeat(61));
    assert_eq!(number(Scalar::parse(&zeros).unwrap()), 1e-62);
    assert!(gradnet::scalar::is_readable("1.5e-3"));
    assert!(!gradnet::scalar::is_readable("1e-2147483630"));
    assert!(gradnet::scalar::is_readable("e123456789"));
    assert!(!gradnet::scalar::is_readable("e1234567890"));
}

#[test]
fn overflow_gives_an_infinity() {
    let big = Scalar::from_int(1000).exp();
    assert!(!big.is_finite());
    assert_eq!(big.format(), "Inf");
    assert_eq!(big.plus(Scalar::from_int(1)).format(), "Inf");
    assert_eq!(big.negated().format(), "-Inf");
    assert!(Scalar::from_int(1).is_finite());
    assert_eq!(number(Scalar::from_int(-1000).exp()), 0.0);
}
