use gradnet::draw::DrawContent;
use gradnet::gradient::function_1;
use gradnet::scalar::Scalar;

fn read(x: Scalar) -> f64 {
    x.format().parse::<f64>().unwrap()
}

fn content() -> DrawContent<fn(Scalar) -> Scalar> {
    DrawContent { function: function_1, caption: String::from("function_1") }
}

#[test]
fn the_curve_runs_from_minus_one_to_just_below_twenty() {
    let points = content().curve();
    assert_eq!(points.len(), 2100);
    assert_eq!(read(points[0].0), -1.0);
    assert_eq!(read(points[100].0), 0.0);
    assert_eq!(read(points[2099].0), 19.99);
    assert!((read(points[0].1) + 0.09).abs() < 1e-12);
    assert_eq!(read(points[100].1), 0.0);
    assert!((read(points[600].1) - 0.75).abs() < 1e-12);
    for k in 1..2100 {
        assert!((read(points[k].0) - read(points[k - 1].0) - 0.01).abs() < 1e-12);
    }
}

#[test]
fn the_tangent_touches_the_curve_at_five() {
    let tangent = content().tangent();
    assert_eq!(tangent.len(), 2100);
    assert_eq!(read(tangent[600].0), 5.0);
    assert!((read(tangent[600].1) - 0.75).abs() < 1e-12);
    assert!((read(tangent[700].1) - 0.95).abs() < 1e-9);
    assert!((read(tangent[0].1) + 0.45).abs() < 1e-9);
    assert_eq!(content().caption, "function_1");
}
