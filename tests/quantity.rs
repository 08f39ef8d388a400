use std::cmp::Ordering;
use trading_core::quantity::{from_nanos, Quantity};

fn q(units: i64, fraction: i32) -> Quantity {
    Quantity { units, fraction }
}

fn as_float(x: &Quantity) -> f64 {
    x.units as f64 + x.fraction as f64 / 1_000_000_000.0
}

#[test]
fn to_f_test() {
    let q1 = q(114, 250000000);
    let f1 = 114.25;
    assert_eq!(as_float(&q1), f1);
    assert_eq!(Quantity::parse(&f1.to_string()), Some(q1));

    // -200.2 with a non-negative fraction on top of the units.
    let q2 = q(-201, 800000000);
    assert!((as_float(&q2) - (-200.20)).abs() < 1e-9);
    assert_eq!(Quantity::parse("-200.2"), Some(q2));

    let q3 = q(-1, 990000000);
    let f3 = -0.01;
    assert!((as_float(&q3) - f3).abs() < 1e-12);
    assert_eq!(Quantity::parse(&f3.to_string()), Some(q3));
}

#[test]
fn test_arith() {
    let x_1 = q(114, 999999999);
    let y_1 = q(6, 1);
    assert_eq!(x_1.add(&y_1), Some(q(121, 0)));

    let x_2 = q(114, 0);
    let y_2 = q(6, 1);
    assert_eq!(x_2.sub(&y_2), Some(q(107, 999999999)));
}

#[test]
fn add_then_sub_gives_back_the_start() {
    let pairs = [
        (q(114, 999999999), q(6, 1)),
        (q(-3, 250000000), q(1, 900000000)),
        (q(0, 0), q(-7, 1)),
        (q(i64::MAX - 5, 0), q(-2, 999999999)),
    ];
    for (a, b) in pairs.iter() {
        let s = a.add(b).unwrap();
        assert_eq!(s.sub(b), Some(*a));
    }
}

#[test]
fn add_overflow_is_reported() {
    assert_eq!(q(i64::MAX, 999999999).add(&q(0, 1)), None);
    assert_eq!(q(i64::MIN, 0).sub(&q(0, 1)), None);
    assert_eq!(q(i64::MAX, 0).add(&q(0, 999999999)), Some(q(i64::MAX, 999999999)));
}

#[test]
fn scale_and_percent() {
    assert_eq!(q(100, 500000000).scale(3), Some(q(301, 500000000)));
    assert_eq!(q(1, 250000000).scale(-2), Some(q(-3, 500000000)));
    assert_eq!(q(i64::MAX, 0).scale(2), None);
    assert_eq!(q(100, 0).percent_of(30), Some(q(30, 0)));
    assert_eq!(q(0, 7).percent_of(50), Some(q(0, 3)));
    assert_eq!(q(-1, 999999993).percent_of(50), Some(q(-1, 999999997)));
}

#[test]
fn compare_is_lexicographic() {
    assert_eq!(q(1, 5).compare(&q(1, 6)), Ordering::Less);
    assert_eq!(q(2, 0).compare(&q(1, 999999999)), Ordering::Greater);
    assert_eq!(q(-1, 3).compare(&q(-1, 3)), Ordering::Equal);
    assert!(q(-2, 999999999).lt(&q(-1, 0)));
    assert!(q(1, 5) < q(1, 6));
    assert!(q(2, 0) >= q(1, 999999999));
    assert!(!(q(3, 3) < q(3, 3)));
}

#[test]
fn parse_accepts_decimals() {
    assert_eq!(Quantity::parse("7"), Some(q(7, 0)));
    assert_eq!(Quantity::parse("-7"), Some(q(-7, 0)));
    assert_eq!(Quantity::parse("0.5"), Some(q(0, 500000000)));
    assert_eq!(Quantity::parse("1.1234567899"), Some(q(1, 123456789)));
    assert_eq!(Quantity::parse("-1.1234567899"), Some(q(-2, 876543211)));
    assert_eq!(Quantity::parse("0009223372036854775807"), Some(q(i64::MAX, 0)));
}

#[test]
fn parse_rejects_other_text() {
    for s in ["", "-", ".5", "5.", "1.2.3", "1e5", "+1", " 1", "12a", "99999999999999999999"].iter() {
        assert_eq!(Quantity::parse(s), None, "{}", s);
    }
}

#[test]
fn new_and_nanos() {
    assert_eq!(Quantity::new(3, 1_000_000_000), None);
    assert_eq!(Quantity::new(3, -1), None);
    assert_eq!(Quantity::new(3, 4), Some(q(3, 4)));
    assert_eq!(q(-1, 750000000).to_nanos(), -250000000);
    assert_eq!(from_nanos(-250000000), Some(q(-1, 750000000)));
}

#[test]
fn wire_form_round_trip() {
    assert_eq!(Quantity::from_wire(-200, -200000000), Some(q(-201, 800000000)));
    assert_eq!(q(-201, 800000000).to_wire(), (-200, -200000000));
    assert_eq!(Quantity::from_wire(0, -10000000), Some(q(-1, 990000000)));
    assert_eq!(q(-1, 990000000).to_wire(), (0, -10000000));
    assert_eq!(q(114, 250000000).to_wire(), (114, 250000000));
    assert_eq!(Quantity::from_wire(i64::MIN, -1), None);
}
