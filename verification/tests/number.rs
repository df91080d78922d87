use lox::number::Number;

fn n(value: f32) -> Number {
    Number::from_bits(value.to_bits())
}

fn f(number: Number) -> f32 {
    f32::from_bits(number.to_bits())
}

fn samples() -> Vec<f32> {
    vec![
        0.0,
        -0.0,
        1.0,
        -1.0,
        0.5,
        2.0,
        3.0,
        10.0,
        0.1,
        0.2,
        0.3,
        1234.5678,
        -7.25,
        1.0e-40,
        -1.0e-40,
        f32::MIN_POSITIVE,
        f32::MAX,
        f32::MIN,
        f32::EPSILON,
        16777216.0,
        16777217.0,
        1.0e20,
        3.4e38,
        f32::INFINITY,
        f32::NEG_INFINITY,
        f32::NAN,
    ]
}

fn same(a: f32, b: f32) -> bool {
    (a.is_nan() && b.is_nan()) || a.to_bits() == b.to_bits()
}

#[test]
fn arithmetic_agrees_with_the_hardware() {
    for &a in &samples() {
        for &b in &samples() {
            assert!(same(f(n(a).plus(n(b))), a + b), "{} + {}", a, b);
            assert!(same(f(n(a).minus(n(b))), a - b), "{} - {}", a, b);
            assert!(same(f(n(a).times(n(b))), a * b), "{} * {}", a, b);
            assert!(same(f(n(a).divided_by(n(b))), a / b), "{} / {}", a, b);
        }
    }
}

#[test]
fn sum_is_not_one_of_its_operands() {
    assert_eq!(n(1.5).plus(n(2.25)), n(3.75));
    assert_eq!(n(1.5).minus(n(2.25)), n(-0.75));
    assert_eq!(n(1.5).times(n(2.0)), n(3.0));
    assert_eq!(n(1.5).divided_by(n(2.0)), n(0.75));
}

#[test]
fn order_agrees_with_the_hardware() {
    for &a in &samples() {
        for &b in &samples() {
            assert_eq!(n(a).less(n(b)), a < b, "{} < {}", a, b);
            assert_eq!(n(a).less_equal(n(b)), a <= b, "{} <= {}", a, b);
            assert_eq!(n(a).greater(n(b)), a > b, "{} > {}", a, b);
            assert_eq!(n(a).greater_equal(n(b)), a >= b, "{} >= {}", a, b);
            assert_eq!(n(a).same_value(n(b)), a == b, "{} == {}", a, b);
        }
    }
}

#[test]
fn negation_and_zero_test_agree_with_the_hardware() {
    for &a in &samples() {
        assert_eq!(n(a).negate().to_bits(), (-a).to_bits(), "-{}", a);
        assert_eq!(n(a).is_zero(), a == 0.0, "{} == 0", a);
        assert_eq!(n(a).is_nan(), a.is_nan(), "{} is NaN", a);
    }
}

#[test]
fn numerals_are_read_as_the_nearest_value() {
    let numerals = [
        "0",
        "1",
        "1234",
        "1234.5678",
        "1.2345",
        "0.1",
        "0.30000001192092896",
        "16777217",
        "340282350000000000000000000000000000000",
        "999999999999999999999999999999999999999999",
        "0.00000000000000000000000000000000000000000001",
        "4.35",
        "007.50",
    ];
    for numeral in numerals {
        let expected: f32 = numeral.parse().unwrap();
        assert_eq!(Number::parse(numeral), Some(n(expected)), "{}", numeral);
    }
}

#[test]
fn what_is_no_numeral_is_not_read() {
    assert_eq!(Number::parse(""), None);
    assert_eq!(Number::parse("abc"), None);
    assert_eq!(Number::parse("1.2.3"), None);
    assert_eq!(Number::parse("."), None);
}
