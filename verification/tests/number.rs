use lox::number::Number;
use lox::object::Object;

const SAMPLES: [f64; 17] = [
    0.0,
    -0.0,
    1.0,
    -1.0,
    0.5,
    -0.5,
    2.0,
    1e300,
    -1e300,
    5e-324,
    -5e-324,
    f64::MAX,
    f64::MIN,
    f64::INFINITY,
    f64::NEG_INFINITY,
    f64::NAN,
    f64::MIN_POSITIVE,
];

fn n(value: f64) -> Number {
    Number::from_bits(value.to_bits())
}

#[test]
fn order_and_equality_are_those_of_the_machine() {
    for a in SAMPLES {
        for b in SAMPLES {
            assert_eq!(n(a) == n(b), a == b, "{} == {}", a, b);
            assert_eq!(n(a) != n(b), a != b, "{} != {}", a, b);
            assert_eq!(n(a).less_than(&n(b)), a < b, "{} < {}", a, b);
            assert_eq!(n(a).less_or_equal(&n(b)), a <= b, "{} <= {}", a, b);
            assert_eq!(n(a).greater_than(&n(b)), a > b, "{} > {}", a, b);
            assert_eq!(n(a).greater_or_equal(&n(b)), a >= b, "{} >= {}", a, b);
        }
    }
}

#[test]
fn negative_nan_is_a_nan_too() {
    let nan = n(-f64::NAN);
    assert!(nan.is_nan());
    assert!(nan.is_negative() != n(f64::NAN).is_negative());
    assert!(!(nan == nan));
    assert!(!nan.less_than(&n(1.0)));
    assert!(!n(1.0).less_or_equal(&nan));
}

#[test]
fn negate_flips_the_sign_bit() {
    for a in SAMPLES {
        assert_eq!(n(a).negate().to_bits(), (-a).to_bits(), "-{}", a);
        assert_eq!(n(a).negate().negate().to_bits(), a.to_bits());
    }
}

#[test]
fn sign_and_nan_tests() {
    for a in SAMPLES {
        assert_eq!(n(a).is_nan(), a.is_nan());
        assert_eq!(n(a).is_negative(), a.is_sign_negative());
    }
}

#[test]
fn bits_round_trip() {
    assert_eq!(Number::from_bits(0x4000_0000_0000_0000).to_bits(), 2.0f64.to_bits());
    assert_eq!(Number::from_bits(7).to_bits(), 7);
}

#[test]
fn objects_of_different_kinds_are_never_equal() {
    let values = [
        Object::Number(n(1.0)),
        Object::Number(n(0.0)),
        Object::String(String::from("1")),
        Object::String(String::new()),
        Object::Boolean(true),
        Object::Boolean(false),
    ];
    for (i, a) in values.iter().enumerate() {
        for (j, b) in values.iter().enumerate() {
            assert_eq!(a == b, i == j);
        }
    }
    assert!(Object::Number(n(0.0)) == Object::Number(n(-0.0)));
    assert!(Object::Number(n(f64::NAN)) != Object::Number(n(f64::NAN)));
}

#[test]
fn object_text_and_clone() {
    let format = |bits: u64| f64::from_bits(bits).to_string();
    assert_eq!(Object::Number(n(2.5)).to_text(&format), "2.5");
    assert_eq!(Object::String(String::from("s")).to_text(&format), "s");
    assert_eq!(Object::Boolean(true).to_text(&format), "true");
    assert_eq!(Object::Boolean(false).to_text(&format), "false");
    let original = Object::String(String::from("copy me"));
    assert_eq!(original.clone(), original);
    assert!(Object::Number(n(1.0)).is_number());
    assert!(!Object::Boolean(true).is_number());
    assert!(!original.is_number());
}
